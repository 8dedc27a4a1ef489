//! What holds of a relay unit over any run of events: the two paths through
//! it, stated over the frames that went in and the frames that came out.
use crate::frame::Frame;
use crate::queue::full_at;
use crate::relay::{Action, Event, RelayState, TerminationReason, UnitModel};
use vstd::prelude::*;

verus! {

/// The unit after `events`, one after the other, and the actions that it
/// answered them with.
pub open spec fn run(unit: UnitModel, events: Seq<Event>) -> (UnitModel, Seq<Action>)
    decreases events.len(),
{
    if events.len() == 0 {
        (unit, Seq::empty())
    } else {
        let before = run(unit, events.drop_last());
        let last = before.0.step(events.last());
        (last.0, before.1.push(last.1))
    }
}

/// The data frames that arrived at the publisher-facing endpoint, in order.
pub open spec fn data_arrived(events: Seq<Event>) -> Seq<Frame>
    decreases events.len(),
{
    if events.len() == 0 {
        Seq::empty()
    } else {
        match events.last() {
            Event::DataArrived(frame) => data_arrived(events.drop_last()).push(frame),
            _ => data_arrived(events.drop_last()),
        }
    }
}

/// The control frames that arrived at the subscriber-facing endpoint, in order.
pub open spec fn control_arrived(events: Seq<Event>) -> Seq<Frame>
    decreases events.len(),
{
    if events.len() == 0 {
        Seq::empty()
    } else {
        match events.last() {
            Event::ControlArrived(frame) => control_arrived(events.drop_last()).push(frame),
            _ => control_arrived(events.drop_last()),
        }
    }
}

/// The data frames that the driver was told to send to the subscribers, in order.
pub open spec fn sent_to_subscribers(actions: Seq<Action>) -> Seq<Frame>
    decreases actions.len(),
{
    if actions.len() == 0 {
        Seq::empty()
    } else {
        match actions.last() {
            Action::SendToSubscribers(frame) => sent_to_subscribers(actions.drop_last()).push(
                frame,
            ),
            _ => sent_to_subscribers(actions.drop_last()),
        }
    }
}

/// The control frames that the driver was told to send to the publishers, in order.
pub open spec fn sent_to_publishers(actions: Seq<Action>) -> Seq<Frame>
    decreases actions.len(),
{
    if actions.len() == 0 {
        Seq::empty()
    } else {
        match actions.last() {
            Action::SendToPublishers(frame) => sent_to_publishers(actions.drop_last()).push(
                frame,
            ),
            _ => sent_to_publishers(actions.drop_last()),
        }
    }
}

/// Events that leave a running unit running: none of them tells it to stop
/// or reports a failed socket.
pub open spec fn only_traffic(events: Seq<Event>) -> bool {
    forall|i: int|
        0 <= i < events.len() ==> !((#[trigger] events[i]) is Cancel) && !(events[i]
            is SocketError)
}

/// `small` is `big` with some frames struck out: the frame at position `i`
/// of `small` is the frame at position `at[i]` of `big`, and the positions
/// rise.
pub open spec fn selects(at: Seq<int>, small: Seq<Frame>, big: Seq<Frame>) -> bool {
    &&& at.len() == small.len()
    &&& forall|i: int|
        0 <= i < at.len() ==> 0 <= #[trigger] at[i] < big.len() && small[i] == big[at[i]]
    &&& forall|i: int, j: int| 0 <= i < j < at.len() ==> #[trigger] at[i] < #[trigger] at[j]
}

/// `small` holds frames of `big` only, each as it is in `big` and in the
/// order of `big`.
pub open spec fn is_subsequence(small: Seq<Frame>, big: Seq<Frame>) -> bool {
    exists|at: Seq<int>| selects(at, small, big)
}

/// How many data frames `event` costs `unit`: a frame that arrives is lost
/// where the unit does not run or its inbound queue is full; a turn of the
/// forwarding loop loses the frame that it moves where the outbound queue is
/// full; the end of a running unit loses whatever waits in it.
pub open spec fn frames_lost_at(unit: UnitModel, event: Event) -> nat {
    match event {
        Event::DataArrived(_) => if unit.state is Running && !full_at(
            unit.inbound.len(),
            unit.inbound_limit,
        ) {
            0
        } else {
            1
        },
        Event::Forward => if unit.state is Running && unit.inbound.len() > 0 && full_at(
            unit.outbound.len(),
            unit.outbound_limit,
        ) {
            1
        } else {
            0
        },
        Event::Cancel => if unit.state is Running {
            unit.pending().len()
        } else {
            0
        },
        Event::SocketError(_) => if unit.state is Running {
            unit.pending().len()
        } else {
            0
        },
        _ => 0,
    }
}

/// How many data frames a run of `events` costs `unit`.
pub open spec fn frames_lost(unit: UnitModel, events: Seq<Event>) -> nat
    decreases events.len(),
{
    if events.len() == 0 {
        0
    } else {
        frames_lost(unit, events.drop_last()) + frames_lost_at(
            run(unit, events.drop_last()).0,
            events.last(),
        )
    }
}

/// A run is the run without its last event, then the step on that event.
proof fn lemma_run_unfolds(unit: UnitModel, events: Seq<Event>)
    requires
        events.len() > 0,
    ensures
        run(unit, events).0 == run(unit, events.drop_last()).0.step(events.last()).0,
        run(unit, events).1.last() == run(unit, events.drop_last()).0.step(events.last()).1,
        run(unit, events).1.drop_last() == run(unit, events.drop_last()).1,
{
}

/// Events of traffic stay events of traffic without the last of them.
proof fn lemma_traffic_without_last(events: Seq<Event>)
    requires
        only_traffic(events),
        events.len() > 0,
    ensures
        only_traffic(events.drop_last()),
        !(events.last() is Cancel),
        !(events.last() is SocketError),
{
    let earlier = events.drop_last();
    assert forall|i: int| 0 <= i < earlier.len() implies !((#[trigger] earlier[i]) is Cancel) && !(
    earlier[i] is SocketError) by {
        assert(earlier[i] == events[i]);
    }
    assert(events.last() == events[events.len() - 1]);
}

/// A run has one action for each event, and a well-formed unit is
/// well-formed after it, under the limits that it had.
pub proof fn lemma_run_keeps_wf(unit: UnitModel, events: Seq<Event>)
    requires
        unit.wf(),
    ensures
        run(unit, events).0.wf(),
        run(unit, events).1.len() == events.len(),
        run(unit, events).0.inbound_limit == unit.inbound_limit,
        run(unit, events).0.outbound_limit == unit.outbound_limit,
    decreases events.len(),
{
    if events.len() > 0 {
        lemma_run_keeps_wf(unit, events.drop_last());
    }
}

/// A unit that has stopped stays stopped: whatever events follow, it stays
/// as it is, answers each of them with `Close`, and sends nothing more.
pub proof fn lemma_stopped_unit_stays_stopped(unit: UnitModel, events: Seq<Event>)
    requires
        unit.state is Terminated,
    ensures
        run(unit, events).0 == unit,
        run(unit, events).1.len() == events.len(),
        forall|i: int| 0 <= i < events.len() ==> run(unit, events).1[i] == Action::Close,
        sent_to_subscribers(run(unit, events).1) == Seq::<Frame>::empty(),
        sent_to_publishers(run(unit, events).1) == Seq::<Frame>::empty(),
    decreases events.len(),
{
    if events.len() > 0 {
        lemma_stopped_unit_stays_stopped(unit, events.drop_last());
        lemma_run_unfolds(unit, events);
    }
}

/// Traffic never stalls a unit, and the control path loses nothing. Over
/// any run of events that neither cancel the unit nor report a failed
/// socket, however many data frames arrive and however full the queues are,
/// a running unit has an answer to every event, is still running at the
/// end, and has told the driver to send to the publishers exactly the
/// control frames that arrived, each unchanged and in their order.
pub proof fn lemma_traffic_never_stalls(unit: UnitModel, events: Seq<Event>)
    requires
        unit.state is Running,
        only_traffic(events),
    ensures
        run(unit, events).0.state is Running,
        run(unit, events).1.len() == events.len(),
        sent_to_publishers(run(unit, events).1) == control_arrived(events),
    decreases events.len(),
{
    if events.len() > 0 {
        lemma_traffic_without_last(events);
        lemma_traffic_never_stalls(unit, events.drop_last());
        lemma_run_unfolds(unit, events);
    }
}

/// The data path invents nothing, alters nothing and reorders nothing. Over
/// any run of events, the data frames that the driver was told to send to
/// the subscribers, followed by those that still wait in the unit, are
/// among the frames that waited at the start followed by those that
/// arrived: each of them unchanged and in the same order. Frames are
/// missing only where a queue was full or the unit stopped. The result says
/// where in the second sequence each frame of the first is found.
pub proof fn lemma_data_path_keeps_order(unit: UnitModel, events: Seq<Event>) -> (at: Seq<int>)
    requires
        unit.wf(),
    ensures
        selects(
            at,
            sent_to_subscribers(run(unit, events).1) + run(unit, events).0.pending(),
            unit.pending() + data_arrived(events),
        ),
        is_subsequence(
            sent_to_subscribers(run(unit, events).1) + run(unit, events).0.pending(),
            unit.pending() + data_arrived(events),
        ),
    decreases events.len(),
{
    if events.len() == 0 {
        // Nothing happened: every frame is where it was.
        Seq::new(unit.pending().len(), |i: int| i)
    } else {
        let earlier = events.drop_last();
        let at = lemma_data_path_keeps_order(unit, earlier);
        lemma_run_keeps_wf(unit, earlier);
        lemma_run_unfolds(unit, events);
        let before = run(unit, earlier).0;
        let sent = sent_to_subscribers(run(unit, earlier).1);
        let source = unit.pending() + data_arrived(earlier);
        if before.state is Running {
            match events.last() {
                Event::DataArrived(_) => {
                    if full_at(before.inbound.len(), before.inbound_limit) {
                        at
                    } else {
                        // The newcomer is the last frame on both sides.
                        at.push(source.len() as int)
                    }
                },
                Event::Forward => {
                    if before.inbound.len() > 0 && full_at(
                        before.outbound.len(),
                        before.outbound_limit,
                    ) {
                        // The head of the inbound queue is struck out.
                        at.remove((sent.len() + before.outbound.len()) as int)
                    } else {
                        at
                    }
                },
                Event::Cancel => {
                    // Only what was sent is left.
                    at.subrange(0, sent.len() as int)
                },
                Event::SocketError(_) => {
                    at.subrange(0, sent.len() as int)
                },
                _ => {
                    at
                },
            }
        } else {
            at
        }
    }
}

/// Every data frame is accounted for. Over any run of events, the frames
/// that waited at the start and those that arrived are as many as the frames
/// that the driver was told to send to the subscribers, those that still
/// wait, and those that were lost to a full queue or to the end of the unit.
pub proof fn lemma_data_path_accounts_for_every_frame(unit: UnitModel, events: Seq<Event>)
    requires
        unit.wf(),
    ensures
        sent_to_subscribers(run(unit, events).1).len() + run(unit, events).0.pending().len()
            + frames_lost(unit, events) == unit.pending().len() + data_arrived(events).len(),
    decreases events.len(),
{
    if events.len() > 0 {
        lemma_data_path_accounts_for_every_frame(unit, events.drop_last());
        lemma_run_keeps_wf(unit, events.drop_last());
        lemma_run_unfolds(unit, events);
    }
}

/// A run that costs no frame delivers every frame. Where no data frame was
/// lost, the frames that the driver was told to send to the subscribers,
/// followed by those that still wait, are exactly the frames that waited at
/// the start followed by those that arrived: all of them, unchanged, in
/// their order.
pub proof fn lemma_data_path_lossless(unit: UnitModel, events: Seq<Event>)
    requires
        unit.wf(),
        frames_lost(unit, events) == 0,
    ensures
        sent_to_subscribers(run(unit, events).1) + run(unit, events).0.pending() == unit.pending()
            + data_arrived(events),
    decreases events.len(),
{
    if events.len() > 0 {
        let earlier = events.drop_last();
        lemma_data_path_lossless(unit, earlier);
        lemma_run_keeps_wf(unit, earlier);
        lemma_run_unfolds(unit, events);
        match events.last() {
            Event::DataArrived(frame) => {
                let kept = sent_to_subscribers(run(unit, earlier).1) + run(
                    unit,
                    earlier,
                ).0.pending();
                let now = sent_to_subscribers(run(unit, events).1) + run(unit, events).0.pending();
                assert(now =~= kept.push(frame));
            },
            _ => {},
        }
    }
}

/// Where there is room, the data path loses nothing. Take a running unit
/// and a run of events that neither cancel it nor report a failed socket,
/// and let each limit be zero or at least the number of frames that waited
/// at the start and arrived during the run. Then no frame is lost: the
/// frames that the driver was told to send to the subscribers, followed by
/// those that still wait, are exactly the frames that waited at the start
/// followed by those that arrived.
pub proof fn lemma_data_path_lossless_with_room(unit: UnitModel, events: Seq<Event>)
    requires
        unit.wf(),
        unit.state is Running,
        only_traffic(events),
        unit.inbound_limit == 0 || unit.pending().len() + data_arrived(events).len()
            <= unit.inbound_limit,
        unit.outbound_limit == 0 || unit.pending().len() + data_arrived(events).len()
            <= unit.outbound_limit,
    ensures
        frames_lost(unit, events) == 0,
        sent_to_subscribers(run(unit, events).1) + run(unit, events).0.pending() == unit.pending()
            + data_arrived(events),
    decreases events.len(),
{
    if events.len() > 0 {
        let earlier = events.drop_last();
        lemma_traffic_without_last(events);
        lemma_data_path_lossless_with_room(unit, earlier);
        lemma_data_path_accounts_for_every_frame(unit, earlier);
        lemma_run_keeps_wf(unit, earlier);
        lemma_traffic_never_stalls(unit, earlier);
    }
    lemma_data_path_lossless(unit, events);
}

/// A failed bind is the end of the unit. A unit that is binding when the
/// bind fails stops for that reason, its driver is told to close whatever
/// was opened, and whatever events follow, the unit never runs.
pub proof fn lemma_bind_failure_is_final(unit: UnitModel, later: Seq<Event>)
    requires
        unit.wf(),
        unit.state is Binding,
    ensures
        unit.step(Event::BindFailed) == (
            unit.stopped(TerminationReason::BindFailure),
            Action::Close,
        ),
        run(unit.step(Event::BindFailed).0, later).0.state == RelayState::Terminated(
            TerminationReason::BindFailure,
        ),
        sent_to_subscribers(run(unit.step(Event::BindFailed).0, later).1) == Seq::<Frame>::empty(),
{
    lemma_stopped_unit_stays_stopped(unit.step(Event::BindFailed).0, later);
}

/// A unit that is told to stop stops within that one step, in whatever
/// state it is: what still waits in it is discarded, not drained, and its
/// driver is told to close the sockets.
pub proof fn lemma_cancel_stops_at_once(unit: UnitModel)
    requires
        !(unit.state is Terminated),
    ensures
        unit.step(Event::Cancel) == (unit.stopped(TerminationReason::Cancelled), Action::Close),
        unit.step(Event::Cancel).0.pending() == Seq::<Frame>::empty(),
{
}

} // verus!
