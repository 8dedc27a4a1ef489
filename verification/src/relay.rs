//! The relay unit: the lifecycle of one bound pair of endpoints and the
//! movement of frames between them, as a function from state and event to
//! next state and action. A driver owns the sockets: it performs each action
//! and reports what it observed as the next event.
use crate::config::Pair;
use crate::frame::Frame;
use crate::queue::{after_offer, after_take, full_at, LossyQueue};
use crate::trace::run;
use vstd::prelude::*;

verus! {

/// Why a unit stopped.
#[derive(Debug, PartialEq, Eq)]
pub enum TerminationReason {
    /// An endpoint could not be bound; the unit never ran.
    BindFailure,
    /// The unit was told to stop.
    Cancelled,
    /// A socket failed while the unit ran; the detail says how.
    ForwardingFailure(String),
}

/// Where a unit stands in its life. A unit only ever moves down this list.
#[derive(Debug, PartialEq, Eq)]
pub enum RelayState {
    Unbound,
    Binding,
    Running,
    Terminated(TerminationReason),
}

/// What a driver observed.
#[derive(Debug, PartialEq, Eq)]
pub enum Event {
    /// The worker of the unit is ready to bind.
    Start,
    /// Both endpoints are bound, with their limits applied.
    Bound,
    /// An endpoint could not be created, limited or bound.
    BindFailed,
    /// A complete data frame arrived at the publisher-facing endpoint.
    DataArrived(Frame),
    /// A subscription-control frame arrived at the subscriber-facing endpoint.
    ControlArrived(Frame),
    /// The forwarding loop has its turn to move one waiting frame onward.
    Forward,
    /// The subscriber-facing endpoint can take one frame for delivery.
    SubscriberReady,
    /// The unit is told to stop.
    Cancel,
    /// A socket failed; the text says how.
    SocketError(String),
}

/// What a driver has to do next.
#[derive(Debug, PartialEq, Eq)]
pub enum Action {
    /// Create both sockets, apply the limits, bind both endpoints.
    Bind,
    /// Wait for the next event.
    Wait,
    /// Send this data frame out of the subscriber-facing endpoint.
    SendToSubscribers(Frame),
    /// Send this control frame out of the publisher-facing endpoint.
    SendToPublishers(Frame),
    /// Close both sockets at once, without draining them.
    Close,
}

impl RelayState {
    /// The position of a state in the life of a unit.
    pub open spec fn rank(self) -> nat {
        match self {
            RelayState::Unbound => 0,
            RelayState::Binding => 1,
            RelayState::Running => 2,
            RelayState::Terminated(_) => 3,
        }
    }

    /// Why a unit in this state stopped, if it has.
    pub open spec fn reason(self) -> Option<TerminationReason> {
        match self {
            RelayState::Terminated(reason) => Some(reason),
            _ => None,
        }
    }

    /// Whether a unit in this state forwards frames.
    pub fn is_running(&self) -> (running: bool)
        ensures
            running == (*self is Running),
    {
        match self {
            RelayState::Running => true,
            _ => false,
        }
    }

    /// Whether a unit in this state has stopped for good.
    pub fn is_terminated(&self) -> (terminated: bool)
        ensures
            terminated == (*self is Terminated),
    {
        match self {
            RelayState::Terminated(_) => true,
            _ => false,
        }
    }
}

/// A relay unit as the contracts see it.
pub struct UnitModel {
    pub state: RelayState,
    /// Data frames that arrived and wait to be forwarded, oldest first.
    pub inbound: Seq<Frame>,
    /// Data frames that were forwarded and wait to be delivered, oldest first.
    pub outbound: Seq<Frame>,
    /// Bound on `inbound`; zero for none.
    pub inbound_limit: nat,
    /// Bound on `outbound`; zero for none.
    pub outbound_limit: nat,
}

impl UnitModel {
    /// A unit for `pair` before anything happened to it.
    pub open spec fn initial(pair: Pair) -> UnitModel {
        UnitModel {
            state: RelayState::Unbound,
            inbound: Seq::empty(),
            outbound: Seq::empty(),
            inbound_limit: pair.xsub_rcvhwm as nat,
            outbound_limit: pair.xpub_sndhwm as nat,
        }
    }

    /// No queue is above its limit, and only a running unit holds frames.
    pub open spec fn wf(self) -> bool {
        &&& self.inbound_limit > 0 ==> self.inbound.len() <= self.inbound_limit
        &&& self.outbound_limit > 0 ==> self.outbound.len() <= self.outbound_limit
        &&& !(self.state is Running) ==> self.inbound.len() == 0 && self.outbound.len() == 0
    }

    /// The data frames inside the unit in the order in which they will leave it.
    pub open spec fn pending(self) -> Seq<Frame> {
        self.outbound + self.inbound
    }

    /// This unit in `state`, its queues untouched.
    pub open spec fn in_state(self, state: RelayState) -> UnitModel {
        UnitModel { state, ..self }
    }

    /// This unit stopped for `reason`: whatever waited is discarded.
    pub open spec fn stopped(self, reason: TerminationReason) -> UnitModel {
        UnitModel {
            state: RelayState::Terminated(reason),
            inbound: Seq::empty(),
            outbound: Seq::empty(),
            ..self
        }
    }

    /// A running unit after a data frame arrived: the frame waits to be
    /// forwarded, unless the inbound queue is full.
    pub open spec fn admitted(self, frame: Frame) -> UnitModel {
        UnitModel { inbound: after_offer(self.inbound, self.inbound_limit, frame), ..self }
    }

    /// A running unit after one turn of the forwarding loop: the oldest frame
    /// that waited to be forwarded now waits to be delivered, unless the
    /// outbound queue is full, in which case it is gone.
    pub open spec fn forwarded(self) -> UnitModel {
        if self.inbound.len() > 0 {
            UnitModel {
                inbound: after_take(self.inbound),
                outbound: after_offer(self.outbound, self.outbound_limit, self.inbound[0]),
                ..self
            }
        } else {
            self
        }
    }

    /// A running unit after it handed its oldest outbound frame to the driver.
    pub open spec fn delivered(self) -> UnitModel {
        UnitModel { outbound: after_take(self.outbound), ..self }
    }

    /// The transition function: the unit after `event`, and what the driver
    /// has to do. An event that means nothing in the present state changes
    /// nothing; a unit that has stopped answers every event with `Close`.
    pub open spec fn step(self, event: Event) -> (UnitModel, Action) {
        match self.state {
            RelayState::Unbound => match event {
                Event::Start => (self.in_state(RelayState::Binding), Action::Bind),
                Event::Cancel => (self.stopped(TerminationReason::Cancelled), Action::Close),
                _ => (self, Action::Wait),
            },
            RelayState::Binding => match event {
                Event::Bound => (self.in_state(RelayState::Running), Action::Wait),
                Event::BindFailed => (
                    self.stopped(TerminationReason::BindFailure),
                    Action::Close,
                ),
                Event::Cancel => (self.stopped(TerminationReason::Cancelled), Action::Close),
                _ => (self, Action::Wait),
            },
            RelayState::Running => match event {
                Event::DataArrived(frame) => (self.admitted(frame), Action::Wait),
                Event::ControlArrived(frame) => (self, Action::SendToPublishers(frame)),
                Event::Forward => (self.forwarded(), Action::Wait),
                Event::SubscriberReady => if self.outbound.len() > 0 {
                    (self.delivered(), Action::SendToSubscribers(self.outbound[0]))
                } else {
                    (self, Action::Wait)
                },
                Event::Cancel => (self.stopped(TerminationReason::Cancelled), Action::Close),
                Event::SocketError(detail) => (
                    self.stopped(TerminationReason::ForwardingFailure(detail)),
                    Action::Close,
                ),
                _ => (self, Action::Wait),
            },
            RelayState::Terminated(_) => (self, Action::Close),
        }
    }
}

/// Every state of a unit is well-formed: no event takes a well-formed unit
/// to one with a queue above its limit, or to one that holds frames without
/// running.
pub proof fn lemma_step_keeps_wf(unit: UnitModel, event: Event)
    requires
        unit.wf(),
    ensures
        unit.step(event).0.wf(),
{
}

/// A unit only moves forward in its life and keeps its limits: no event
/// takes it to an earlier state, and a unit that has stopped stays as it is.
pub proof fn lemma_step_never_goes_back(unit: UnitModel, event: Event)
    ensures
        unit.state.rank() <= unit.step(event).0.state.rank(),
        unit.step(event).0.inbound_limit == unit.inbound_limit,
        unit.step(event).0.outbound_limit == unit.outbound_limit,
        unit.state is Terminated ==> unit.step(event) == (unit, Action::Close),
        unit.step(event).0.state is Running ==> unit.state is Running || (unit.state is Binding
            && event is Bound),
{
}

/// A data frame that arrives at an idle running unit comes out again as it
/// went in: after its arrival, one turn of the forwarding loop and one
/// delivery, the driver is told to send that very frame to the subscribers,
/// and the unit is idle again.
pub proof fn lemma_frame_round_trip(unit: UnitModel, frame: Frame)
    requires
        unit.wf(),
        unit.state is Running,
        unit.pending().len() == 0,
    ensures
        ({
            let arrived = unit.step(Event::DataArrived(frame)).0;
            let forwarded = arrived.step(Event::Forward).0;
            forwarded.step(Event::SubscriberReady) == (unit, Action::SendToSubscribers(frame))
        }),
{
    let arrived = unit.step(Event::DataArrived(frame)).0;
    let forwarded = arrived.step(Event::Forward).0;
    let last = forwarded.step(Event::SubscriberReady);
    assert(last.0.inbound =~= unit.inbound);
}

/// A subscription-control frame passes a running unit unchanged, whatever
/// waits in its queues: the driver is told to send that very frame to the
/// publishers, and the unit stays as it is.
pub proof fn lemma_control_frame_passes(unit: UnitModel, frame: Frame)
    requires
        unit.state is Running,
    ensures
        unit.step(Event::ControlArrived(frame)) == (unit, Action::SendToPublishers(frame)),
{
}

/// A full queue costs frames, never progress. A running unit whose outbound
/// queue is full keeps running on every event of traffic; its turn of the
/// forwarding loop drops the frame that it would have moved and leaves the
/// full queue as it is, and a data frame that arrives while the inbound
/// queue is full is dropped likewise.
pub proof fn lemma_full_queue_drops_newest(unit: UnitModel, frame: Frame)
    requires
        unit.wf(),
        unit.state is Running,
    ensures
        unit.step(Event::DataArrived(frame)).0.state is Running,
        unit.step(Event::Forward).0.state is Running,
        unit.step(Event::SubscriberReady).0.state is Running,
        unit.step(Event::ControlArrived(frame)).0.state is Running,
        full_at(unit.inbound.len(), unit.inbound_limit) ==> unit.step(Event::DataArrived(frame)).0
            == unit,
        !full_at(unit.inbound.len(), unit.inbound_limit) ==> unit.step(
            Event::DataArrived(frame),
        ).0.inbound == unit.inbound.push(frame),
        full_at(unit.outbound.len(), unit.outbound_limit) ==> unit.step(Event::Forward).0.outbound
            == unit.outbound,
        unit.inbound.len() > 0 ==> unit.step(Event::Forward).0.inbound == unit.inbound.subrange(
            1,
            unit.inbound.len() as int,
        ),
{
}

/// One relay unit: its configuration, its place in its life, and the data
/// frames that wait inside it.
pub struct RelayUnit {
    label: String,
    pair: Pair,
    state: RelayState,
    inbound: LossyQueue,
    outbound: LossyQueue,
}

impl View for RelayUnit {
    type V = UnitModel;

    closed spec fn view(&self) -> UnitModel {
        UnitModel {
            state: self.state,
            inbound: self.inbound@,
            outbound: self.outbound@,
            inbound_limit: self.inbound.limit(),
            outbound_limit: self.outbound.limit(),
        }
    }
}

impl RelayUnit {
    #[verifier::type_invariant]
    spec fn inv(&self) -> bool {
        self@.wf()
    }

    /// The configuration that the unit was started with.
    pub closed spec fn pair_spec(&self) -> Pair {
        self.pair
    }

    /// The label under which the unit is reported.
    pub closed spec fn label_spec(&self) -> Seq<char> {
        self.label@
    }

    /// Starts a unit for `pair` under `label`: unbound, with nothing waiting,
    /// its queues bounded by the limits of the pair.
    pub fn start(label: &str, pair: Pair) -> (unit: RelayUnit)
        requires
            pair.wf(),
        ensures
            unit@ == UnitModel::initial(pair),
            unit@.wf(),
            unit.pair_spec() == pair,
            unit.label_spec() == label@,
    {
        let inbound = LossyQueue::new(pair.xsub_rcvhwm as usize);
        let outbound = LossyQueue::new(pair.xpub_sndhwm as usize);
        RelayUnit {
            label: String::from_str(label),
            pair,
            state: RelayState::Unbound,
            inbound,
            outbound,
        }
    }

    /// The label under which the unit is reported.
    pub fn label(&self) -> (label: &String)
        ensures
            label@ == self.label_spec(),
    {
        &self.label
    }

    /// The configuration of the unit.
    pub fn pair(&self) -> (pair: &Pair)
        ensures
            *pair == self.pair_spec(),
    {
        &self.pair
    }

    /// Where the unit stands in its life.
    pub fn state(&self) -> (state: &RelayState)
        ensures
            *state == self@.state,
    {
        &self.state
    }

    /// Whether the unit forwards frames.
    pub fn is_running(&self) -> (running: bool)
        ensures
            running == (self@.state is Running),
    {
        self.state.is_running()
    }

    /// Whether the unit has stopped for good.
    pub fn is_terminated(&self) -> (terminated: bool)
        ensures
            terminated == (self@.state is Terminated),
    {
        self.state.is_terminated()
    }

    /// Why the unit stopped, taken out of it; `None` for a unit that has not stopped.
    pub fn into_reason(self) -> (reason: Option<TerminationReason>)
        ensures
            reason == self@.state.reason(),
    {
        match self.state {
            RelayState::Terminated(reason) => Some(reason),
            _ => None,
        }
    }

    /// How many data frames wait to be forwarded.
    pub fn inbound_len(&self) -> (len: usize)
        ensures
            len == self@.inbound.len(),
    {
        self.inbound.len()
    }

    /// How many data frames wait to be delivered.
    pub fn outbound_len(&self) -> (len: usize)
        ensures
            len == self@.outbound.len(),
    {
        self.outbound.len()
    }

    fn stop(&mut self, reason: TerminationReason)
        ensures
            final(self)@ == old(self)@.stopped(reason),
            final(self).pair_spec() == old(self).pair_spec(),
            final(self).label_spec() == old(self).label_spec(),
    {
        proof {
            use_type_invariant(&*self);
        }
        self.inbound = LossyQueue::new(self.inbound.capacity());
        self.outbound = LossyQueue::new(self.outbound.capacity());
        self.state = RelayState::Terminated(reason);
    }

    fn enqueue(&mut self, frame: Frame)
        requires
            old(self)@.state is Running,
        ensures
            final(self)@ == old(self)@.admitted(frame),
            final(self).pair_spec() == old(self).pair_spec(),
            final(self).label_spec() == old(self).label_spec(),
    {
        proof {
            use_type_invariant(&*self);
        }
        let mut queue = LossyQueue::new(0);
        std::mem::swap(&mut queue, &mut self.inbound);
        queue.offer(frame);
        self.inbound = queue;
    }

    fn forward(&mut self)
        requires
            old(self)@.state is Running,
        ensures
            final(self)@ == old(self)@.forwarded(),
            final(self).pair_spec() == old(self).pair_spec(),
            final(self).label_spec() == old(self).label_spec(),
    {
        proof {
            use_type_invariant(&*self);
        }
        let mut inbound = LossyQueue::new(0);
        std::mem::swap(&mut inbound, &mut self.inbound);
        let head = inbound.take();
        self.inbound = inbound;
        match head {
            Some(frame) => {
                let mut outbound = LossyQueue::new(0);
                std::mem::swap(&mut outbound, &mut self.outbound);
                outbound.offer(frame);
                self.outbound = outbound;
            },
            None => {},
        }
    }

    fn deliver(&mut self) -> (head: Option<Frame>)
        requires
            old(self)@.state is Running,
        ensures
            head == crate::queue::head_of(old(self)@.outbound),
            final(self)@ == old(self)@.delivered(),
            final(self).pair_spec() == old(self).pair_spec(),
            final(self).label_spec() == old(self).label_spec(),
    {
        proof {
            use_type_invariant(&*self);
        }
        let mut outbound = LossyQueue::new(0);
        std::mem::swap(&mut outbound, &mut self.outbound);
        let head = outbound.take();
        self.outbound = outbound;
        head
    }

    /// Takes the unit from its state and `event` to its next state, and
    /// returns what the driver has to do. Never blocks and never fails: a
    /// frame that finds its queue full is dropped.
    pub fn step(&mut self, event: Event) -> (action: Action)
        ensures
            (final(self)@, action) == old(self)@.step(event),
            final(self)@.wf(),
            final(self).pair_spec() == old(self).pair_spec(),
            final(self).label_spec() == old(self).label_spec(),
    {
        proof {
            use_type_invariant(&*self);
        }
        if self.state.is_terminated() {
            return Action::Close;
        }
        let running = self.state.is_running();
        let binding = !running && match self.state {
            RelayState::Binding => true,
            _ => false,
        };
        let unbound = !running && !binding;
        let action = match event {
            Event::Start => {
                if unbound {
                    self.state = RelayState::Binding;
                    Action::Bind
                } else {
                    Action::Wait
                }
            },
            Event::Bound => {
                if binding {
                    self.state = RelayState::Running;
                }
                Action::Wait
            },
            Event::BindFailed => {
                if binding {
                    self.stop(TerminationReason::BindFailure);
                    Action::Close
                } else {
                    Action::Wait
                }
            },
            Event::DataArrived(frame) => {
                if running {
                    self.enqueue(frame);
                }
                Action::Wait
            },
            Event::ControlArrived(frame) => {
                if running {
                    Action::SendToPublishers(frame)
                } else {
                    Action::Wait
                }
            },
            Event::Forward => {
                if running {
                    self.forward();
                }
                Action::Wait
            },
            Event::SubscriberReady => {
                if running {
                    match self.deliver() {
                        Some(frame) => Action::SendToSubscribers(frame),
                        None => Action::Wait,
                    }
                } else {
                    Action::Wait
                }
            },
            Event::Cancel => {
                self.stop(TerminationReason::Cancelled);
                Action::Close
            },
            Event::SocketError(detail) => {
                if running {
                    self.stop(TerminationReason::ForwardingFailure(detail));
                    Action::Close
                } else {
                    Action::Wait
                }
            },
        };
        proof {
            use_type_invariant(&*self);
        }
        action
    }

    /// Takes the unit through `events`, one after the other, and returns its
    /// answer to each of them, in order.
    pub fn run(&mut self, events: Vec<Event>) -> (actions: Vec<Action>)
        ensures
            (final(self)@, actions@) == run(old(self)@, events@),
            final(self)@.wf(),
            final(self).pair_spec() == old(self).pair_spec(),
            final(self).label_spec() == old(self).label_spec(),
    {
        let ghost all = events@;
        let mut actions: Vec<Action> = Vec::new();
        proof {
            use_type_invariant(&*self);
        }
        for event in iter: events
            invariant
                iter.seq() == all,
                (self@, actions@) == run(old(self)@, all.subrange(0, iter.index() as int)),
                self@.wf(),
                self.pair_spec() == old(self).pair_spec(),
                self.label_spec() == old(self).label_spec(),
        {
            proof {
                let done = all.subrange(0, iter.index() as int);
                let next = all.subrange(0, iter.index() + 1);
                assert(next.drop_last() == done);
            }
            let action = self.step(event);
            actions.push(action);
        }
        assert(all.subrange(0, all.len() as int) == all);
        actions
    }
}

} // verus!
