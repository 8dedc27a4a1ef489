use pubsub_relay::config::{load_settings_from, ConfigError, Pair, PairEntry, Settings};
use pubsub_relay::frame::Frame;
use pubsub_relay::relay::{Action, Event, RelayState, TerminationReason};
use pubsub_relay::supervisor::Supervisor;

fn pair(name: Option<&str>, frontend: &str, backend: &str) -> Pair {
    Pair {
        name: name.map(|n| n.to_string()),
        frontend: frontend.to_string(),
        backend: backend.to_string(),
        xsub_rcvhwm: 100_000,
        xpub_sndhwm: 100_000,
    }
}

fn frame(topic: &str, body: &[u8]) -> Frame {
    Frame::new(vec![topic.as_bytes().to_vec(), body.to_vec()])
}

#[test]
fn launch_starts_one_unit_per_pair() {
    let settings = Settings {
        pairs: vec![
            pair(Some("alpha"), "tcp://*:1", "tcp://*:2"),
            pair(None, "tcp://*:3", "tcp://*:4"),
            pair(None, "tcp://*:5", "tcp://*:6"),
        ],
    };
    let (supervisor, units) = Supervisor::launch(&settings).ok().unwrap();
    assert_eq!(units.len(), 3);
    assert_eq!(supervisor.len(), 3);
    for (i, unit) in units.iter().enumerate() {
        assert_eq!(unit.pair(), &settings.pairs[i]);
        assert_eq!(unit.state(), &RelayState::Unbound);
        assert_eq!(supervisor.outcome(i), None);
    }
    assert_eq!(units[0].label(), "alpha");
    assert_eq!(units[1].label(), "pair-2");
    assert_eq!(units[2].label(), "pair-3");
    assert!(!supervisor.finished());
}

#[test]
fn launch_refuses_an_empty_list() {
    let outcome = Supervisor::launch(&Settings { pairs: Vec::new() });
    match outcome {
        Err(ConfigError::Invalid(msg)) => assert_eq!(msg, "no pairs defined"),
        _ => panic!("an empty list was not refused"),
    }
}

#[test]
fn launch_refuses_a_negative_limit() {
    let mut bad = pair(None, "a", "b");
    bad.xsub_rcvhwm = -1;
    let outcome = Supervisor::launch(&Settings { pairs: vec![pair(None, "c", "d"), bad] });
    match outcome {
        Err(ConfigError::Invalid(msg)) => assert_eq!(msg, "negative high-water mark"),
        _ => panic!("a negative limit was not refused"),
    }
}

#[test]
fn record_notes_the_first_report_only() {
    let settings = Settings { pairs: vec![pair(None, "a", "b"), pair(None, "c", "d")] };
    let (mut supervisor, _units) = Supervisor::launch(&settings).ok().unwrap();
    assert!(supervisor.record(0, TerminationReason::BindFailure));
    assert!(!supervisor.record(0, TerminationReason::Cancelled));
    assert_eq!(supervisor.outcome(0), Some(&TerminationReason::BindFailure));
    assert_eq!(supervisor.outcome(1), None);
    assert!(!supervisor.finished());
    assert!(supervisor.record(1, TerminationReason::ForwardingFailure("gone".to_string())));
    assert_eq!(
        supervisor.outcome(1),
        Some(&TerminationReason::ForwardingFailure("gone".to_string()))
    );
    assert!(supervisor.finished());
}

#[test]
fn record_ignores_a_unit_that_does_not_exist() {
    let settings = Settings { pairs: vec![pair(None, "a", "b")] };
    let (mut supervisor, _units) = Supervisor::launch(&settings).ok().unwrap();
    assert!(!supervisor.record(1, TerminationReason::Cancelled));
    assert!(!supervisor.record(usize::MAX, TerminationReason::Cancelled));
    assert_eq!(supervisor.outcome(1), None);
    assert_eq!(supervisor.outcome(0), None);
    assert_eq!(supervisor.len(), 1);
    assert!(!supervisor.finished());
}

#[test]
fn colliding_bind_addresses_end_the_second_unit_only() {
    let settings = Settings {
        pairs: vec![
            pair(Some("first"), "tcp://*:5557", "tcp://*:5558"),
            pair(Some("second"), "tcp://*:5557", "tcp://*:5558"),
        ],
    };
    let (mut supervisor, mut units) = Supervisor::launch(&settings).ok().unwrap();
    let mut second = units.pop().unwrap();
    let mut first = units.pop().unwrap();

    assert_eq!(first.step(Event::Start), Action::Bind);
    assert_eq!(first.step(Event::Bound), Action::Wait);
    assert_eq!(second.step(Event::Start), Action::Bind);
    assert_eq!(second.step(Event::BindFailed), Action::Close);

    assert_eq!(second.state(), &RelayState::Terminated(TerminationReason::BindFailure));
    assert_eq!(first.state(), &RelayState::Running);
    assert!(supervisor.record(1, second.into_reason().unwrap()));
    assert_eq!(supervisor.outcome(1), Some(&TerminationReason::BindFailure));
    assert_eq!(supervisor.outcome(0), None);
    assert!(!supervisor.finished());

    let data = frame("t", b"still here");
    first.step(Event::DataArrived(data.clone()));
    first.step(Event::Forward);
    assert_eq!(first.step(Event::SubscriberReady), Action::SendToSubscribers(data));
}

#[test]
fn crash_of_one_unit_leaves_the_other_forwarding() {
    let entries = vec![
        PairEntry {
            name: Some("a".to_string()),
            frontend: "addrA1".to_string(),
            backend: "addrA2".to_string(),
            xsub_rcvhwm: None,
            xpub_sndhwm: None,
        },
        PairEntry {
            name: Some("b".to_string()),
            frontend: "addrB1".to_string(),
            backend: "addrB2".to_string(),
            xsub_rcvhwm: None,
            xpub_sndhwm: None,
        },
    ];
    let settings = load_settings_from(entries).unwrap();
    let (mut supervisor, mut units) = Supervisor::launch(&settings).ok().unwrap();
    assert_eq!(units.len(), 2);
    let mut b = units.pop().unwrap();
    let mut a = units.pop().unwrap();
    assert_eq!((a.label().as_str(), b.label().as_str()), ("a", "b"));
    assert_eq!((a.pair().frontend.as_str(), a.pair().backend.as_str()), ("addrA1", "addrA2"));
    assert_eq!((b.pair().frontend.as_str(), b.pair().backend.as_str()), ("addrB1", "addrB2"));
    assert_eq!((a.pair().xsub_rcvhwm, a.pair().xpub_sndhwm), (100_000, 100_000));
    assert_eq!((b.pair().xsub_rcvhwm, b.pair().xpub_sndhwm), (100_000, 100_000));

    for unit in [&mut a, &mut b] {
        assert_eq!(unit.step(Event::Start), Action::Bind);
        assert_eq!(unit.step(Event::Bound), Action::Wait);
    }
    b.step(Event::DataArrived(frame("t", b"before")));

    assert_eq!(a.step(Event::SocketError("crashed".to_string())), Action::Close);
    assert!(a.is_terminated());
    assert!(supervisor.record(0, a.into_reason().unwrap()));

    assert!(b.is_running());
    assert_eq!(supervisor.outcome(1), None);
    assert!(!supervisor.finished());
    b.step(Event::DataArrived(frame("t", b"after")));
    b.step(Event::Forward);
    b.step(Event::Forward);
    assert_eq!(b.step(Event::SubscriberReady), Action::SendToSubscribers(frame("t", b"before")));
    assert_eq!(b.step(Event::SubscriberReady), Action::SendToSubscribers(frame("t", b"after")));
    let control = Frame::new(vec![vec![1, b't']]);
    assert_eq!(b.step(Event::ControlArrived(control.clone())), Action::SendToPublishers(control));

    assert_eq!(b.step(Event::Cancel), Action::Close);
    assert!(supervisor.record(1, b.into_reason().unwrap()));
    assert!(supervisor.finished());
    assert_eq!(
        supervisor.outcome(0),
        Some(&TerminationReason::ForwardingFailure("crashed".to_string()))
    );
    assert_eq!(supervisor.outcome(1), Some(&TerminationReason::Cancelled));
}
