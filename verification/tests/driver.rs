use pubsub_relay::config::Pair;
use pubsub_relay::frame::Frame;
use pubsub_relay::relay::{Action, Event, RelayState, RelayUnit, TerminationReason};

/// The bind sequence of a driver: both sockets, their limits, both endpoints.
fn bind(ctx: &zmq::Context, pair: &Pair) -> Result<(zmq::Socket, zmq::Socket), zmq::Error> {
    let xsub = ctx.socket(zmq::XSUB)?;
    let xpub = ctx.socket(zmq::XPUB)?;
    xsub.set_rcvhwm(pair.xsub_rcvhwm)?;
    xpub.set_sndhwm(pair.xpub_sndhwm)?;
    xsub.bind(&pair.frontend)?;
    xpub.bind(&pair.backend)?;
    Ok((xsub, xpub))
}

fn drive_bind(ctx: &zmq::Context, unit: &mut RelayUnit) -> Option<(zmq::Socket, zmq::Socket)> {
    assert_eq!(unit.step(Event::Start), Action::Bind);
    match bind(ctx, unit.pair()) {
        Ok(sockets) => {
            assert_eq!(unit.step(Event::Bound), Action::Wait);
            Some(sockets)
        }
        Err(_) => {
            assert_eq!(unit.step(Event::BindFailed), Action::Close);
            None
        }
    }
}

#[test]
fn run_pair_invalid_endpoint() {
    let pair = Pair {
        name: None,
        frontend: "bad".to_string(),
        backend: "bad".to_string(),
        xsub_rcvhwm: 1,
        xpub_sndhwm: 1,
    };
    let ctx = zmq::Context::new();
    assert!(bind(&ctx, &pair).is_err());
    let mut unit = RelayUnit::start("test", pair);
    assert!(drive_bind(&ctx, &mut unit).is_none());
    assert_eq!(unit.state(), &RelayState::Terminated(TerminationReason::BindFailure));
}

#[test]
fn colliding_endpoints_fail_the_second_bind() {
    let pair = |name: &str| Pair {
        name: Some(name.to_string()),
        frontend: "inproc://collision-front".to_string(),
        backend: "inproc://collision-back".to_string(),
        xsub_rcvhwm: 10,
        xpub_sndhwm: 10,
    };
    let ctx = zmq::Context::new();
    let mut first = RelayUnit::start("first", pair("first"));
    let mut second = RelayUnit::start("second", pair("second"));
    let held = drive_bind(&ctx, &mut first);
    assert!(held.is_some());
    assert!(drive_bind(&ctx, &mut second).is_none());
    assert_eq!(second.state(), &RelayState::Terminated(TerminationReason::BindFailure));
    assert_eq!(first.state(), &RelayState::Running);
    if let Some((xsub, xpub)) = held {
        xsub.set_linger(0).ok();
        xpub.set_linger(0).ok();
    }
}

/// A relay unit with its two sockets, driven by hand.
struct Driver {
    unit: RelayUnit,
    xsub: zmq::Socket,
    xpub: zmq::Socket,
}

impl Driver {
    fn perform(&self, action: Action) {
        match action {
            Action::SendToSubscribers(frame) => {
                self.xpub.send_multipart(frame.into_parts(), zmq::DONTWAIT).unwrap()
            }
            Action::SendToPublishers(frame) => {
                self.xsub.send_multipart(frame.into_parts(), zmq::DONTWAIT).unwrap()
            }
            Action::Wait => {}
            other => panic!("a running unit asked for {:?}", other),
        }
    }

    /// Waits up to `timeout` milliseconds and moves what has arrived.
    fn turn(&mut self, timeout: i64) {
        let (front, back) = {
            let mut items =
                [self.xsub.as_poll_item(zmq::POLLIN), self.xpub.as_poll_item(zmq::POLLIN)];
            zmq::poll(&mut items, timeout).unwrap();
            (items[0].is_readable(), items[1].is_readable())
        };
        if back {
            let frame = Frame::new(self.xpub.recv_multipart(0).unwrap());
            let action = self.unit.step(Event::ControlArrived(frame));
            self.perform(action);
        }
        if front {
            let frame = Frame::new(self.xsub.recv_multipart(0).unwrap());
            assert_eq!(self.unit.step(Event::DataArrived(frame)), Action::Wait);
            assert_eq!(self.unit.step(Event::Forward), Action::Wait);
            let action = self.unit.step(Event::SubscriberReady);
            self.perform(action);
        }
    }
}

#[test]
fn frames_cross_a_unit_between_real_sockets() {
    let ctx = zmq::Context::new();
    let mut unit = RelayUnit::start(
        "loop",
        Pair {
            name: None,
            frontend: "inproc://loop-front".to_string(),
            backend: "inproc://loop-back".to_string(),
            xsub_rcvhwm: 100,
            xpub_sndhwm: 100,
        },
    );
    let (xsub, xpub) = drive_bind(&ctx, &mut unit).unwrap();
    let mut driver = Driver { unit, xsub, xpub };

    let publisher = ctx.socket(zmq::XPUB).unwrap();
    publisher.set_linger(0).unwrap();
    publisher.connect("inproc://loop-front").unwrap();
    let subscriber = ctx.socket(zmq::SUB).unwrap();
    subscriber.set_linger(0).unwrap();
    subscriber.connect("inproc://loop-back").unwrap();
    subscriber.set_subscribe(b"t").unwrap();

    // The subscription travels from the subscriber to the publisher.
    let mut subscription = None;
    for _ in 0..200 {
        driver.turn(20);
        if publisher.poll(zmq::POLLIN, 20).unwrap() > 0 {
            subscription = Some(publisher.recv_multipart(0).unwrap());
            break;
        }
    }
    assert_eq!(subscription, Some(vec![vec![1u8, b't']]));

    // Data travels from the publisher to the subscriber.
    let sent: Vec<Vec<Vec<u8>>> =
        (0..3u8).map(|i| vec![b"t".to_vec(), vec![i, 0, 255]]).collect();
    for frame in &sent {
        publisher.send_multipart(frame.clone(), 0).unwrap();
    }
    let mut received = Vec::new();
    for _ in 0..200 {
        driver.turn(20);
        while subscriber.poll(zmq::POLLIN, 0).unwrap() > 0 {
            received.push(subscriber.recv_multipart(0).unwrap());
        }
        if received.len() >= sent.len() {
            break;
        }
    }
    assert_eq!(received, sent);
    assert!(driver.unit.is_running());
    assert_eq!((driver.unit.inbound_len(), driver.unit.outbound_len()), (0, 0));

    assert_eq!(driver.unit.step(Event::Cancel), Action::Close);
    driver.xsub.set_linger(0).ok();
    driver.xpub.set_linger(0).ok();
}
