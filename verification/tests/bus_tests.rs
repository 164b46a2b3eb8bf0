use statekeeper::bus::{BroadcastEvent, Bus, RecvOutcome};

#[test]
fn late_subscriber_misses_past_events_only() {
    let mut bus = Bus::new(8);
    bus.publish(BroadcastEvent::new_code("OLD"));
    bus.publish(BroadcastEvent::exit());
    let mut sub = bus.subscribe();
    match bus.recv(&mut sub) {
        RecvOutcome::Empty => {},
        other => panic!("a fresh subscriber saw a past event: {:?}", other),
    }
    bus.publish(BroadcastEvent::new_code("NEW1"));
    bus.publish(BroadcastEvent::new_code("NEW2"));
    match bus.recv(&mut sub) {
        RecvOutcome::Event(BroadcastEvent::NewCode(code)) => assert_eq!(code, "NEW1"),
        other => panic!("unexpected outcome {:?}", other),
    }
    match bus.recv(&mut sub) {
        RecvOutcome::Event(BroadcastEvent::NewCode(code)) => assert_eq!(code, "NEW2"),
        other => panic!("unexpected outcome {:?}", other),
    }
    match bus.recv(&mut sub) {
        RecvOutcome::Empty => {},
        other => panic!("unexpected outcome {:?}", other),
    }
}

#[test]
fn lagging_subscriber_gets_explicit_signal() {
    let mut bus = Bus::new(2);
    let mut sub = bus.subscribe();
    bus.publish(BroadcastEvent::new_code("a"));
    bus.publish(BroadcastEvent::new_code("b"));
    bus.publish(BroadcastEvent::new_code("c"));
    bus.publish(BroadcastEvent::new_code("d"));
    // Four published, a window of two retained: two were missed.
    match bus.recv(&mut sub) {
        RecvOutcome::Lagged(n) => assert_eq!(n, 2),
        other => panic!("unexpected outcome {:?}", other),
    }
    match bus.recv(&mut sub) {
        RecvOutcome::Event(BroadcastEvent::NewCode(code)) => assert_eq!(code, "c"),
        other => panic!("unexpected outcome {:?}", other),
    }
    match bus.recv(&mut sub) {
        RecvOutcome::Event(BroadcastEvent::NewCode(code)) => assert_eq!(code, "d"),
        other => panic!("unexpected outcome {:?}", other),
    }
}

#[test]
fn publish_with_no_subscriber_is_harmless() {
    let mut bus = Bus::new(4);
    bus.publish(BroadcastEvent::new_code("dropped"));
    // A later subscriber starts past it.
    let mut sub = bus.subscribe();
    match bus.recv(&mut sub) {
        RecvOutcome::Empty => {},
        other => panic!("unexpected outcome {:?}", other),
    }
}
