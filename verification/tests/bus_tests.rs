use fanout_bus::bus::{Bus, RecvOutcome};
use fanout_bus::event::Event;

fn slot(n: u64) -> Event {
    Event::new(n, None, 0)
}

#[test]
fn new_bus_is_empty_and_open() {
    let bus = Bus::new(100);
    assert_eq!(bus.capacity(), 100);
    assert_eq!(bus.subscriber_count(), 0);
    assert!(!bus.has_subscribers());
    assert!(!bus.is_closed());
    assert!(bus.can_subscribe());
}

#[test]
fn publish_with_zero_subscribers_is_silent_noop() {
    let mut bus = Bus::new(100);
    bus.publish(slot(7));
    bus.publish(slot(8));
    assert_eq!(bus.subscriber_count(), 0);
    let x = bus.subscribe();
    assert_eq!(bus.recv(x), RecvOutcome::Empty);
}

#[test]
fn subscriber_receives_published_events_in_order() {
    let mut bus = Bus::new(100);
    let x = bus.subscribe();
    bus.publish(slot(1));
    bus.publish(slot(2));
    bus.publish(slot(3));
    assert_eq!(bus.recv(x), RecvOutcome::Item(slot(1)));
    assert_eq!(bus.recv(x), RecvOutcome::Item(slot(2)));
    assert_eq!(bus.recv(x), RecvOutcome::Item(slot(3)));
    assert_eq!(bus.recv(x), RecvOutcome::Empty);
}

#[test]
fn fanout_delivers_same_events_in_same_order_to_all() {
    let mut bus = Bus::new(100);
    let a = bus.subscribe();
    let b = bus.subscribe();
    let c = bus.subscribe();
    for n in 1..=5u64 {
        bus.publish(slot(n));
    }
    for id in [a, b, c] {
        for n in 1..=5u64 {
            assert_eq!(bus.recv(id), RecvOutcome::Item(slot(n)));
        }
        assert_eq!(bus.recv(id), RecvOutcome::Empty);
    }
}

#[test]
fn late_subscriber_never_sees_history() {
    let mut bus = Bus::new(100);
    let x = bus.subscribe();
    bus.publish(slot(1));
    let y = bus.subscribe();
    bus.publish(slot(2));
    assert_eq!(bus.recv(x), RecvOutcome::Item(slot(1)));
    assert_eq!(bus.recv(x), RecvOutcome::Item(slot(2)));
    assert_eq!(bus.recv(y), RecvOutcome::Item(slot(2)));
    assert_eq!(bus.recv(y), RecvOutcome::Empty);
}

#[test]
fn overflow_drops_oldest_flags_lag_and_reports_gap_once() {
    let mut bus = Bus::new(2);
    let x = bus.subscribe();
    bus.publish(slot(1));
    bus.publish(slot(2));
    bus.publish(slot(3)); // overflows: slot 1 is dropped
    assert_eq!(bus.recv(x), RecvOutcome::Lagged);
    assert_eq!(bus.recv(x), RecvOutcome::Item(slot(2)));
    assert_eq!(bus.recv(x), RecvOutcome::Item(slot(3)));
    assert_eq!(bus.recv(x), RecvOutcome::Empty);
}

#[test]
fn one_lagging_subscriber_never_affects_another() {
    let mut bus = Bus::new(2);
    let slow = bus.subscribe();
    let fast = bus.subscribe();
    bus.publish(slot(1));
    assert_eq!(bus.recv(fast), RecvOutcome::Item(slot(1)));
    bus.publish(slot(2));
    assert_eq!(bus.recv(fast), RecvOutcome::Item(slot(2)));
    bus.publish(slot(3)); // slow overflows here; fast is untouched
    assert_eq!(bus.recv(fast), RecvOutcome::Item(slot(3)));
    assert_eq!(bus.recv(slow), RecvOutcome::Lagged);
    assert_eq!(bus.recv(slow), RecvOutcome::Item(slot(2)));
    assert_eq!(bus.recv(slow), RecvOutcome::Item(slot(3)));
}

#[test]
fn deregistered_subscriber_gets_nothing_while_others_still_deliver() {
    let mut bus = Bus::new(100);
    let a = bus.subscribe();
    let b = bus.subscribe();
    assert!(bus.is_subscribed(a));
    bus.unsubscribe(a);
    assert!(!bus.is_subscribed(a));
    assert!(bus.is_subscribed(b));
    bus.publish(slot(9));
    assert_eq!(bus.recv(b), RecvOutcome::Item(slot(9)));
    assert_eq!(bus.subscriber_count(), 1);
}

#[test]
fn unsubscribing_twice_is_harmless() {
    let mut bus = Bus::new(100);
    let a = bus.subscribe();
    let b = bus.subscribe();
    bus.unsubscribe(a);
    bus.unsubscribe(a);
    assert_eq!(bus.subscriber_count(), 1);
    assert!(bus.is_subscribed(b));
}

#[test]
fn closed_bus_drains_backlog_then_reports_closed() {
    let mut bus = Bus::new(100);
    let x = bus.subscribe();
    bus.publish(slot(1));
    bus.close();
    assert!(bus.is_closed());
    assert_eq!(bus.recv(x), RecvOutcome::Item(slot(1)));
    assert_eq!(bus.recv(x), RecvOutcome::Closed);
    assert_eq!(bus.recv(x), RecvOutcome::Closed);
}

#[test]
fn subscriber_identities_are_fresh() {
    let mut bus = Bus::new(100);
    let a = bus.subscribe();
    let b = bus.subscribe();
    assert_ne!(a, b);
    bus.unsubscribe(a);
    let c = bus.subscribe();
    assert_ne!(a, c);
    assert_ne!(b, c);
}

#[test]
fn event_carries_its_parts() {
    let e = Event::new(5, Some(4), 2);
    assert_eq!(e.slot, 5);
    assert_eq!(e.parent, Some(4));
    assert_eq!(e.status, 2);
}

#[test]
fn full_scenario_two_clients_and_a_disconnect() {
    // Start the bus; client X subscribes; slot 1 is published and X
    // receives it. Client Y subscribes; slot 2 is published: X has now
    // seen slots 1 and 2, Y only slot 2. X disconnects (its session
    // deregisters); slot 3 is published: Y receives it and nobody
    // observes an error.
    let mut bus = Bus::new(100);
    let x = bus.subscribe();
    bus.publish(slot(1));
    assert_eq!(bus.recv(x), RecvOutcome::Item(slot(1)));
    let y = bus.subscribe();
    bus.publish(slot(2));
    assert_eq!(bus.recv(x), RecvOutcome::Item(slot(2)));
    assert_eq!(bus.recv(y), RecvOutcome::Item(slot(2)));
    assert_eq!(bus.recv(y), RecvOutcome::Empty);
    bus.unsubscribe(x);
    bus.publish(slot(3));
    assert_eq!(bus.recv(y), RecvOutcome::Item(slot(3)));
    assert!(!bus.is_subscribed(x));
    assert!(bus.is_subscribed(y));
}
