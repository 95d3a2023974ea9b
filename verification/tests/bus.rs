use soc_analyzer::telemetry::{
    EventKind, Received, TelemetryBus, TelemetryEvent, DEFAULT_CAPACITY,
};

fn event(n: u64) -> TelemetryEvent {
    TelemetryEvent {
        kind: EventKind::RealtimeMonitor,
        device_id: Some("dev".to_string()),
        timestamp: n,
        payload: format!("{{\"n\":{}}}", n),
    }
}

#[test]
fn slow_subscriber_keeps_the_newest_events() {
    let mut bus = TelemetryBus::new(3);
    let sub = bus.subscribe().unwrap();
    for n in 1..=5 {
        bus.publish(event(n));
    }
    assert_eq!(bus.try_recv(&sub), Received::Lagged(2));
    assert_eq!(bus.try_recv(&sub), Received::Item(event(3)));
    assert_eq!(bus.try_recv(&sub), Received::Item(event(4)));
    assert_eq!(bus.try_recv(&sub), Received::Item(event(5)));
    assert_eq!(bus.try_recv(&sub), Received::Empty);
    assert_eq!(bus.try_recv(&sub), Received::Empty);
}

#[test]
fn slow_subscriber_with_many_events() {
    let capacity = 7;
    let total = 100;
    let mut bus = TelemetryBus::new(capacity);
    let sub = bus.subscribe().unwrap();
    for n in 0..total {
        bus.publish(event(n));
    }
    assert_eq!(bus.try_recv(&sub), Received::Lagged(total - capacity as u64));
    for n in (total - capacity as u64)..total {
        assert_eq!(bus.try_recv(&sub), Received::Item(event(n)));
    }
    assert_eq!(bus.try_recv(&sub), Received::Empty);
}

#[test]
fn fast_subscriber_sees_every_event_in_order() {
    let mut bus = TelemetryBus::new(1);
    let sub = bus.subscribe().unwrap();
    for n in 0..50 {
        bus.publish(event(n));
        assert_eq!(bus.try_recv(&sub), Received::Item(event(n)));
        assert_eq!(bus.try_recv(&sub), Received::Empty);
    }
}

#[test]
fn queue_at_capacity_is_not_lagged() {
    let mut bus = TelemetryBus::new(3);
    let sub = bus.subscribe().unwrap();
    for n in 1..=3 {
        bus.publish(event(n));
    }
    assert_eq!(bus.try_recv(&sub), Received::Item(event(1)));
    assert_eq!(bus.try_recv(&sub), Received::Item(event(2)));
    assert_eq!(bus.try_recv(&sub), Received::Item(event(3)));
    assert_eq!(bus.try_recv(&sub), Received::Empty);
}

#[test]
fn lag_is_reported_once_and_counts_anew() {
    let mut bus = TelemetryBus::new(2);
    let sub = bus.subscribe().unwrap();
    for n in 1..=3 {
        bus.publish(event(n));
    }
    assert_eq!(bus.try_recv(&sub), Received::Lagged(1));
    assert_eq!(bus.try_recv(&sub), Received::Item(event(2)));
    bus.publish(event(4));
    bus.publish(event(5));
    assert_eq!(bus.try_recv(&sub), Received::Lagged(1));
    assert_eq!(bus.try_recv(&sub), Received::Item(event(4)));
    assert_eq!(bus.try_recv(&sub), Received::Item(event(5)));
    assert_eq!(bus.try_recv(&sub), Received::Empty);
}

#[test]
fn subscriber_sees_nothing_from_before_it_joined() {
    let mut bus = TelemetryBus::new(10);
    bus.publish(event(1));
    let first = bus.subscribe().unwrap();
    bus.publish(event(2));
    let second = bus.subscribe().unwrap();
    bus.publish(event(3));
    assert_eq!(bus.try_recv(&first), Received::Item(event(2)));
    assert_eq!(bus.try_recv(&first), Received::Item(event(3)));
    assert_eq!(bus.try_recv(&first), Received::Empty);
    assert_eq!(bus.try_recv(&second), Received::Item(event(3)));
    assert_eq!(bus.try_recv(&second), Received::Empty);
}

#[test]
fn subscribers_do_not_share_a_queue() {
    let mut bus = TelemetryBus::new(2);
    let slow = bus.subscribe().unwrap();
    let fast = bus.subscribe().unwrap();
    assert_ne!(slow.id(), fast.id());
    for n in 1..=4 {
        bus.publish(event(n));
        assert_eq!(bus.try_recv(&fast), Received::Item(event(n)));
    }
    assert_eq!(bus.try_recv(&fast), Received::Empty);
    assert_eq!(bus.try_recv(&slow), Received::Lagged(2));
    assert_eq!(bus.try_recv(&slow), Received::Item(event(3)));
    assert_eq!(bus.try_recv(&slow), Received::Item(event(4)));
}

#[test]
fn unsubscribe_takes_the_queue_away() {
    let mut bus = TelemetryBus::new(4);
    assert_eq!(bus.subscriber_count(), 0);
    let a = bus.subscribe().unwrap();
    let b = bus.subscribe().unwrap();
    assert_eq!(bus.subscriber_count(), 2);
    assert!(bus.is_subscribed(&a));
    bus.publish(event(1));
    let a_id = a.id();
    assert!(bus.unsubscribe(a));
    assert_eq!(bus.subscriber_count(), 1);
    assert_eq!(bus.try_recv(&b), Received::Item(event(1)));
    let c = bus.subscribe().unwrap();
    assert_ne!(c.id(), a_id);
    assert_ne!(c.id(), b.id());
    assert!(bus.unsubscribe(b));
    assert!(bus.unsubscribe(c));
    assert_eq!(bus.subscriber_count(), 0);
    bus.publish(event(2));
    assert_eq!(bus.subscriber_count(), 0);
}

#[test]
fn handle_of_another_bus_is_closed() {
    let mut bus = TelemetryBus::new(4);
    let mut other = TelemetryBus::new(4);
    let _zero = other.subscribe().unwrap();
    let stranger = other.subscribe().unwrap();
    let own = bus.subscribe().unwrap();
    bus.publish(event(1));
    assert!(!bus.is_subscribed(&stranger));
    assert_eq!(bus.try_recv(&stranger), Received::Closed);
    assert!(!bus.unsubscribe(stranger));
    assert_eq!(bus.try_recv(&own), Received::Item(event(1)));
}

#[test]
fn capacity_zero_drops_everything() {
    let mut bus = TelemetryBus::new(0);
    let sub = bus.subscribe().unwrap();
    assert_eq!(bus.try_recv(&sub), Received::Empty);
    bus.publish(event(1));
    bus.publish(event(2));
    assert_eq!(bus.try_recv(&sub), Received::Lagged(2));
    assert_eq!(bus.try_recv(&sub), Received::Empty);
}

#[test]
fn default_capacity_is_one_hundred() {
    assert_eq!(DEFAULT_CAPACITY, 100);
    let mut bus = TelemetryBus::default();
    assert_eq!(bus.capacity(), 100);
    let sub = bus.subscribe().unwrap();
    for n in 0..101 {
        bus.publish(event(n));
    }
    assert_eq!(bus.try_recv(&sub), Received::Lagged(1));
    assert_eq!(bus.try_recv(&sub), Received::Item(event(1)));
}

#[test]
fn publish_without_subscribers_is_harmless() {
    let mut bus = TelemetryBus::new(2);
    bus.publish(event(1));
    let sub = bus.subscribe().unwrap();
    assert_eq!(sub.id(), 0);
    assert_eq!(bus.try_recv(&sub), Received::Empty);
}

#[test]
fn event_copies_are_equal() {
    let e = TelemetryEvent {
        kind: EventKind::SocInfo,
        device_id: None,
        timestamp: 3,
        payload: "{}".to_string(),
    };
    assert_eq!(e.clone(), e);
    let mut bus = TelemetryBus::new(2);
    let a = bus.subscribe().unwrap();
    let b = bus.subscribe().unwrap();
    bus.publish(e.clone());
    assert_eq!(bus.try_recv(&a), Received::Item(e.clone()));
    assert_eq!(bus.try_recv(&b), Received::Item(e));
}
