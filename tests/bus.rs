use market_fanout::Bus;

fn s(x: &str) -> String {
    x.to_string()
}

#[test]
fn new_bus_has_no_subscribers() {
    let bus = Bus::new(100);
    assert_eq!(bus.subscriber_count(), 0);
    assert_eq!(bus.capacity(), 100);
}

#[test]
fn subscribe_gives_distinct_ids() {
    let mut bus = Bus::new(4);
    let a = bus.subscribe();
    let b = bus.subscribe();
    assert_ne!(a, b);
    assert_eq!(bus.subscriber_count(), 2);
    assert_eq!(bus.pending(a), Some(0));
    assert_eq!(bus.pending(b), Some(0));
}

#[test]
fn publish_reaches_every_subscriber_once_in_order() {
    let mut bus = Bus::new(10);
    let ids: Vec<u64> = (0..5).map(|_| bus.subscribe()).collect();
    assert_eq!(bus.publish(&s("one")), 5);
    assert_eq!(bus.publish(&s("two")), 5);
    for id in ids {
        assert_eq!(bus.pending(id), Some(2));
        assert_eq!(bus.try_recv(id), Some(s("one")));
        assert_eq!(bus.try_recv(id), Some(s("two")));
        assert_eq!(bus.try_recv(id), None);
    }
}

#[test]
fn publish_without_subscribers_reaches_nobody() {
    let mut bus = Bus::new(3);
    assert_eq!(bus.publish(&s("lost")), 0);
    assert_eq!(bus.subscriber_count(), 0);
    let id = bus.subscribe();
    assert_eq!(bus.try_recv(id), None);
}

#[test]
fn late_subscriber_sees_no_earlier_messages() {
    let mut bus = Bus::new(3);
    let a = bus.subscribe();
    bus.publish(&s("early"));
    let b = bus.subscribe();
    bus.publish(&s("late"));
    assert_eq!(bus.try_recv(b), Some(s("late")));
    assert_eq!(bus.try_recv(b), None);
    assert_eq!(bus.try_recv(a), Some(s("early")));
    assert_eq!(bus.try_recv(a), Some(s("late")));
}

#[test]
fn overflow_keeps_most_recent_messages() {
    let mut bus = Bus::new(3);
    let id = bus.subscribe();
    for m in ["m0", "m1", "m2", "m3", "m4"] {
        bus.publish(&s(m));
    }
    assert_eq!(bus.pending(id), Some(3));
    assert_eq!(bus.try_recv(id), Some(s("m2")));
    assert_eq!(bus.try_recv(id), Some(s("m3")));
    assert_eq!(bus.try_recv(id), Some(s("m4")));
    assert_eq!(bus.try_recv(id), None);
}

#[test]
fn publish_all_overflows_like_single_publishes() {
    let mut bus = Bus::new(2);
    let a = bus.subscribe();
    let b = bus.subscribe();
    bus.publish(&s("old"));
    let batch = vec![s("x"), s("y"), s("z")];
    assert_eq!(bus.publish_all(&batch), 2);
    for id in [a, b] {
        assert_eq!(bus.try_recv(id), Some(s("y")));
        assert_eq!(bus.try_recv(id), Some(s("z")));
        assert_eq!(bus.try_recv(id), None);
    }
}

#[test]
fn capacity_one_keeps_only_latest() {
    let mut bus = Bus::new(1);
    let id = bus.subscribe();
    bus.publish(&s("a"));
    bus.publish(&s("b"));
    assert_eq!(bus.try_recv(id), Some(s("b")));
    assert_eq!(bus.try_recv(id), None);
}

#[test]
fn unsubscribe_stops_delivery() {
    let mut bus = Bus::new(5);
    let a = bus.subscribe();
    let b = bus.subscribe();
    bus.publish(&s("before"));
    assert!(bus.unsubscribe(a));
    assert_eq!(bus.subscriber_count(), 1);
    assert_eq!(bus.publish(&s("after")), 1);
    assert_eq!(bus.try_recv(a), None);
    assert_eq!(bus.pending(a), None);
    assert_eq!(bus.try_recv(b), Some(s("before")));
    assert_eq!(bus.try_recv(b), Some(s("after")));
}

#[test]
fn unsubscribe_unknown_handle_changes_nothing() {
    let mut bus = Bus::new(5);
    let a = bus.subscribe();
    assert!(!bus.unsubscribe(a + 7));
    assert!(bus.unsubscribe(a));
    assert!(!bus.unsubscribe(a));
    assert_eq!(bus.subscriber_count(), 0);
}

#[test]
fn try_recv_on_unknown_handle_is_none() {
    let mut bus = Bus::new(5);
    bus.publish(&s("x"));
    assert_eq!(bus.try_recv(42), None);
}
