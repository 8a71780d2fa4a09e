//! Broadcast bus behavior: late subscription, shared order, drop-oldest
//! overflow, and idempotent release.

use chat_relay::bus::{Bus, BACKLOG_CAPACITY};
use chat_relay::message::Message;

fn system(text: &str) -> Message {
    Message::SystemMsg(String::from(text))
}

#[test]
fn subscriber_sees_only_future_events() {
    let mut bus = Bus::new();
    bus.publish(system("before"));
    let sub = bus.subscribe();
    assert!(bus.recv(sub).is_none());
    bus.publish(system("after"));
    let got = bus.recv(sub).expect("event published after subscribe");
    assert_eq!(got.to_string(), "[:: System ::] after");
    assert!(bus.recv(sub).is_none());
}

#[test]
fn all_subscribers_observe_the_same_order() {
    let mut bus = Bus::new();
    let a = bus.subscribe();
    let b = bus.subscribe();
    bus.publish(system("one"));
    bus.publish(system("two"));
    bus.publish(system("three"));
    let seen_a: Vec<String> = (0..3).map(|_| bus.recv(a).unwrap().to_string()).collect();
    let seen_b: Vec<String> = (0..3).map(|_| bus.recv(b).unwrap().to_string()).collect();
    assert_eq!(seen_a, seen_b);
    assert_eq!(
        seen_a,
        vec![
            String::from("[:: System ::] one"),
            String::from("[:: System ::] two"),
            String::from("[:: System ::] three"),
        ]
    );
}

#[test]
fn overflow_drops_oldest_for_the_lagging_subscriber_only() {
    let mut bus = Bus::new();
    let lagging = bus.subscribe();
    let draining = bus.subscribe();
    let extra = 50;
    for i in 0..(BACKLOG_CAPACITY + extra) {
        bus.publish(system(&format!("event {}", i)));
        // The draining subscriber keeps up and is unaffected.
        let got = bus.recv(draining).expect("drained every publish");
        assert_eq!(got.to_string(), format!("[:: System ::] event {}", i));
    }
    // The lagging subscriber lost the oldest `extra` events and nothing else.
    for i in extra..(BACKLOG_CAPACITY + extra) {
        let got = bus.recv(lagging).expect("backlog holds the newest events");
        assert_eq!(got.to_string(), format!("[:: System ::] event {}", i));
    }
    assert!(bus.recv(lagging).is_none());
}

#[test]
fn unsubscribe_is_idempotent_and_stops_delivery() {
    let mut bus = Bus::new();
    let sub = bus.subscribe();
    bus.publish(system("kept"));
    bus.unsubscribe(sub);
    assert!(bus.recv(sub).is_none());
    bus.unsubscribe(sub);
    bus.publish(system("ignored"));
    assert!(bus.recv(sub).is_none());
}
