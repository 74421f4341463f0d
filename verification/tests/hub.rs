use router_core::gateway::NewComment;
use router_core::repeater::{Delivery, RepeaterActor, RepeaterControl, RepeaterUpdate};

fn update(uid: &str, text: &str) -> RepeaterUpdate {
    RepeaterUpdate(NewComment { uid: uid.to_string(), text: text.to_string() })
}

fn handles(out: &[Delivery]) -> Vec<u64> {
    out.iter().map(|d| d.listener).collect()
}

#[test]
fn subscribe_is_idempotent() {
    let mut hub = RepeaterActor::new();
    hub.handle_control(RepeaterControl::Subscribe(1));
    hub.handle_control(RepeaterControl::Subscribe(1));
    let out = hub.handle_update(&update("u", "t"));
    assert_eq!(handles(&out), vec![1]);
}

#[test]
fn unsubscribe_absent_is_noop() {
    let mut hub = RepeaterActor::new();
    hub.handle_control(RepeaterControl::Subscribe(1));
    hub.handle_control(RepeaterControl::Unsubscribe(7));
    let out = hub.handle_update(&update("u", "t"));
    assert_eq!(handles(&out), vec![1]);
}

#[test]
fn unsubscribe_is_idempotent() {
    let mut hub = RepeaterActor::new();
    hub.handle_control(RepeaterControl::Subscribe(1));
    hub.handle_control(RepeaterControl::Subscribe(2));
    hub.handle_control(RepeaterControl::Unsubscribe(1));
    hub.handle_control(RepeaterControl::Unsubscribe(1));
    let out = hub.handle_update(&update("u", "t"));
    assert_eq!(handles(&out), vec![2]);
}

#[test]
fn publish_to_empty_hub_delivers_nothing() {
    let hub = RepeaterActor::new();
    let out = hub.handle_update(&update("u", "t"));
    assert!(out.is_empty());
}

#[test]
fn publish_reaches_exactly_the_current_subscribers() {
    let mut hub = RepeaterActor::new();
    hub.handle_control(RepeaterControl::Subscribe(1));
    hub.handle_control(RepeaterControl::Subscribe(2));
    hub.handle_control(RepeaterControl::Subscribe(3));
    hub.handle_control(RepeaterControl::Unsubscribe(2));
    let out = hub.handle_update(&update("alice", "hello"));
    let mut got = handles(&out);
    got.sort();
    assert_eq!(got, vec![1, 3]);
    for d in &out {
        assert_eq!(d.update.0.uid, "alice");
        assert_eq!(d.update.0.text, "hello");
    }
}

#[test]
fn each_subscriber_gets_exactly_one_copy() {
    let mut hub = RepeaterActor::new();
    for h in [5u64, 9, 12] {
        hub.handle_control(RepeaterControl::Subscribe(h));
    }
    let out = hub.handle_update(&update("u", "t"));
    for h in [5u64, 9, 12] {
        let copies = out.iter().filter(|d| d.listener == h).count();
        assert_eq!(copies, 1);
    }
    assert_eq!(out.len(), 3);
}
