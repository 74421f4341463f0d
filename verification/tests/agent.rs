use router_core::gateway::NewComment;
use router_core::notification::{
    AgentAction, Lifecycle, NotificationActor, WsMessage, PING_TIMEOUT,
};
use router_core::repeater::{RepeaterControl, RepeaterUpdate};

fn unsubscribe_count(acts: &[AgentAction]) -> usize {
    acts.iter()
        .filter(|a| matches!(a, AgentAction::Control(RepeaterControl::Unsubscribe(_))))
        .count()
}

#[test]
fn agent_subscribes_itself_on_start() {
    let mut agent = NotificationActor::new(7, 0);
    assert_eq!(agent.lifecycle, Lifecycle::Starting);
    let acts = agent.started(0);
    assert_eq!(agent.lifecycle, Lifecycle::Active);
    assert_eq!(acts.len(), 1);
    assert!(matches!(acts[0], AgentAction::Control(RepeaterControl::Subscribe(7))));
}

#[test]
fn heartbeat_within_the_window_pings() {
    let mut agent = NotificationActor::new(7, 0);
    agent.started(0);
    let acts = agent.heartbeat(20);
    assert_eq!(acts.len(), 1);
    assert!(matches!(acts[0], AgentAction::SendPing));
    assert!(agent.is_active());
}

#[test]
fn heartbeat_exactly_at_the_timeout_still_pings() {
    let mut agent = NotificationActor::new(7, 0);
    agent.started(0);
    let acts = agent.heartbeat(PING_TIMEOUT);
    assert!(matches!(acts[0], AgentAction::SendPing));
    assert!(agent.is_active());
}

#[test]
fn silence_past_the_timeout_stops_and_unsubscribes_once() {
    let mut agent = NotificationActor::new(7, 0);
    agent.started(0);
    let acts = agent.heartbeat(PING_TIMEOUT + 1);
    assert_eq!(agent.lifecycle, Lifecycle::Stopped);
    assert_eq!(unsubscribe_count(&acts), 1);
    assert!(matches!(acts[0], AgentAction::Control(RepeaterControl::Unsubscribe(7))));
    assert!(matches!(acts[1], AgentAction::ReleaseConnection));
}

#[test]
fn a_pong_within_the_window_keeps_the_agent_active() {
    let mut agent = NotificationActor::new(7, 0);
    agent.started(0);
    let acts = agent.handle_message(WsMessage::Pong(String::new()), 30);
    assert!(acts.is_empty());
    // 60 seconds after the pong, not after the start: still inside the window.
    let acts = agent.heartbeat(30 + PING_TIMEOUT);
    assert!(matches!(acts[0], AgentAction::SendPing));
    assert!(agent.is_active());
}

#[test]
fn regular_pongs_keep_the_agent_active_across_many_windows() {
    let mut agent = NotificationActor::new(7, 0);
    agent.started(0);
    let mut now = 0;
    for _ in 0..10 {
        now += 20;
        let acts = agent.heartbeat(now);
        assert!(matches!(acts[0], AgentAction::SendPing));
        now += 1;
        agent.handle_message(WsMessage::Pong(String::new()), now);
    }
    assert!(agent.is_active());
}

#[test]
fn a_ping_is_answered_with_a_matching_pong() {
    let mut agent = NotificationActor::new(7, 0);
    agent.started(0);
    let acts = agent.handle_message(WsMessage::Ping("probe".to_string()), 5);
    assert_eq!(acts.len(), 1);
    match &acts[0] {
        AgentAction::SendPong(payload) => assert_eq!(payload, "probe"),
        other => panic!("expected a pong, got {:?}", other),
    }
    assert!(agent.is_active());
}

#[test]
fn text_and_binary_frames_are_ignored() {
    let mut agent = NotificationActor::new(7, 0);
    agent.started(0);
    let acts = agent.handle_message(WsMessage::Text("chatter".to_string()), 5);
    assert!(acts.is_empty());
    let acts = agent.handle_message(WsMessage::Binary(vec![1, 2, 3]), 6);
    assert!(acts.is_empty());
    assert!(agent.is_active());
}

#[test]
fn a_close_frame_stops_and_unsubscribes_once() {
    let mut agent = NotificationActor::new(7, 0);
    agent.started(0);
    let acts = agent.handle_message(WsMessage::Close, 10);
    assert_eq!(agent.lifecycle, Lifecycle::Stopped);
    assert_eq!(unsubscribe_count(&acts), 1);
    assert!(matches!(acts[1], AgentAction::ReleaseConnection));
}

#[test]
fn shutdown_stops_and_unsubscribes_once() {
    let mut agent = NotificationActor::new(3, 0);
    agent.started(0);
    let acts = agent.shutdown();
    assert_eq!(agent.lifecycle, Lifecycle::Stopped);
    assert_eq!(unsubscribe_count(&acts), 1);
}

#[test]
fn an_update_becomes_one_text_frame() {
    let mut agent = NotificationActor::new(7, 0);
    agent.started(0);
    let msg = RepeaterUpdate(NewComment { uid: "u1".to_string(), text: "hi".to_string() });
    let acts = agent.handle_update(&msg);
    assert_eq!(acts.len(), 1);
    match &acts[0] {
        AgentAction::SendText(frame) => {
            let text: String = frame.iter().collect();
            assert_eq!(text, "{\"uid\":\"u1\",\"text\":\"hi\"}");
        }
        other => panic!("expected a text frame, got {:?}", other),
    }
    assert!(agent.is_active());
}
