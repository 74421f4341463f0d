//! The whole path a notification takes: two live connections subscribe, an
//! event submitted at the gateway reaches both as the agreed text frame, one
//! connection closes, and the next event reaches only the survivor.

use router_core::gateway::submit_event;
use router_core::notification::{AgentAction, NotificationActor, WsMessage};
use router_core::repeater::{Delivery, RepeaterActor};

/// Performs the hub-bound control actions an agent step produced, as the
/// host program would.
fn run_controls(hub: &mut RepeaterActor, acts: Vec<AgentAction>) {
    for act in acts {
        if let AgentAction::Control(msg) = act {
            hub.handle_control(msg);
        }
    }
}

/// Delivers the planned copies to the matching agents and returns what each
/// agent wrote to its connection, as (handle, frame) pairs.
fn run_deliveries(agents: &mut [NotificationActor], out: Vec<Delivery>) -> Vec<(u64, String)> {
    let mut written = Vec::new();
    for delivery in &out {
        let agent = agents
            .iter_mut()
            .find(|a| a.handle == delivery.listener)
            .expect("a planned delivery addresses a live agent");
        for act in agent.handle_update(&delivery.update) {
            if let AgentAction::SendText(frame) = act {
                written.push((delivery.listener, frame.iter().collect::<String>()));
            }
        }
    }
    written
}

#[test]
fn both_subscribers_receive_then_only_the_survivor() {
    let mut hub = RepeaterActor::new();
    let mut agents = vec![NotificationActor::new(1, 0), NotificationActor::new(2, 0)];

    let acts = agents[0].started(0);
    run_controls(&mut hub, acts);
    let acts = agents[1].started(0);
    run_controls(&mut hub, acts);

    // First event: both A and B receive the agreed frame.
    let out = submit_event(&hub, "u1".to_string(), "hi".to_string());
    let mut written = run_deliveries(&mut agents, out);
    written.sort();
    assert_eq!(
        written,
        vec![
            (1, "{\"uid\":\"u1\",\"text\":\"hi\"}".to_string()),
            (2, "{\"uid\":\"u1\",\"text\":\"hi\"}".to_string()),
        ]
    );

    // A disconnects: its close frame makes it unsubscribe.
    let acts = agents[0].handle_message(WsMessage::Close, 1);
    run_controls(&mut hub, acts);

    // Second event: only B receives it.
    let out = submit_event(&hub, "u2".to_string(), "bye".to_string());
    let written = run_deliveries(&mut agents[1..], out);
    assert_eq!(written, vec![(2, "{\"uid\":\"u2\",\"text\":\"bye\"}".to_string())]);
}
