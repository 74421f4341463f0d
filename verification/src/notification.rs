//! The per-connection agent. One instance lives for the duration of one
//! duplex connection: it registers with the hub, answers pings, drives a
//! recurring heartbeat, forwards hub updates as text frames, and unsubscribes
//! exactly once when it stops.
//!
//! The agent is a state machine over explicit timestamps (seconds on the
//! host's monotonic clock). The host owns the socket and the timer: it feeds
//! every frame and every timer tick to the agent and performs the actions the
//! agent hands back.

use vstd::prelude::*;
use crate::codec::encode_event;
use crate::codec::json_event;
use crate::repeater::RepeaterControl;
use crate::repeater::RepeaterUpdate;

verus! {

/// Seconds between two heartbeat pings.
pub const PING_INTERVAL: u64 = 20;

/// Seconds of silence on the connection after which it is considered dead.
/// Idle connections are closed by intermediaries, and browser peers answer
/// pings but never originate them, so the agent itself probes liveness.
pub const PING_TIMEOUT: u64 = 60;

#[derive(Clone, Copy, PartialEq, Eq, Structural, Debug)]
pub enum Lifecycle {
    Starting,
    Active,
    Stopped,
}

/// An inbound frame on the duplex connection.
#[derive(Debug)]
pub enum WsMessage {
    Ping(String),
    Pong(String),
    Text(String),
    Binary(Vec<u8>),
    Close,
}

/// What the host must do after a step, in order.
#[derive(Debug)]
pub enum AgentAction {
    /// Send this control message to the hub.
    Control(RepeaterControl),
    /// Send a ping frame on the connection.
    SendPing,
    /// Answer a ping with a pong carrying the same payload.
    SendPong(String),
    /// Write this text frame to the connection.
    SendText(Vec<char>),
    /// Close the connection and release its resources.
    ReleaseConnection,
}

/// One stimulus an agent can receive, for reasoning about whole runs.
pub enum AgentEvent {
    Started(u64),
    Heartbeat(u64),
    Inbound(WsMessage, u64),
    Update(RepeaterUpdate),
    Shutdown,
}

pub struct NotificationActor {
    /// This agent's subscriber handle at the hub.
    pub handle: u64,
    /// When the connection last showed life (a ping or pong arrived).
    pub last_ping: u64,
    pub lifecycle: Lifecycle,
}

/// The agent state after one stimulus.
pub open spec fn step_state(pre: NotificationActor, ev: AgentEvent) -> NotificationActor {
    match ev {
        AgentEvent::Started(now) => NotificationActor {
            handle: pre.handle,
            last_ping: now,
            lifecycle: Lifecycle::Active,
        },
        AgentEvent::Heartbeat(now) => if now - pre.last_ping > PING_TIMEOUT {
            NotificationActor { handle: pre.handle, last_ping: pre.last_ping, lifecycle: Lifecycle::Stopped }
        } else {
            pre
        },
        AgentEvent::Inbound(m, now) => match m {
            WsMessage::Ping(_) => NotificationActor {
                handle: pre.handle,
                last_ping: now,
                lifecycle: pre.lifecycle,
            },
            WsMessage::Pong(_) => NotificationActor {
                handle: pre.handle,
                last_ping: now,
                lifecycle: pre.lifecycle,
            },
            WsMessage::Text(_) => pre,
            WsMessage::Binary(_) => pre,
            WsMessage::Close => NotificationActor {
                handle: pre.handle,
                last_ping: pre.last_ping,
                lifecycle: Lifecycle::Stopped,
            },
        },
        AgentEvent::Update(_) => pre,
        AgentEvent::Shutdown => NotificationActor {
            handle: pre.handle,
            last_ping: pre.last_ping,
            lifecycle: Lifecycle::Stopped,
        },
    }
}

/// How many unsubscribe messages one stimulus makes the agent send: one on
/// the step that enters `Stopped`, none otherwise.
pub open spec fn step_unsubs(pre: NotificationActor, ev: AgentEvent) -> nat {
    if pre.lifecycle == Lifecycle::Active && step_state(pre, ev).lifecycle == Lifecycle::Stopped {
        1
    } else {
        0
    }
}

/// When the host may feed a stimulus: the start signal once, while starting;
/// everything else only while the agent is active, with a clock that never
/// runs backwards.
pub open spec fn event_allowed(pre: NotificationActor, ev: AgentEvent) -> bool {
    match ev {
        AgentEvent::Started(_) => pre.lifecycle == Lifecycle::Starting,
        AgentEvent::Heartbeat(now) => pre.lifecycle == Lifecycle::Active && now >= pre.last_ping,
        AgentEvent::Inbound(_, now) => pre.lifecycle == Lifecycle::Active && now >= pre.last_ping,
        AgentEvent::Update(_) => pre.lifecycle == Lifecycle::Active,
        AgentEvent::Shutdown => pre.lifecycle == Lifecycle::Active,
    }
}

impl NotificationActor {
    pub fn new(handle: u64, now: u64) -> (r: Self)
        ensures
            r.handle == handle,
            r.last_ping == now,
            r.lifecycle == Lifecycle::Starting,
    {
        NotificationActor { handle, last_ping: now, lifecycle: Lifecycle::Starting }
    }

    pub fn is_active(&self) -> (r: bool)
        ensures
            r == (self.lifecycle == Lifecycle::Active),
    {
        matches!(self.lifecycle, Lifecycle::Active)
    }

    /// The agent comes up: it subscribes itself at the hub and becomes
    /// active. The host then starts the recurring heartbeat timer at
    /// `PING_INTERVAL`.
    pub fn started(&mut self, now: u64) -> (acts: Vec<AgentAction>)
        requires
            old(self).lifecycle == Lifecycle::Starting,
        ensures
            *final(self) == step_state(*old(self), AgentEvent::Started(now)),
            acts@ == seq![AgentAction::Control(RepeaterControl::Subscribe(old(self).handle))],
    {
        self.last_ping = now;
        self.lifecycle = Lifecycle::Active;
        let mut acts: Vec<AgentAction> = Vec::new();
        acts.push(AgentAction::Control(RepeaterControl::Subscribe(self.handle)));
        proof {
            assert(acts@ =~= seq![
                AgentAction::Control(RepeaterControl::Subscribe(old(self).handle)),
            ]);
        }
        acts
    }

    /// One heartbeat tick. If the connection has been silent for longer than
    /// `PING_TIMEOUT` the agent stops: it unsubscribes once and has the
    /// connection released. Otherwise it probes the peer with a ping.
    pub fn heartbeat(&mut self, now: u64) -> (acts: Vec<AgentAction>)
        requires
            old(self).lifecycle == Lifecycle::Active,
            now >= old(self).last_ping,
        ensures
            *final(self) == step_state(*old(self), AgentEvent::Heartbeat(now)),
            now - old(self).last_ping > PING_TIMEOUT ==> acts@ == seq![
                AgentAction::Control(RepeaterControl::Unsubscribe(old(self).handle)),
                AgentAction::ReleaseConnection,
            ],
            now - old(self).last_ping <= PING_TIMEOUT ==> acts@ == seq![AgentAction::SendPing],
    {
        let mut acts: Vec<AgentAction> = Vec::new();
        if now - self.last_ping > PING_TIMEOUT {
            self.lifecycle = Lifecycle::Stopped;
            acts.push(AgentAction::Control(RepeaterControl::Unsubscribe(self.handle)));
            acts.push(AgentAction::ReleaseConnection);
            proof {
                assert(acts@ =~= seq![
                    AgentAction::Control(RepeaterControl::Unsubscribe(old(self).handle)),
                    AgentAction::ReleaseConnection,
                ]);
            }
        } else {
            acts.push(AgentAction::SendPing);
            proof {
                assert(acts@ =~= seq![AgentAction::SendPing]);
            }
        }
        acts
    }

    /// One inbound frame. Pings are answered and count as life; pongs count
    /// as life; text and binary frames carry no client payload in this
    /// protocol and are ignored; a close frame stops the agent, which
    /// unsubscribes once and has the connection released.
    pub fn handle_message(&mut self, msg: WsMessage, now: u64) -> (acts: Vec<AgentAction>)
        requires
            old(self).lifecycle == Lifecycle::Active,
            now >= old(self).last_ping,
        ensures
            *final(self) == step_state(*old(self), AgentEvent::Inbound(msg, now)),
            match msg {
                WsMessage::Ping(payload) => acts@ == seq![AgentAction::SendPong(payload)],
                WsMessage::Pong(_) => acts@ == Seq::<AgentAction>::empty(),
                WsMessage::Text(_) => acts@ == Seq::<AgentAction>::empty(),
                WsMessage::Binary(_) => acts@ == Seq::<AgentAction>::empty(),
                WsMessage::Close => acts@ == seq![
                    AgentAction::Control(RepeaterControl::Unsubscribe(old(self).handle)),
                    AgentAction::ReleaseConnection,
                ],
            },
    {
        let mut acts: Vec<AgentAction> = Vec::new();
        match msg {
            WsMessage::Ping(payload) => {
                self.last_ping = now;
                let ghost p = payload;
                acts.push(AgentAction::SendPong(payload));
                proof {
                    assert(acts@ =~= seq![AgentAction::SendPong(p)]);
                }
            },
            WsMessage::Pong(_) => {
                self.last_ping = now;
            },
            WsMessage::Text(_) => {},
            WsMessage::Binary(_) => {},
            WsMessage::Close => {
                self.lifecycle = Lifecycle::Stopped;
                acts.push(AgentAction::Control(RepeaterControl::Unsubscribe(self.handle)));
                acts.push(AgentAction::ReleaseConnection);
                proof {
                    assert(acts@ =~= seq![
                        AgentAction::Control(RepeaterControl::Unsubscribe(old(self).handle)),
                        AgentAction::ReleaseConnection,
                    ]);
                }
            },
        }
        acts
    }

    /// A hub update reaches this agent: encode it and write the one text
    /// frame. Encoding is total, so the delivery is never dropped here.
    pub fn handle_update(&self, msg: &RepeaterUpdate) -> (acts: Vec<AgentAction>)
        requires
            self.lifecycle == Lifecycle::Active,
        ensures
            acts@.len() == 1,
            acts@[0] matches AgentAction::SendText(frame) && frame@ == json_event(
                msg.0.uid@,
                msg.0.text@,
            ),
    {
        let frame = encode_event(&msg.0);
        let mut acts: Vec<AgentAction> = Vec::new();
        acts.push(AgentAction::SendText(frame));
        acts
    }

    /// The host tears the agent down (an I/O error, process shutdown): the
    /// agent stops, unsubscribes once, and has the connection released.
    pub fn shutdown(&mut self) -> (acts: Vec<AgentAction>)
        requires
            old(self).lifecycle == Lifecycle::Active,
        ensures
            *final(self) == step_state(*old(self), AgentEvent::Shutdown),
            acts@ == seq![
                AgentAction::Control(RepeaterControl::Unsubscribe(old(self).handle)),
                AgentAction::ReleaseConnection,
            ],
    {
        self.lifecycle = Lifecycle::Stopped;
        let mut acts: Vec<AgentAction> = Vec::new();
        acts.push(AgentAction::Control(RepeaterControl::Unsubscribe(self.handle)));
        acts.push(AgentAction::ReleaseConnection);
        proof {
            assert(acts@ =~= seq![
                AgentAction::Control(RepeaterControl::Unsubscribe(old(self).handle)),
                AgentAction::ReleaseConnection,
            ]);
        }
        acts
    }
}

/// The agent state after a whole run of stimuli, applied in order.
pub open spec fn run_state(s0: NotificationActor, evs: Seq<AgentEvent>) -> NotificationActor
    decreases evs.len(),
{
    if evs.len() == 0 {
        s0
    } else {
        step_state(run_state(s0, evs.drop_last()), evs.last())
    }
}

/// How many unsubscribe messages a whole run makes the agent send.
pub open spec fn run_unsubs(s0: NotificationActor, evs: Seq<AgentEvent>) -> nat
    decreases evs.len(),
{
    if evs.len() == 0 {
        0
    } else {
        run_unsubs(s0, evs.drop_last()) + step_unsubs(run_state(s0, evs.drop_last()), evs.last())
    }
}

/// Every stimulus in the run was allowed in the state it met.
pub open spec fn valid_trace(s0: NotificationActor, evs: Seq<AgentEvent>) -> bool
    decreases evs.len(),
{
    if evs.len() == 0 {
        true
    } else {
        valid_trace(s0, evs.drop_last()) && event_allowed(run_state(s0, evs.drop_last()), evs.last())
    }
}

/// A stimulus that keeps the agent alive: anything except a close frame, a
/// host shutdown, or a heartbeat tick that finds the connection silent for
/// longer than the timeout.
pub open spec fn keepalive(pre: NotificationActor, ev: AgentEvent) -> bool {
    match ev {
        AgentEvent::Started(_) => true,
        AgentEvent::Heartbeat(now) => now - pre.last_ping <= PING_TIMEOUT,
        AgentEvent::Inbound(m, _) => !(m is Close),
        AgentEvent::Update(_) => true,
        AgentEvent::Shutdown => false,
    }
}

/// Every stimulus in the run was a keepalive in the state it met.
pub open spec fn keepalive_trace(s0: NotificationActor, evs: Seq<AgentEvent>) -> bool
    decreases evs.len(),
{
    if evs.len() == 0 {
        true
    } else {
        keepalive_trace(s0, evs.drop_last()) && keepalive(run_state(s0, evs.drop_last()), evs.last())
    }
}

/// Over any allowed run of a fresh agent, the agent sends exactly one
/// unsubscribe if it has stopped — whatever made it stop — and none while it
/// has not.
pub proof fn lemma_unsubscribe_exactly_once(s0: NotificationActor, evs: Seq<AgentEvent>)
    requires
        s0.lifecycle != Lifecycle::Stopped,
        valid_trace(s0, evs),
    ensures
        run_unsubs(s0, evs) == if run_state(s0, evs).lifecycle == Lifecycle::Stopped {
            1nat
        } else {
            0nat
        },
    decreases evs.len(),
{
    if evs.len() > 0 {
        let mid = run_state(s0, evs.drop_last());
        lemma_unsubscribe_exactly_once(s0, evs.drop_last());
        assert(mid.lifecycle != Lifecycle::Stopped);
    }
}

/// An agent that keeps seeing life — pings or pongs within every timeout
/// window, and no close or shutdown — stays active for the whole run,
/// however long it is.
pub proof fn lemma_keepalive_stays_active(s0: NotificationActor, evs: Seq<AgentEvent>)
    requires
        s0.lifecycle == Lifecycle::Active,
        valid_trace(s0, evs),
        keepalive_trace(s0, evs),
    ensures
        run_state(s0, evs).lifecycle == Lifecycle::Active,
    decreases evs.len(),
{
    if evs.len() > 0 {
        lemma_keepalive_stays_active(s0, evs.drop_last());
    }
}

} // verus!
