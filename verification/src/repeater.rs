//! The broadcast hub. It owns the set of live subscribers and fans every
//! update out to all of them. Handles are stable numeric connection
//! identifiers; the host keeps the matching send-channels and performs the
//! actual (best-effort, fire-and-forget) deliveries that `handle_update`
//! plans.
//!
//! The hub processes one message at a time, in the order submitted, so its
//! state is exactly the fold of `apply_control` over the message sequence.

use vstd::prelude::*;
use crate::gateway::NewComment;

verus! {

/// One update to fan out, wrapping the notification it carries.
pub struct RepeaterUpdate(pub NewComment);

impl Clone for RepeaterUpdate {
    fn clone(&self) -> (r: Self)
        ensures
            r == *self,
    {
        RepeaterUpdate(self.0.clone())
    }
}

/// A subscriber joining or leaving, identified by its connection handle.
#[derive(Debug)]
pub enum RepeaterControl {
    Subscribe(u64),
    Unsubscribe(u64),
}

/// One planned delivery: which subscriber receives which copy of the update.
pub struct Delivery {
    pub listener: u64,
    pub update: RepeaterUpdate,
}

/// What one control message does to the subscriber set.
pub open spec fn apply_control(s: Set<u64>, msg: RepeaterControl) -> Set<u64> {
    match msg {
        RepeaterControl::Subscribe(h) => s.insert(h),
        RepeaterControl::Unsubscribe(h) => s.remove(h),
    }
}

/// The subscriber set after a whole sequence of control messages, applied one
/// at a time in order.
pub open spec fn apply_all(s: Set<u64>, msgs: Seq<RepeaterControl>) -> Set<u64>
    decreases msgs.len(),
{
    if msgs.len() == 0 {
        s
    } else {
        apply_control(apply_all(s, msgs.drop_last()), msgs.last())
    }
}

/// How many of the planned deliveries address handle `h`.
pub open spec fn delivery_count(out: Seq<Delivery>, h: u64) -> nat
    decreases out.len(),
{
    if out.len() == 0 {
        0
    } else {
        delivery_count(out.drop_last(), h) + if out.last().listener == h {
            1nat
        } else {
            0nat
        }
    }
}

/// The hub: the one owner of the subscriber set.
pub struct RepeaterActor {
    listeners: Vec<u64>,
}

impl View for RepeaterActor {
    type V = Set<u64>;

    open spec fn view(&self) -> Set<u64> {
        self.handle_seq().to_set()
    }
}

impl RepeaterActor {
    /// The handles in the order the hub keeps them; the set view is this
    /// sequence's set of elements.
    pub closed spec fn handle_seq(self) -> Seq<u64> {
        self.listeners@
    }

    /// No duplicate handles: each subscriber is delivered to once.
    pub open spec fn wf(self) -> bool {
        self.handle_seq().no_duplicates()
    }

    pub fn new() -> (r: Self)
        ensures
            r.wf(),
            r@ == Set::<u64>::empty(),
    {
        let r = RepeaterActor { listeners: Vec::new() };
        proof {
            assert(r.listeners@.to_set() =~= Set::<u64>::empty());
        }
        r
    }

    fn position_of(&self, h: u64) -> (r: Option<usize>)
        ensures
            match r {
                Some(i) => i < self.listeners@.len() && self.listeners@[i as int] == h,
                None => !self.listeners@.contains(h),
            },
    {
        let mut i: usize = 0;
        while i < self.listeners.len()
            invariant
                i <= self.listeners@.len(),
                forall|j: int| 0 <= j < i ==> self.listeners@[j] != h,
            decreases self.listeners@.len() - i,
        {
            if self.listeners[i] == h {
                return Some(i);
            }
            i = i + 1;
        }
        None
    }

    /// Adding a present handle or removing an absent one is a no-op; the set
    /// never holds a handle twice.
    pub fn handle_control(&mut self, msg: RepeaterControl)
        requires
            old(self).wf(),
        ensures
            final(self).wf(),
            final(self)@ == apply_control(old(self)@, msg),
    {
        match msg {
            RepeaterControl::Subscribe(h) => {
                if self.position_of(h).is_none() {
                    self.listeners.push(h);
                    proof {
                        assert forall|a: u64|
                            self.listeners@.contains(a) <==> (old(
                                self,
                            ).listeners@.contains(a) || a == h) by {
                            if self.listeners@.contains(a) {
                                let j = choose|j: int|
                                    0 <= j < self.listeners@.len() && self.listeners@[j] == a;
                                if j < old(self).listeners@.len() {
                                    assert(old(self).listeners@[j] == a);
                                }
                            }
                            if old(self).listeners@.contains(a) {
                                let j = choose|j: int|
                                    0 <= j < old(self).listeners@.len() && old(
                                        self,
                                    ).listeners@[j] == a;
                                assert(self.listeners@[j] == a);
                            }
                            if a == h {
                                assert(self.listeners@.last() == h);
                            }
                        }
                        assert(self.listeners@.to_set() =~= old(self)@.insert(h));
                    }
                } else {
                    proof {
                        assert(self.listeners@.to_set() =~= old(self)@.insert(h));
                    }
                }
            },
            RepeaterControl::Unsubscribe(h) => {
                match self.position_of(h) {
                    Some(i) => {
                        let ghost pre = self.listeners@;
                        self.listeners.remove(i);
                        proof {
                            assert forall|a: u64|
                                self.listeners@.contains(a) <==> (pre.contains(a) && a != h) by {
                                if self.listeners@.contains(a) {
                                    let j = choose|j: int|
                                        0 <= j < self.listeners@.len() && self.listeners@[j] == a;
                                    if j < i {
                                        assert(pre[j] == a);
                                    } else {
                                        assert(pre[j + 1] == a);
                                    }
                                }
                                if pre.contains(a) && a != h {
                                    let j = choose|j: int| 0 <= j < pre.len() && pre[j] == a;
                                    if j < i {
                                        assert(self.listeners@[j] == a);
                                    } else {
                                        assert(j != i);
                                        assert(self.listeners@[j - 1] == a);
                                    }
                                }
                                if a == h && self.listeners@.contains(a) {
                                    let j = choose|j: int|
                                        0 <= j < self.listeners@.len() && self.listeners@[j] == a;
                                    if j < i {
                                        assert(pre[j] == h && pre[i as int] == h);
                                    } else {
                                        assert(pre[j + 1] == h && pre[i as int] == h);
                                    }
                                }
                            }
                            assert(self.listeners@.to_set() =~= old(self)@.remove(h));
                        }
                    },
                    None => {
                        proof {
                            assert(self.listeners@.to_set() =~= old(self)@.remove(h));
                        }
                    },
                }
            },
        }
    }

    /// Plan the fan-out of one update: exactly one copy for every handle
    /// currently in the set, none for any other handle. Whether an individual
    /// delivery later succeeds is the host's business and does not touch the
    /// hub.
    pub fn handle_update(&self, msg: &RepeaterUpdate) -> (out: Vec<Delivery>)
        requires
            self.wf(),
        ensures
            out@.len() == self.handle_seq().len(),
            forall|i: int|
                0 <= i < out@.len() ==> out@[i].listener == self.handle_seq()[i] && out@[i].update
                    == *msg,
            forall|h: u64|
                #[trigger] delivery_count(out@, h) == if self@.contains(h) {
                    1nat
                } else {
                    0nat
                },
    {
        let mut out: Vec<Delivery> = Vec::new();
        let mut i: usize = 0;
        while i < self.listeners.len()
            invariant
                i <= self.listeners@.len(),
                out@.len() == i,
                forall|j: int|
                    0 <= j < i ==> out@[j].listener == self.listeners@[j] && out@[j].update
                        == *msg,
            decreases self.listeners@.len() - i,
        {
            out.push(Delivery { listener: self.listeners[i], update: msg.clone() });
            i = i + 1;
        }
        proof {
            assert forall|h: u64|
                #[trigger] delivery_count(out@, h) == if self@.contains(h) {
                    1nat
                } else {
                    0nat
                } by {
                lemma_delivery_count_mirrors(out@, self.listeners@, h);
            }
        }
        out
    }
}

/// A fan-out whose targets mirror a duplicate-free handle sequence delivers
/// once to each present handle and never to an absent one.
proof fn lemma_delivery_count_mirrors(out: Seq<Delivery>, s: Seq<u64>, h: u64)
    requires
        out.len() == s.len(),
        forall|j: int| 0 <= j < out.len() ==> out[j].listener == s[j],
        s.no_duplicates(),
    ensures
        delivery_count(out, h) == if s.to_set().contains(h) {
            1nat
        } else {
            0nat
        },
    decreases s.len(),
{
    if s.len() == 0 {
        assert(!s.contains(h));
    } else {
        let so = s.drop_last();
        let oo = out.drop_last();
        assert(so.no_duplicates());
        lemma_delivery_count_mirrors(oo, so, h);
        if s.last() == h {
            assert(s.contains(h));
            assert(!so.contains(h)) by {
                if so.contains(h) {
                    let j = choose|j: int| 0 <= j < so.len() && so[j] == h;
                    assert(s[j] == h && s[s.len() - 1] == h);
                }
            }
        } else {
            if s.contains(h) {
                let j = choose|j: int| 0 <= j < s.len() && s[j] == h;
                assert(j < so.len() && so[j] == h);
            }
            if so.contains(h) {
                let j = choose|j: int| 0 <= j < so.len() && so[j] == h;
                assert(s[j] == h);
            }
        }
    }
}

/// Subscribing twice leaves the set exactly as subscribing once does.
pub proof fn lemma_subscribe_idempotent(s: Set<u64>, h: u64)
    ensures
        apply_control(apply_control(s, RepeaterControl::Subscribe(h)), RepeaterControl::Subscribe(h))
            == apply_control(s, RepeaterControl::Subscribe(h)),
{
    assert(s.insert(h).insert(h) =~= s.insert(h));
}

/// Unsubscribing twice leaves the set exactly as unsubscribing once does.
pub proof fn lemma_unsubscribe_idempotent(s: Set<u64>, h: u64)
    ensures
        apply_control(
            apply_control(s, RepeaterControl::Unsubscribe(h)),
            RepeaterControl::Unsubscribe(h),
        ) == apply_control(s, RepeaterControl::Unsubscribe(h)),
{
    assert(s.remove(h).remove(h) =~= s.remove(h));
}

/// Handling one more message continues the fold: any interleaving of callers,
/// once serialized by the hub, yields the set `apply_all` describes.
pub proof fn lemma_apply_all_step(s: Set<u64>, msgs: Seq<RepeaterControl>, msg: RepeaterControl)
    ensures
        apply_all(s, msgs.push(msg)) == apply_control(apply_all(s, msgs), msg),
{
    assert(msgs.push(msg).drop_last() =~= msgs);
    assert(msgs.push(msg).last() == msg);
}

/// Whether a control message speaks of handle `h`.
pub open spec fn control_names(msg: RepeaterControl, h: u64) -> bool {
    match msg {
        RepeaterControl::Subscribe(x) => x == h,
        RepeaterControl::Unsubscribe(x) => x == h,
    }
}

/// Whether `h` is a member once the whole sequence has been applied: the
/// last message that speaks of `h` decides, and a handle nothing speaks of
/// keeps its initial membership.
pub open spec fn member_after(s: Set<u64>, msgs: Seq<RepeaterControl>, h: u64) -> bool
    decreases msgs.len(),
{
    if msgs.len() == 0 {
        s.contains(h)
    } else if control_names(msgs.last(), h) {
        msgs.last() is Subscribe
    } else {
        member_after(s, msgs.drop_last(), h)
    }
}

/// After any serialized run of control messages, a handle is subscribed
/// exactly as its last subscribe or unsubscribe left it — so repeating a
/// message, or interleaving messages about other handles, changes nothing
/// for it.
pub proof fn lemma_last_control_decides(s: Set<u64>, msgs: Seq<RepeaterControl>, h: u64)
    ensures
        apply_all(s, msgs).contains(h) == member_after(s, msgs, h),
    decreases msgs.len(),
{
    if msgs.len() > 0 {
        lemma_last_control_decides(s, msgs.drop_last(), h);
    }
}

} // verus!
