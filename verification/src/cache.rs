//! The cache-aside layer. `CacheActor` is the accessor's view of the backing
//! store: byte blobs keyed by path, each entry valid for a fixed time-to-live
//! from the moment it is set and absent afterwards. Time is explicit — every
//! operation takes the current second on the host's clock — so staleness is
//! part of the contract rather than of a wall clock.
//!
//! `FetchSession` is the decision half of get-or-compute: it turns the
//! outcome of the cache probe, and then of the fallback computation, into
//! the next obligation of the host (invoke the fallback; store the computed
//! value). Concurrent misses on one key each run their own session — there
//! is deliberately no single-flight deduplication.

use vstd::prelude::*;
use vstd::pervasive::VecAdditionalExecFns;

verus! {

/// An error from the backing store or from a fallback computation, carried
/// through to the caller uninterpreted.
#[derive(Debug)]
pub struct StoreError {
    pub message: String,
}

struct CacheEntry {
    key: String,
    value: Vec<u8>,
    expires_at: u64,
}

/// What a lookup of `key` at time `now` returns from store contents `m`:
/// the stored blob while `now` is before its expiry, absent afterwards.
pub open spec fn spec_get(
    m: Map<Seq<char>, (Seq<u8>, u64)>,
    key: Seq<char>,
    now: u64,
) -> Option<Seq<u8>> {
    if m.contains_key(key) && now < m[key].1 {
        Some(m[key].0)
    } else {
        None
    }
}

spec fn keys_distinct(s: Seq<CacheEntry>) -> bool {
    forall|i: int, j: int| 0 <= i < j < s.len() ==> s[i].key@ != s[j].key@
}

spec fn contents_of(s: Seq<CacheEntry>) -> Map<Seq<char>, (Seq<u8>, u64)>
    decreases s.len(),
{
    if s.len() == 0 {
        Map::empty()
    } else {
        contents_of(s.drop_last()).insert(
            s.last().key@,
            (s.last().value@, s.last().expires_at),
        )
    }
}

proof fn lemma_contents_of_absent(s: Seq<CacheEntry>, k: Seq<char>)
    requires
        forall|j: int| 0 <= j < s.len() ==> s[j].key@ != k,
    ensures
        !contents_of(s).contains_key(k),
    decreases s.len(),
{
    if s.len() > 0 {
        lemma_contents_of_absent(s.drop_last(), k);
    }
}

proof fn lemma_contents_of_index(s: Seq<CacheEntry>, i: int)
    requires
        keys_distinct(s),
        0 <= i < s.len(),
    ensures
        contents_of(s).contains_key(s[i].key@),
        contents_of(s)[s[i].key@] == (s[i].value@, s[i].expires_at),
    decreases s.len(),
{
    if i < s.len() - 1 {
        assert(keys_distinct(s.drop_last()));
        lemma_contents_of_index(s.drop_last(), i);
        assert(s.drop_last()[i] == s[i]);
        assert(s.last().key@ != s[i].key@);
    }
}

proof fn lemma_contents_of_update(s: Seq<CacheEntry>, i: int, e: CacheEntry)
    requires
        keys_distinct(s),
        0 <= i < s.len(),
        e.key@ == s[i].key@,
    ensures
        keys_distinct(s.update(i, e)),
        contents_of(s.update(i, e)) == contents_of(s).insert(e.key@, (e.value@, e.expires_at)),
    decreases s.len(),
{
    let su = s.update(i, e);
    assert forall|p: int, q: int| 0 <= p < q < su.len() implies su[p].key@ != su[q].key@ by {
        assert(s[p].key@ != s[q].key@);
    }
    if i == s.len() - 1 {
        assert(su.drop_last() =~= s.drop_last());
        assert(su.last() == e);
        assert(contents_of(s.drop_last()).insert(
            s.last().key@,
            (s.last().value@, s.last().expires_at),
        ).insert(e.key@, (e.value@, e.expires_at)) =~= contents_of(s.drop_last()).insert(
            e.key@,
            (e.value@, e.expires_at),
        ));
    } else {
        assert(su.drop_last() =~= s.drop_last().update(i, e));
        assert(keys_distinct(s.drop_last()));
        assert(s.drop_last()[i] == s[i]);
        lemma_contents_of_update(s.drop_last(), i, e);
        assert(su.last() == s.last());
        assert(e.key@ != s.last().key@);
        assert(contents_of(s.drop_last()).insert(e.key@, (e.value@, e.expires_at)).insert(
            s.last().key@,
            (s.last().value@, s.last().expires_at),
        ) =~= contents_of(s.drop_last()).insert(
            s.last().key@,
            (s.last().value@, s.last().expires_at),
        ).insert(e.key@, (e.value@, e.expires_at)));
    }
}

/// The accessor's store: blobs keyed by path, each with the expiry instant
/// its last set gave it. The time-to-live is fixed at construction.
pub struct CacheActor {
    expiration: u64,
    entries: Vec<CacheEntry>,
}

impl CacheActor {
    /// The fixed time-to-live, in seconds.
    pub closed spec fn ttl(self) -> u64 {
        self.expiration
    }

    /// The store as a map from key to the stored blob and its expiry instant.
    pub closed spec fn contents(self) -> Map<Seq<char>, (Seq<u8>, u64)> {
        contents_of(self.entries@)
    }

    /// Each key is held at most once.
    pub closed spec fn wf(self) -> bool {
        keys_distinct(self.entries@)
    }

    pub fn new(expiration: u64) -> (r: Self)
        ensures
            r.wf(),
            r.ttl() == expiration,
            r.contents() == Map::<Seq<char>, (Seq<u8>, u64)>::empty(),
    {
        CacheActor { expiration, entries: Vec::new() }
    }

    fn position_of(&self, path: &String) -> (r: Option<usize>)
        ensures
            match r {
                Some(i) => i < self.entries@.len() && self.entries@[i as int].key@ == path@,
                None => forall|j: int| 0 <= j < self.entries@.len() ==> self.entries@[j].key@ != path@,
            },
    {
        let mut i: usize = 0;
        while i < self.entries.len()
            invariant
                i <= self.entries@.len(),
                forall|j: int| 0 <= j < i ==> self.entries@[j].key@ != path@,
            decreases self.entries@.len() - i,
        {
            if self.entries[i].key.eq(path) {
                return Some(i);
            }
            i = i + 1;
        }
        None
    }

    /// Store `content` under `path`, unconditionally overwriting any previous
    /// value and restarting the time-to-live from `now`. Every key other
    /// than `path` is untouched.
    pub fn handle_set(&mut self, path: String, content: Vec<u8>, now: u64)
        requires
            old(self).wf(),
            now <= u64::MAX - old(self).ttl(),
        ensures
            final(self).wf(),
            final(self).ttl() == old(self).ttl(),
            final(self).contents() == old(self).contents().insert(
                path@,
                (content@, (now + old(self).ttl()) as u64),
            ),
    {
        let expires_at = now + self.expiration;
        let pos = self.position_of(&path);
        let ghost pre = self.entries@;
        let e = CacheEntry { key: path, value: content, expires_at };
        match pos {
            Some(i) => {
                proof {
                    lemma_contents_of_update(pre, i as int, e);
                }
                self.entries.set(i, e);
            },
            None => {
                self.entries.push(e);
                proof {
                    assert(self.entries@.drop_last() =~= pre);
                    assert(keys_distinct(self.entries@));
                }
            },
        }
    }

    /// Look `path` up at time `now`: the most recently set blob while its
    /// time-to-live has not elapsed, absent once it has (or if nothing was
    /// ever set).
    pub fn handle_get(&self, path: &String, now: u64) -> (r: Option<Vec<u8>>)
        requires
            self.wf(),
        ensures
            match r {
                Some(v) => spec_get(self.contents(), path@, now) == Some(v@),
                None => spec_get(self.contents(), path@, now) is None,
            },
    {
        match self.position_of(path) {
            Some(i) => {
                proof {
                    lemma_contents_of_index(self.entries@, i as int);
                }
                if now < self.entries[i].expires_at {
                    Some(clone_bytes(&self.entries[i].value))
                } else {
                    None
                }
            },
            None => {
                proof {
                    lemma_contents_of_absent(self.entries@, path@);
                }
                None
            },
        }
    }
}

fn clone_bytes(v: &Vec<u8>) -> (r: Vec<u8>)
    ensures
        r@ == v@,
{
    let r = v.clone();
    proof {
        assert(r@ =~= v@);
    }
    r
}

/// A value set at `t_set` into a store with time-to-live `ttl` is returned
/// by any get strictly before the expiry instant and is absent from any get
/// at or after it; sets never disturb other keys.
pub proof fn lemma_ttl_round_trip(
    m: Map<Seq<char>, (Seq<u8>, u64)>,
    key: Seq<char>,
    value: Seq<u8>,
    t_set: u64,
    ttl: u64,
    t_get: u64,
)
    requires
        t_set <= u64::MAX - ttl,
    ensures
        t_get < t_set + ttl ==> spec_get(
            m.insert(key, (value, (t_set + ttl) as u64)),
            key,
            t_get,
        ) == Some(value),
        t_get >= t_set + ttl ==> spec_get(
            m.insert(key, (value, (t_set + ttl) as u64)),
            key,
            t_get,
        ) is None,
        forall|k: Seq<char>, t: u64|
            k != key ==> spec_get(m.insert(key, (value, (t_set + ttl) as u64)), k, t) == spec_get(
                m,
                k,
                t,
            ),
{
}

/// Where one get-or-compute stands.
#[derive(Debug)]
pub enum FetchState {
    /// The cache probe is in flight.
    AwaitingCache,
    /// The probe missed; the fallback computation is in flight.
    AwaitingFallback,
    /// The session is over with this outcome.
    Done(Result<Vec<u8>, StoreError>),
}

/// What the host reports back into a session.
#[derive(Debug)]
pub enum FetchEvent {
    /// The cache probe returned this blob.
    CacheHit(Vec<u8>),
    /// The cache probe found nothing live.
    CacheMiss,
    /// The cache probe itself failed.
    CacheFailed(StoreError),
    /// The fallback computation produced this blob.
    FallbackOk(Vec<u8>),
    /// The fallback computation failed.
    FallbackFailed(StoreError),
}

/// What the host must do after a session step.
#[derive(Debug)]
pub enum FetchAction {
    /// Start the caller-supplied fallback computation.
    InvokeFallback,
    /// Store this blob under the session's key (best effort: a store failure
    /// is swallowed and the session outcome stands).
    StoreValue(Vec<u8>),
}

/// Which report a session in state `s` can take next.
pub open spec fn fetch_event_allowed(s: FetchState, ev: FetchEvent) -> bool {
    match ev {
        FetchEvent::CacheHit(_) => s is AwaitingCache,
        FetchEvent::CacheMiss => s is AwaitingCache,
        FetchEvent::CacheFailed(_) => s is AwaitingCache,
        FetchEvent::FallbackOk(_) => s is AwaitingFallback,
        FetchEvent::FallbackFailed(_) => s is AwaitingFallback,
    }
}

/// The session state after one report.
pub open spec fn fetch_step_state(s: FetchState, ev: FetchEvent) -> FetchState {
    match ev {
        FetchEvent::CacheHit(v) => FetchState::Done(Ok(v)),
        FetchEvent::CacheMiss => FetchState::AwaitingFallback,
        FetchEvent::CacheFailed(e) => FetchState::Done(Err(e)),
        FetchEvent::FallbackOk(v) => FetchState::Done(Ok(v)),
        FetchEvent::FallbackFailed(e) => FetchState::Done(Err(e)),
    }
}

/// How many times one report makes the host invoke the fallback.
pub open spec fn fetch_step_invokes(ev: FetchEvent) -> nat {
    if ev is CacheMiss {
        1
    } else {
        0
    }
}

/// One get-or-compute in flight. A hit ends the session with the cached
/// blob and never touches the fallback; a miss invokes the fallback exactly
/// once, and its result — if any — is stored before the session ends with
/// it; any failure ends the session with that failure, stored nowhere.
pub struct FetchSession {
    pub state: FetchState,
}

impl FetchSession {
    pub fn new() -> (r: Self)
        ensures
            r.state is AwaitingCache,
    {
        FetchSession { state: FetchState::AwaitingCache }
    }

    pub fn step(&mut self, ev: FetchEvent) -> (acts: Vec<FetchAction>)
        requires
            fetch_event_allowed(old(self).state, ev),
        ensures
            final(self).state == fetch_step_state(old(self).state, ev),
            match ev {
                FetchEvent::CacheHit(_) => acts@ == Seq::<FetchAction>::empty(),
                FetchEvent::CacheMiss => acts@ == seq![FetchAction::InvokeFallback],
                FetchEvent::CacheFailed(_) => acts@ == Seq::<FetchAction>::empty(),
                FetchEvent::FallbackOk(v) => acts@.len() == 1 && (acts@[0] matches
                    FetchAction::StoreValue(w) && w@ == v@),
                FetchEvent::FallbackFailed(_) => acts@ == Seq::<FetchAction>::empty(),
            },
    {
        let mut acts: Vec<FetchAction> = Vec::new();
        match ev {
            FetchEvent::CacheHit(v) => {
                self.state = FetchState::Done(Ok(v));
            },
            FetchEvent::CacheMiss => {
                self.state = FetchState::AwaitingFallback;
                acts.push(FetchAction::InvokeFallback);
                proof {
                    assert(acts@ =~= seq![FetchAction::InvokeFallback]);
                }
            },
            FetchEvent::CacheFailed(e) => {
                self.state = FetchState::Done(Err(e));
            },
            FetchEvent::FallbackOk(v) => {
                let ghost gv = v;
                let stored = clone_bytes(&v);
                self.state = FetchState::Done(Ok(v));
                acts.push(FetchAction::StoreValue(stored));
                proof {
                    assert(stored@ =~= gv@);
                    assert(acts@ =~= seq![FetchAction::StoreValue(stored)]);
                }
            },
            FetchEvent::FallbackFailed(e) => {
                self.state = FetchState::Done(Err(e));
            },
        }
        acts
    }
}

/// The session state after a whole run of reports, started at the probe.
pub open spec fn run_fetch_state(evs: Seq<FetchEvent>) -> FetchState
    decreases evs.len(),
{
    if evs.len() == 0 {
        FetchState::AwaitingCache
    } else {
        fetch_step_state(run_fetch_state(evs.drop_last()), evs.last())
    }
}

/// How many fallback invocations a whole run demands.
pub open spec fn run_fetch_invokes(evs: Seq<FetchEvent>) -> nat
    decreases evs.len(),
{
    if evs.len() == 0 {
        0
    } else {
        run_fetch_invokes(evs.drop_last()) + fetch_step_invokes(evs.last())
    }
}

/// Every report in the run was allowed in the state it met.
pub open spec fn valid_fetch_trace(evs: Seq<FetchEvent>) -> bool
    decreases evs.len(),
{
    if evs.len() == 0 {
        true
    } else {
        valid_fetch_trace(evs.drop_last()) && fetch_event_allowed(
            run_fetch_state(evs.drop_last()),
            evs.last(),
        )
    }
}

proof fn lemma_fetch_leaves_awaiting_cache(evs: Seq<FetchEvent>)
    requires
        evs.len() > 0,
    ensures
        !(run_fetch_state(evs) is AwaitingCache),
{
}

/// Over any allowed run, the fallback is invoked exactly once if the probe
/// missed and never otherwise — in particular never on a hit.
pub proof fn lemma_fallback_invoked_once(evs: Seq<FetchEvent>)
    requires
        valid_fetch_trace(evs),
    ensures
        run_fetch_invokes(evs) == if evs.len() > 0 && evs[0] is CacheMiss {
            1nat
        } else {
            0nat
        },
    decreases evs.len(),
{
    if evs.len() > 1 {
        lemma_fallback_invoked_once(evs.drop_last());
        lemma_fetch_leaves_awaiting_cache(evs.drop_last());
        assert(evs.drop_last()[0] == evs[0]);
        assert(fetch_event_allowed(run_fetch_state(evs.drop_last()), evs.last()));
        assert(!(evs.last() is CacheMiss));
        assert(fetch_step_invokes(evs.last()) == 0);
        assert(run_fetch_invokes(evs) == run_fetch_invokes(evs.drop_last()));
    } else if evs.len() == 1 {
        assert(evs.drop_last().len() == 0);
        assert(run_fetch_invokes(evs.drop_last()) == 0);
        assert(evs.last() == evs[0]);
        assert(run_fetch_invokes(evs) == fetch_step_invokes(evs[0]));
    }
}

/// A hit ends the session at once with the cached blob, with nothing to do.
pub proof fn lemma_hit_short_circuit(v: Vec<u8>)
    ensures
        run_fetch_state(seq![FetchEvent::CacheHit(v)]) == FetchState::Done(
            Ok::<Vec<u8>, StoreError>(v),
        ),
        run_fetch_invokes(seq![FetchEvent::CacheHit(v)]) == 0,
{
    let evs = seq![FetchEvent::CacheHit(v)];
    assert(evs.drop_last() =~= Seq::<FetchEvent>::empty());
    assert(evs.last() == FetchEvent::CacheHit(v));
    assert(run_fetch_state(evs.drop_last()) == FetchState::AwaitingCache);
    assert(run_fetch_invokes(evs.drop_last()) == 0);
}

/// A miss followed by a successful fallback ends the session with the
/// computed blob after exactly one invocation; the host has stored the blob,
/// so by the time-to-live law a sufficiently early later probe of the same
/// key hits.
pub proof fn lemma_miss_computes_and_refills(v: Vec<u8>)
    ensures
        run_fetch_state(seq![FetchEvent::CacheMiss, FetchEvent::FallbackOk(v)]) == FetchState::Done(
            Ok::<Vec<u8>, StoreError>(v),
        ),
        run_fetch_invokes(seq![FetchEvent::CacheMiss, FetchEvent::FallbackOk(v)]) == 1,
        valid_fetch_trace(seq![FetchEvent::CacheMiss, FetchEvent::FallbackOk(v)]),
{
    let evs = seq![FetchEvent::CacheMiss, FetchEvent::FallbackOk(v)];
    let one = evs.drop_last();
    assert(one =~= seq![FetchEvent::CacheMiss]);
    assert(one.drop_last() =~= Seq::<FetchEvent>::empty());
    assert(one.last() == FetchEvent::CacheMiss);
    assert(run_fetch_state(one.drop_last()) == FetchState::AwaitingCache);
    assert(run_fetch_invokes(one.drop_last()) == 0);
    assert(valid_fetch_trace(one.drop_last()));
    assert(run_fetch_state(one) == FetchState::AwaitingFallback);
    assert(run_fetch_invokes(one) == 1);
    assert(valid_fetch_trace(one));
    assert(evs.last() == FetchEvent::FallbackOk(v));
    assert(fetch_step_invokes(evs.last()) == 0);
}

} // verus!
