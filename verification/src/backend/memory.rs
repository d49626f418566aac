//! A fixed-window rate limiter backend that stores its per-key buckets in a
//! [`dashmap::DashMap`].
//!
//! All operations take the current time as an explicit `*_at` argument, which
//! is where the windowing algorithm is stated and proved; the plain variants
//! read the process clock and delegate to them. The store owns the map;
//! sharing it between workers and running the periodic sweep are left to the
//! embedding layer, which also decides when [`InMemoryBackend::sweep`] runs.

use std::collections::hash_map::RandomState;

use dashmap::DashMap;
use vstd::prelude::*;

use crate::backend::{Decision, SimpleBackend, SimpleInput, SimpleOutput};
use crate::clock;

verus! {

/// Default period of the garbage sweep, in seconds.
pub const DEFAULT_GC_INTERVAL_SECONDS: u64 = 600;

/// The per-key counter record: how many requests the current window has
/// seen, and when that window ends (milliseconds).
#[derive(Copy, Clone, Debug, PartialEq, Eq, Structural)]
pub struct Bucket {
    /// The instant (in milliseconds) at which this window ends.
    pub expiry: u64,
    /// Requests counted against this window so far.
    pub count: u64,
}

impl Bucket {
    /// A bucket is live while its window has not yet ended.
    pub open spec fn live(self, now_ms: u64) -> bool {
        self.expiry > now_ms
    }

    /// Whether this bucket's window is still running at `now_ms`.
    pub fn is_live(&self, now_ms: u64) -> (r: bool)
        ensures
            r == self.live(now_ms),
    {
        self.expiry > now_ms
    }
}

/// The concurrent key-to-bucket store. Verus sees it only through
/// [`map_contents`] and the trusted methods below; the `dashmap::DashMap`
/// inside provides the per-key atomicity at run time.
#[verifier::external_body]
pub struct CounterMap {
    inner: DashMap<String, Bucket, RandomState>,
}

/// What the concurrent map holds: the bucket stored under each key.
pub uninterp spec fn map_contents(m: CounterMap) -> Map<Seq<char>, Bucket>;

/// A store with no buckets at all.
pub open spec fn empty_contents() -> Map<Seq<char>, Bucket> {
    Map::empty()
}

impl View for CounterMap {
    type V = Map<Seq<char>, Bucket>;

    closed spec fn view(&self) -> Map<Seq<char>, Bucket> {
        map_contents(*self)
    }
}

impl CounterMap {
    /// Relies on dashmap::DashMap::new: creates an empty map.
    #[verifier::external_body]
    fn new() -> (r: CounterMap)
        ensures
            r@ == empty_contents(),
    {
        CounterMap { inner: DashMap::new() }
    }

    /// Relies on dashmap::DashMap::get: returns a copy of the value stored
    /// under `key`, if one is present.
    #[verifier::external_body]
    fn get(&self, key: &str) -> (r: Option<Bucket>)
        ensures
            r == stored(map_contents(*self), key@),
    {
        self.inner.get(key).map(|v| *v.value())
    }

    /// Relies on dashmap::DashMap::insert: stores `value` under `key`,
    /// replacing any previous value.
    #[verifier::external_body]
    fn insert(&mut self, key: &str, value: Bucket)
        ensures
            final(self)@ == old(self)@.insert(key@, value),
    {
        self.inner.insert(key.to_owned(), value);
    }

    /// Relies on dashmap::DashMap::remove: removes the entry under `key`,
    /// returning the stored value if one was present.
    #[verifier::external_body]
    fn remove(&mut self, key: &str) -> (r: Option<Bucket>)
        ensures
            final(self)@ == old(self)@.remove(key@),
            r == stored(map_contents(*old(self)), key@),
    {
        self.inner.remove(key).map(|(_, v)| v)
    }

    /// Relies on dashmap::DashMap::retain: keeps exactly the entries for
    /// which the predicate returns true, and leaves the kept values
    /// unchanged. The predicate passed here is [`Bucket::is_live`] at
    /// `now_ms`.
    #[verifier::external_body]
    fn retain_live(&mut self, now_ms: u64)
        ensures
            forall|k: Seq<char>|
                #[trigger] final(self)@.contains_key(k) <==> (old(self)@.contains_key(k) && old(
                    self,
                )@[k].live(now_ms)),
            forall|k: Seq<char>|
                #[trigger] final(self)@.contains_key(k) ==> final(self)@[k] == old(self)@[k],
    {
        self.inner.retain(|_k, v| v.is_live(now_ms));
    }
}

/// The bucket found under `key`, if any.
pub open spec fn stored(m: Map<Seq<char>, Bucket>, key: Seq<char>) -> Option<Bucket> {
    if m.contains_key(key) {
        Some(m[key])
    } else {
        None
    }
}

/// The fixed-window step for one request at `now_ms`: a live bucket is
/// incremented (saturating) and keeps its expiry; a missing or elapsed
/// bucket is replaced by a fresh window of count 1 ending at `fresh`.
pub open spec fn bucket_after_request(prev: Option<Bucket>, now_ms: u64, fresh: u64) -> Bucket {
    match prev {
        Some(b) => if b.live(now_ms) {
            Bucket { expiry: b.expiry, count: b.count.saturating_add(1) }
        } else {
            Bucket { expiry: fresh, count: 1 }
        },
        None => Bucket { expiry: fresh, count: 1 },
    }
}

/// The whole store after one request on `key`.
pub open spec fn map_after_request(
    m: Map<Seq<char>, Bucket>,
    key: Seq<char>,
    now_ms: u64,
    fresh: u64,
) -> Map<Seq<char>, Bucket> {
    m.insert(key, bucket_after_request(stored(m, key), now_ms, fresh))
}

/// The store after a rollback on `key` at `now_ms`: a live bucket's count is
/// decremented, floored at 0; a missing or elapsed bucket is left untouched,
/// and no bucket is ever created.
pub open spec fn map_after_rollback(
    m: Map<Seq<char>, Bucket>,
    key: Seq<char>,
    now_ms: u64,
) -> Map<Seq<char>, Bucket> {
    if m.contains_key(key) && m[key].live(now_ms) {
        m.insert(key, Bucket { expiry: m[key].expiry, count: m[key].count.saturating_sub(1) })
    } else {
        m
    }
}

/// The output reported for a request that left the key's bucket at `b`.
pub open spec fn output_for(max_requests: u64, b: Bucket) -> SimpleOutput {
    SimpleOutput {
        limit: max_requests,
        remaining: max_requests.saturating_sub(b.count),
        reset: b.expiry,
    }
}

/// Allowed exactly when the post-increment count still fits the limit.
pub open spec fn decision_for(max_requests: u64, b: Bucket) -> Decision {
    if b.count <= max_requests {
        Decision::Allowed
    } else {
        Decision::Denied
    }
}

/// Everything one request observes and changes, at a given clock reading.
pub open spec fn request_transition(
    pre: Map<Seq<char>, Bucket>,
    post: Map<Seq<char>, Bucket>,
    interval: u64,
    max_requests: u64,
    key: Seq<char>,
    now_ms: u64,
    d: Decision,
    out: SimpleOutput,
    token: Seq<char>,
) -> bool {
    let fresh = now_ms.saturating_add(interval);
    let b = bucket_after_request(stored(pre, key), now_ms, fresh);
    &&& post == map_after_request(pre, key, now_ms, fresh)
    &&& d == decision_for(max_requests, b)
    &&& out == output_for(max_requests, b)
    &&& token == key
}

/// The store after a run of requests on one key, one request at each time in
/// `times`, applied left to right.
pub open spec fn map_after_requests(
    m0: Map<Seq<char>, Bucket>,
    key: Seq<char>,
    interval: u64,
    times: Seq<u64>,
) -> Map<Seq<char>, Bucket>
    decreases times.len(),
{
    if times.len() == 0 {
        m0
    } else {
        let prev = map_after_requests(m0, key, interval, times.drop_last());
        let now = times.last();
        map_after_request(prev, key, now, now.saturating_add(interval))
    }
}

/// Law: starting with no bucket under `key`, a run of requests that all fall
/// inside the first call's window observes counts 1, 2, 3, ...: after the
/// n-th call the stored count is exactly n, the expiry is still the one the
/// first call set, and the n-th decision is Allowed exactly when
/// n <= max_requests.
pub proof fn lemma_window_counts(
    m0: Map<Seq<char>, Bucket>,
    key: Seq<char>,
    interval: u64,
    max_requests: u64,
    times: Seq<u64>,
    n: int,
)
    requires
        !m0.contains_key(key),
        1 <= n <= times.len(),
        times.len() <= u64::MAX,
        times[0] + interval <= u64::MAX,
        forall|j: int| 0 <= j < times.len() ==> times[0] <= #[trigger] times[j] < times[0] + interval,
    ensures
        ({
            let m = map_after_requests(m0, key, interval, times.take(n));
            &&& m.contains_key(key)
            &&& m[key].count == n
            &&& m[key].expiry == times[0] + interval
            &&& (decision_for(max_requests, m[key]) == Decision::Allowed <==> n
                <= max_requests)
            &&& output_for(max_requests, m[key]).remaining == max_requests.saturating_sub(
                n as u64,
            )
        }),
    decreases n,
{
    if n == 1 {
        assert(times.take(1).drop_last() =~= times.take(0));
        assert(map_after_requests(m0, key, interval, times.take(0)) == m0);
        assert(times.take(1).last() == times[0]);
        assert(map_after_requests(m0, key, interval, times.take(1)) == map_after_request(
            m0,
            key,
            times[0],
            times[0].saturating_add(interval),
        ));
        assert(stored(m0, key) is None);
    } else {
        lemma_window_counts(m0, key, interval, max_requests, times, n - 1);
        assert(times.take(n).drop_last() =~= times.take(n - 1));
        assert(times.take(n).last() == times[n - 1]);
        let m_prev = map_after_requests(m0, key, interval, times.take(n - 1));
        assert(map_after_requests(m0, key, interval, times.take(n)) == map_after_request(
            m_prev,
            key,
            times[n - 1],
            times[n - 1].saturating_add(interval),
        ));
        assert(times[0] <= times[n - 1] < times[0] + interval);
        assert(m_prev[key].live(times[n - 1]));
    }
}

/// Law: a rollback right after a request, made while the request's window is
/// still running, restores the key's count to its pre-request value; so the
/// `remaining` a later call would report is back to what it was before the
/// request. (A count already at the saturation point `u64::MAX` is the one
/// value an increment cannot leave, so it is excluded.)
pub proof fn lemma_rollback_restores(
    m: Map<Seq<char>, Bucket>,
    key: Seq<char>,
    interval: u64,
    now_req: u64,
    now_rb: u64,
)
    requires
        (m.contains_key(key) && m[key].live(now_req)) ==> m[key].count < u64::MAX,
        bucket_after_request(stored(m, key), now_req, now_req.saturating_add(interval)).live(
            now_rb,
        ),
    ensures
        ({
            let m1 = map_after_request(m, key, now_req, now_req.saturating_add(interval));
            let m2 = map_after_rollback(m1, key, now_rb);
            &&& m2.contains_key(key)
            &&& m2[key].count == (if m.contains_key(key) && m[key].live(now_req) {
                m[key].count
            } else {
                0u64
            })
            &&& m2[key].expiry == m1[key].expiry
        }),
{
}

/// Law: rollback can never drive a count below zero, and never invents a
/// bucket: a live bucket's count is decremented and floored at zero with
/// its expiry untouched, an elapsed bucket is left entirely alone, a
/// missing key stays missing, and a count already at zero stays at zero
/// however often rollback runs.
pub proof fn lemma_rollback_floor(m: Map<Seq<char>, Bucket>, key: Seq<char>, now_ms: u64)
    ensures
        map_after_rollback(m, key, now_ms).contains_key(key) == m.contains_key(key),
        !m.contains_key(key) ==> map_after_rollback(m, key, now_ms) == m,
        m.contains_key(key) ==> map_after_rollback(m, key, now_ms)[key].expiry == m[key].expiry,
        m.contains_key(key) && m[key].live(now_ms) ==> map_after_rollback(m, key, now_ms)[key].count
            == m[key].count.saturating_sub(1),
        m.contains_key(key) && !m[key].live(now_ms) ==> map_after_rollback(m, key, now_ms) == m,
        m.contains_key(key) && m[key].count == 0 ==> map_after_rollback(m, key, now_ms)[key].count
            == 0,
{
}

/// Law: an output never reports more remaining quota than the limit itself,
/// whatever the bucket holds.
pub proof fn lemma_remaining_bounded(max_requests: u64, b: Bucket)
    ensures
        output_for(max_requests, b).remaining <= output_for(max_requests, b).limit,
{
}

/// Law: once a key's window has elapsed (or the bucket is missing), the next
/// request starts over, regardless of prior exhaustion: count 1, a fresh
/// expiry, and an Allowed decision whenever at least one request is
/// permitted at all.
pub proof fn lemma_window_reset(
    m: Map<Seq<char>, Bucket>,
    key: Seq<char>,
    interval: u64,
    max_requests: u64,
    now_ms: u64,
)
    requires
        m.contains_key(key) ==> m[key].expiry <= now_ms,
        1 <= max_requests,
    ensures
        ({
            let fresh = now_ms.saturating_add(interval);
            let b = bucket_after_request(stored(m, key), now_ms, fresh);
            &&& b.count == 1
            &&& b.expiry == fresh
            &&& (now_ms + interval <= u64::MAX ==> b.expiry == now_ms + interval)
            &&& decision_for(max_requests, b) == Decision::Allowed
        }),
{
}

/// Law: removing a key and then requesting on it behaves exactly like the
/// first-ever request for that key, whatever was stored before: the same
/// fresh bucket, and so the same decision and output.
pub proof fn lemma_remove_key_fresh(
    m: Map<Seq<char>, Bucket>,
    key: Seq<char>,
    now_ms: u64,
    fresh: u64,
)
    ensures
        stored(m.remove(key), key) == Option::<Bucket>::None,
        bucket_after_request(stored(m.remove(key), key), now_ms, fresh) == bucket_after_request(
            None,
            now_ms,
            fresh,
        ),
        map_after_request(m.remove(key), key, now_ms, fresh)[key] == (Bucket {
            expiry: fresh,
            count: 1,
        }),
{
}

/// A fixed-window rate limiter backend that uses [`dashmap::DashMap`] to
/// store keys in memory. Its operations cannot fail.
pub struct InMemoryBackend {
    map: CounterMap,
    gc_interval: Option<u64>,
}

impl View for InMemoryBackend {
    type V = Map<Seq<char>, Bucket>;

    closed spec fn view(&self) -> Map<Seq<char>, Bucket> {
        self.map@
    }
}

impl InMemoryBackend {
    /// The configured garbage sweep period in milliseconds, `None` when
    /// sweeping is disabled.
    pub closed spec fn gc_interval_spec(&self) -> Option<u64> {
        self.gc_interval
    }

    pub fn builder() -> (b: Builder)
        ensures
            b.gc_interval_spec() == Some((DEFAULT_GC_INTERVAL_SECONDS * 1000) as u64),
    {
        Builder { gc_interval: Some(DEFAULT_GC_INTERVAL_SECONDS * 1000) }
    }

    /// The configured garbage sweep period in milliseconds, `None` when
    /// sweeping is disabled.
    pub fn gc_interval(&self) -> (r: Option<u64>)
        ensures
            r == self.gc_interval_spec(),
    {
        self.gc_interval
    }

    /// Whether a bucket is currently stored under `key`.
    pub fn contains_key(&self, key: &str) -> (r: bool)
        ensures
            r == self@.contains_key(key@),
    {
        self.map.get(key).is_some()
    }

    /// Process one request against `key`'s window, read at time `now_ms`.
    pub fn request_at(&mut self, input: SimpleInput, now_ms: u64) -> (r: Result<
        (Decision, SimpleOutput, String),
        std::convert::Infallible,
    >)
        ensures
            r matches Ok((d, out, token)) && request_transition(
                old(self)@,
                final(self)@,
                input.interval,
                input.max_requests,
                input.key@,
                now_ms,
                d,
                out,
                token@,
            ),
            final(self).gc_interval_spec() == old(self).gc_interval_spec(),
    {
        let fresh: u64 = now_ms.saturating_add(input.interval);
        let prev = self.map.get(input.key.as_str());
        let b = match prev {
            Some(v) => {
                if v.expiry > now_ms {
                    // The window is still running: count this request in it.
                    Bucket { expiry: v.expiry, count: v.count.saturating_add(1) }
                } else {
                    // The window has elapsed: this is a new window, not a merge.
                    Bucket { expiry: fresh, count: 1 }
                }
            },
            None => Bucket { expiry: fresh, count: 1 },
        };
        self.map.insert(input.key.as_str(), b);
        let allow = b.count <= input.max_requests;
        let output = SimpleOutput {
            limit: input.max_requests,
            remaining: input.max_requests.saturating_sub(b.count),
            reset: b.expiry,
        };
        Ok((Decision::from_allowed(allow), output, input.key))
    }

    /// Process one request against `key`'s window, read at the process
    /// clock. The clock reading cannot be predicted; the transition is exact
    /// for whatever it returned.
    pub fn request(&mut self, input: SimpleInput) -> (r: Result<
        (Decision, SimpleOutput, String),
        std::convert::Infallible,
    >)
        ensures
            r matches Ok((d, out, token)) && exists|now_ms: u64|
                #[trigger] request_transition(
                    old(self)@,
                    final(self)@,
                    input.interval,
                    input.max_requests,
                    input.key@,
                    now_ms,
                    d,
                    out,
                    token@,
                ),
            final(self).gc_interval_spec() == old(self).gc_interval_spec(),
    {
        let now_ms = clock::now_ms();
        self.request_at(input, now_ms)
    }

    /// Compensate one counted request: decrement `token`'s bucket at time
    /// `now_ms`. A missing or already-elapsed bucket is left alone, and the
    /// count never goes below zero.
    pub fn rollback_at(&mut self, token: String, now_ms: u64) -> (r: Result<
        (),
        std::convert::Infallible,
    >)
        ensures
            r matches Ok(()),
            final(self)@ == map_after_rollback(old(self)@, token@, now_ms),
            final(self).gc_interval_spec() == old(self).gc_interval_spec(),
    {
        match self.map.get(token.as_str()) {
            Some(v) => {
                if v.expiry > now_ms {
                    let b = Bucket { expiry: v.expiry, count: v.count.saturating_sub(1) };
                    self.map.insert(token.as_str(), b);
                }
            },
            None => {},
        }
        Ok(())
    }

    /// Compensate one counted request at the process clock. The clock
    /// reading cannot be predicted; the transition is exact for whatever it
    /// returned.
    pub fn rollback(&mut self, token: String) -> (r: Result<(), std::convert::Infallible>)
        ensures
            r matches Ok(()),
            exists|now_ms: u64| final(self)@ == #[trigger] map_after_rollback(
                old(self)@,
                token@,
                now_ms,
            ),
            final(self).gc_interval_spec() == old(self).gc_interval_spec(),
    {
        let now_ms = clock::now_ms();
        self.rollback_at(token, now_ms)
    }

    /// Unconditionally delete `key`'s bucket, so that the next request on
    /// `key` starts a fresh window.
    pub fn remove_key(&mut self, key: &str) -> (r: Result<(), std::convert::Infallible>)
        ensures
            r matches Ok(()),
            final(self)@ == old(self)@.remove(key@),
            final(self).gc_interval_spec() == old(self).gc_interval_spec(),
    {
        self.map.remove(key);
        Ok(())
    }

    /// One garbage sweep cycle at time `now_ms`: every bucket whose window
    /// has ended is removed; every live bucket stays untouched.
    pub fn sweep(&mut self, now_ms: u64)
        ensures
            forall|k: Seq<char>|
                #[trigger] final(self)@.contains_key(k) <==> (old(self)@.contains_key(k) && old(
                    self,
                )@[k].live(now_ms)),
            forall|k: Seq<char>|
                #[trigger] final(self)@.contains_key(k) ==> final(self)@[k] == old(self)@[k],
            final(self).gc_interval_spec() == old(self).gc_interval_spec(),
    {
        self.map.retain_live(now_ms);
    }
}

impl SimpleBackend for InMemoryBackend {
    type Error = std::convert::Infallible;

    /// Unconditionally delete `key`'s bucket.
    fn remove_key(&mut self, key: &str) -> Result<(), std::convert::Infallible> {
        InMemoryBackend::remove_key(self, key)
    }
}

pub struct Builder {
    gc_interval: Option<u64>,
}

impl Builder {
    /// The garbage sweep period this builder will configure, in
    /// milliseconds.
    pub closed spec fn gc_interval_spec(&self) -> Option<u64> {
        self.gc_interval
    }

    /// Override the default garbage collector interval (milliseconds).
    ///
    /// Set to None to disable garbage collection.
    ///
    /// The garbage collector periodically scans the internal map, removing
    /// expired buckets.
    pub fn with_gc_interval(self, interval: Option<u64>) -> (b: Self)
        ensures
            b.gc_interval_spec() == interval,
    {
        Builder { gc_interval: interval }
    }

    /// Create the backend, with an empty store. A zero-length sweep period
    /// is a programmer error and is rejected here, at construction.
    pub fn build(self) -> (backend: InMemoryBackend)
        requires
            self.gc_interval_spec() != Some(0u64),
        ensures
            backend@ == Map::<Seq<char>, Bucket>::empty(),
            backend.gc_interval_spec() == self.gc_interval_spec(),
    {
        InMemoryBackend { map: CounterMap::new(), gc_interval: self.gc_interval }
    }
}

} // verus!
