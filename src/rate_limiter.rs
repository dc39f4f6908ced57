use dashmap::DashMap;
use vstd::prelude::*;

use crate::algorithm::{elapsed, AllowResult, BucketState, InvalidConfig, NANOS_PER_SEC};
use crate::sliding_counter::{lemma_counter_after_allow_wf, SlidingCounter};
use crate::sliding_log::{lemma_log_after_allow_wf, SlidingLog, SlidingLogView};
use crate::token_bucket::{lemma_refill_saturates, TokenBucket};

verus! {

#[verifier::external_type_specification]
#[verifier::external_body]
#[verifier::reject_recursive_types(K)]
#[verifier::reject_recursive_types(V)]
#[verifier::reject_recursive_types(S)]
pub struct ExDashMap<K, V, S>(DashMap<K, V, S>);

/// The key-to-bucket entries that a bucket map holds.
pub uninterp spec fn bucket_map(m: DashMap<String, Limiter>) -> Map<Seq<char>, Limiter>;

/// Relies on `DashMap::new`: the new map is empty.
#[verifier::external_body]
fn new_bucket_map() -> (r: DashMap<String, Limiter>)
    ensures
        bucket_map(r).dom() == Set::<Seq<char>>::empty(),
{
    DashMap::new()
}

/// Relies on `DashMap::remove`: removes the entry of `key` and hands back its
/// value, if there was one.
#[verifier::external_body]
fn take_bucket(m: &mut DashMap<String, Limiter>, key: &String) -> (r: Option<Limiter>)
    ensures
        bucket_map(*final(m)) == bucket_map(*old(m)).remove(key@),
        bucket_map(*old(m)).contains_key(key@) ==> r == Some(bucket_map(*old(m))[key@]),
        !bucket_map(*old(m)).contains_key(key@) ==> r is None,
{
    m.remove(key).map(|entry| entry.1)
}

/// Relies on `DashMap::insert`: sets the entry of `key` to `value`.
#[verifier::external_body]
fn put_bucket(m: &mut DashMap<String, Limiter>, key: String, value: Limiter)
    ensures
        bucket_map(*final(m)) == bucket_map(*old(m)).insert(key@, value),
{
    m.insert(key, value);
}

/// Relies on `DashMap::contains_key`: whether `key` has an entry.
#[verifier::external_body]
fn has_bucket(m: &DashMap<String, Limiter>, key: &String) -> (r: bool)
    ensures
        r == bucket_map(*m).contains_key(key@),
{
    m.contains_key(key)
}

/// Relies on `DashMap::len`: the number of entries.
#[verifier::external_body]
fn bucket_count(m: &DashMap<String, Limiter>) -> (r: usize)
    ensures
        r == bucket_map(*m).len(),
{
    m.len()
}

/// Relies on `DashMap::retain`: keeps exactly the entries for which the
/// predicate holds, here those not idle for longer than `ttl` at `now`.
#[verifier::external_body]
fn retain_live(m: &mut DashMap<String, Limiter>, ttl: u64, now: u64)
    ensures
        bucket_map(*final(m)) == bucket_map(*old(m)).restrict(
            live_keys(bucket_map(*old(m)), ttl, now),
        ),
{
    m.retain(|_, bucket| bucket.is_live(ttl, now));
}

/// The keys of `entries` whose bucket was seen within `ttl` of `now`.
pub open spec fn live_keys(entries: Map<Seq<char>, Limiter>, ttl: u64, now: u64) -> Set<Seq<char>> {
    entries.dom().filter(|k: Seq<char>| !entries[k]@.is_idle(ttl, now))
}

/// The admission algorithm that a manager instantiates for each key.
#[derive(Clone, Copy, Debug, PartialEq, Eq, Structural)]
pub enum AlgorithmType {
    TokenBucket,
    SlidingLog,
    SlidingCounter,
}

/// Why a configuration is rejected, if it is: capacity first, then rate, then
/// the window length of the windowed algorithms.
pub open spec fn config_error(kind: AlgorithmType, capacity: u64, refill_rate: u64) -> Option<InvalidConfig> {
    if capacity == 0 {
        Some(InvalidConfig::ZeroCapacity)
    } else if refill_rate == 0 {
        Some(InvalidConfig::ZeroRefillRate)
    } else if kind != AlgorithmType::TokenBucket && refill_rate * NANOS_PER_SEC > u64::MAX {
        Some(InvalidConfig::WindowTooLong)
    } else {
        None
    }
}

/// Why a configuration is rejected, if it is.
pub fn check_config(kind: AlgorithmType, capacity: u64, refill_rate: u64) -> (r: Option<InvalidConfig>)
    ensures
        r == config_error(kind, capacity, refill_rate),
{
    if capacity == 0 {
        Some(InvalidConfig::ZeroCapacity)
    } else if refill_rate == 0 {
        Some(InvalidConfig::ZeroRefillRate)
    } else if kind != AlgorithmType::TokenBucket && refill_rate > u64::MAX / NANOS_PER_SEC {
        proof {
            assert(refill_rate * NANOS_PER_SEC > u64::MAX) by (nonlinear_arith)
                requires
                    refill_rate > u64::MAX / NANOS_PER_SEC,
            ;
        }
        Some(InvalidConfig::WindowTooLong)
    } else {
        proof {
            if kind != AlgorithmType::TokenBucket {
                assert(refill_rate * NANOS_PER_SEC <= u64::MAX) by (nonlinear_arith)
                    requires
                        refill_rate <= u64::MAX / NANOS_PER_SEC,
                ;
            }
        }
        None
    }
}

/// One bucket of any of the three algorithms.
#[derive(Debug)]
pub enum Limiter {
    TokenBucket(TokenBucket),
    SlidingLog(SlidingLog),
    SlidingCounter(SlidingCounter),
}

/// The mathematical content of a [`Limiter`].
pub enum LimiterView {
    TokenBucket(TokenBucket),
    SlidingLog(SlidingLogView),
    SlidingCounter(SlidingCounter),
}

impl View for Limiter {
    type V = LimiterView;

    open spec fn view(&self) -> LimiterView {
        match self {
            Limiter::TokenBucket(b) => LimiterView::TokenBucket(*b),
            Limiter::SlidingLog(l) => LimiterView::SlidingLog(l@),
            Limiter::SlidingCounter(c) => LimiterView::SlidingCounter(*c),
        }
    }
}

impl LimiterView {
    /// A new bucket of `kind` for a valid configuration.
    pub open spec fn fresh(kind: AlgorithmType, capacity: u64, refill_rate: u64, now: u64) -> LimiterView {
        match kind {
            AlgorithmType::TokenBucket => LimiterView::TokenBucket(
                TokenBucket {
                    max_capacity: capacity,
                    current_tokens: capacity,
                    refill_rate,
                    last_refill_time: now,
                    last_seen: now,
                },
            ),
            AlgorithmType::SlidingLog => LimiterView::SlidingLog(
                SlidingLogView {
                    capacity,
                    window: (refill_rate * NANOS_PER_SEC) as u64,
                    entries: Seq::empty(),
                    last_seen: now,
                },
            ),
            AlgorithmType::SlidingCounter => LimiterView::SlidingCounter(
                SlidingCounter {
                    capacity,
                    window: (refill_rate * NANOS_PER_SEC) as u64,
                    current_window_start: now,
                    current_count: 0,
                    previous_count: 0,
                    last_seen: now,
                },
            ),
        }
    }

    pub open spec fn wf(self) -> bool {
        match self {
            LimiterView::TokenBucket(b) => b.wf(),
            LimiterView::SlidingLog(l) => l.wf(),
            LimiterView::SlidingCounter(c) => c.wf(),
        }
    }

    pub open spec fn limit(self) -> u64 {
        match self {
            LimiterView::TokenBucket(b) => b.max_capacity,
            LimiterView::SlidingLog(l) => l.capacity,
            LimiterView::SlidingCounter(c) => c.capacity,
        }
    }

    pub open spec fn last_seen(self) -> u64 {
        match self {
            LimiterView::TokenBucket(b) => b.last_seen,
            LimiterView::SlidingLog(l) => l.last_seen,
            LimiterView::SlidingCounter(c) => c.last_seen,
        }
    }

    /// Whether the bucket has gone unseen for longer than `ttl` at `now`.
    pub open spec fn is_idle(self, ttl: u64, now: u64) -> bool {
        elapsed(self.last_seen(), now) > ttl
    }

    pub open spec fn with_last_seen(self, now: u64) -> LimiterView {
        match self {
            LimiterView::TokenBucket(b) => LimiterView::TokenBucket(
                TokenBucket { last_seen: now, ..b },
            ),
            LimiterView::SlidingLog(l) => LimiterView::SlidingLog(
                SlidingLogView { last_seen: now, ..l },
            ),
            LimiterView::SlidingCounter(c) => LimiterView::SlidingCounter(
                SlidingCounter { last_seen: now, ..c },
            ),
        }
    }

    pub open spec fn after_allow(self, now: u64) -> LimiterView {
        match self {
            LimiterView::TokenBucket(b) => LimiterView::TokenBucket(b.after_allow(now)),
            LimiterView::SlidingLog(l) => LimiterView::SlidingLog(l.after_allow(now)),
            LimiterView::SlidingCounter(c) => LimiterView::SlidingCounter(c.after_allow(now)),
        }
    }

    pub open spec fn allow_result(self, now: u64) -> AllowResult {
        match self {
            LimiterView::TokenBucket(b) => b.allow_result(now),
            LimiterView::SlidingLog(l) => l.allow_result(now),
            LimiterView::SlidingCounter(c) => c.allow_result(now),
        }
    }

    pub open spec fn snapshot(self, now: u64) -> BucketState {
        match self {
            LimiterView::TokenBucket(b) => b.snapshot(now),
            LimiterView::SlidingLog(l) => l.snapshot(now),
            LimiterView::SlidingCounter(c) => c.snapshot(now),
        }
    }
}

impl LimiterView {
    /// The bucket after one `allow` at each instant of `times`, in order.
    pub open spec fn after_allows(self, times: Seq<u64>) -> LimiterView
        decreases times.len(),
    {
        if times.len() == 0 {
            self
        } else {
            self.after_allow(times[0]).after_allows(times.drop_first())
        }
    }
}

/// One `allow` keeps any bucket well formed and its limit, and its snapshot
/// reports between zero and `limit` units left.
pub proof fn lemma_after_allow_wf(b: LimiterView, now: u64)
    requires
        b.wf(),
    ensures
        b.after_allow(now).wf(),
        b.after_allow(now).limit() == b.limit(),
        b.snapshot(now).limit == b.limit(),
        b.snapshot(now).remaining <= b.limit(),
{
    match b {
        LimiterView::TokenBucket(t) => lemma_refill_saturates(t, now),
        LimiterView::SlidingLog(l) => lemma_log_after_allow_wf(l, now),
        LimiterView::SlidingCounter(c) => lemma_counter_after_allow_wf(c, now),
    }
}

/// For every algorithm and every sequence of `allow` calls, the bucket stays
/// well formed and a snapshot taken afterwards, at any instant, reports
/// between zero and the configured limit units left.
pub proof fn lemma_capacity_invariant(b: LimiterView, times: Seq<u64>, now: u64)
    requires
        b.wf(),
    ensures
        b.after_allows(times).wf(),
        b.after_allows(times).limit() == b.limit(),
        b.after_allows(times).snapshot(now).limit == b.limit(),
        b.after_allows(times).snapshot(now).remaining <= b.limit(),
    decreases times.len(),
{
    if times.len() == 0 {
        lemma_after_allow_wf(b, now);
    } else {
        lemma_after_allow_wf(b, times[0]);
        lemma_capacity_invariant(b.after_allow(times[0]), times.drop_first(), now);
    }
}

/// After a check of `key` at `t`, a sweep `cleanup(ttl, now)` keeps the key
/// exactly when `now - t <= ttl`: an entry touched within the TTL survives and
/// one left untouched for longer is dropped.
pub proof fn lemma_sweep_after_check(
    before: RateLimiter,
    after: RateLimiter,
    key: Seq<char>,
    t: u64,
    ttl: u64,
    now: u64,
)
    requires
        before.wf(),
        before.checked(key, t, after),
    ensures
        live_keys(after.entries(), ttl, now).contains(key) <==> elapsed(t, now) <= ttl,
        after.entries().restrict(live_keys(after.entries(), ttl, now)).contains_key(key)
            <==> elapsed(t, now) <= ttl,
{
    let b = before.bucket_for(key, t).with_last_seen(t);
    assert(after.entries().contains_key(key));
    assert(after.entries()[key]@ == b.after_allow(t));
    assert(b.after_allow(t).last_seen() == t);
}

impl Limiter {
    /// A new bucket of `kind`; `refill_rate` is tokens per second for a token
    /// bucket and the window length in seconds for the windowed algorithms.
    pub fn new(kind: AlgorithmType, capacity: u64, refill_rate: u64, now: u64) -> (r: Result<Limiter, InvalidConfig>)
        ensures
            config_error(kind, capacity, refill_rate) is None ==> r is Ok && r->Ok_0@
                == LimiterView::fresh(kind, capacity, refill_rate, now),
            config_error(kind, capacity, refill_rate) matches Some(e) ==> r == Err::<
                Limiter,
                InvalidConfig,
            >(e),
    {
        match kind {
            AlgorithmType::TokenBucket => match TokenBucket::new(capacity, refill_rate, now) {
                Ok(b) => Ok(Limiter::TokenBucket(b)),
                Err(e) => Err(e),
            },
            AlgorithmType::SlidingLog => match SlidingLog::new(capacity, refill_rate, now) {
                Ok(l) => Ok(Limiter::SlidingLog(l)),
                Err(e) => Err(e),
            },
            AlgorithmType::SlidingCounter => match SlidingCounter::new(capacity, refill_rate, now) {
                Ok(c) => Ok(Limiter::SlidingCounter(c)),
                Err(e) => Err(e),
            },
        }
    }

    pub fn allow(&mut self, now: u64) -> (r: AllowResult)
        requires
            old(self)@.wf(),
        ensures
            final(self)@ == old(self)@.after_allow(now),
            r == old(self)@.allow_result(now),
            final(self)@.wf(),
    {
        match self {
            Limiter::TokenBucket(b) => b.allow(now),
            Limiter::SlidingLog(l) => l.allow(now),
            Limiter::SlidingCounter(c) => c.allow(now),
        }
    }

    pub fn state(&self, now: u64) -> (r: BucketState)
        requires
            self@.wf(),
        ensures
            r == self@.snapshot(now),
    {
        match self {
            Limiter::TokenBucket(b) => b.state(now),
            Limiter::SlidingLog(l) => l.state(now),
            Limiter::SlidingCounter(c) => c.state(now),
        }
    }

    pub fn last_seen(&self) -> (r: u64)
        ensures
            r == self@.last_seen(),
    {
        match self {
            Limiter::TokenBucket(b) => b.last_seen,
            Limiter::SlidingLog(l) => l.last_seen,
            Limiter::SlidingCounter(c) => c.last_seen,
        }
    }

    pub fn set_last_seen(&mut self, now: u64)
        ensures
            final(self)@ == old(self)@.with_last_seen(now),
    {
        match self {
            Limiter::TokenBucket(b) => b.last_seen = now,
            Limiter::SlidingLog(l) => l.last_seen = now,
            Limiter::SlidingCounter(c) => c.last_seen = now,
        }
    }

    /// Whether the bucket has been seen within `ttl` of `now`.
    pub fn is_live(&self, ttl: u64, now: u64) -> (r: bool)
        ensures
            r == !self@.is_idle(ttl, now),
    {
        !self.is_idle(ttl, now)
    }

    /// Whether the bucket has gone unseen for longer than `ttl` at `now`.
    pub fn is_idle(&self, ttl: u64, now: u64) -> (r: bool)
        ensures
            r == self@.is_idle(ttl, now),
    {
        let seen = self.last_seen();
        now >= seen && now - seen > ttl
    }
}

/// A denial by a manager: the retry hint (nanoseconds) and the bucket's
/// snapshot after the denied attempt.
#[derive(Clone, Copy, Debug, PartialEq, Eq, Structural)]
pub struct RateLimitError {
    pub retry_after: u64,
    pub snapshot: BucketState,
}

/// Keeps one bucket per key, created on the first check of the key and
/// dropped only by an idle sweep.
pub struct RateLimiter {
    buckets: DashMap<String, Limiter>,
    capacity: u64,
    refill_rate: u64,
    algorithm: AlgorithmType,
}

impl RateLimiter {
    /// The buckets by key.
    pub closed spec fn entries(self) -> Map<Seq<char>, Limiter> {
        bucket_map(self.buckets)
    }

    /// The capacity of every bucket.
    pub closed spec fn spec_capacity(self) -> u64 {
        self.capacity
    }

    /// The refill rate (or window length in seconds) of every bucket.
    pub closed spec fn spec_refill_rate(self) -> u64 {
        self.refill_rate
    }

    /// The algorithm of every bucket.
    pub closed spec fn spec_algorithm(self) -> AlgorithmType {
        self.algorithm
    }

    pub fn capacity(&self) -> (r: u64)
        ensures
            r == self.spec_capacity(),
    {
        self.capacity
    }

    pub fn refill_rate(&self) -> (r: u64)
        ensures
            r == self.spec_refill_rate(),
    {
        self.refill_rate
    }

    pub fn algorithm(&self) -> (r: AlgorithmType)
        ensures
            r == self.spec_algorithm(),
    {
        self.algorithm
    }

    pub open spec fn wf(self) -> bool {
        &&& config_error(self.spec_algorithm(), self.spec_capacity(), self.spec_refill_rate()) is None
        &&& forall|k: Seq<char>| #[trigger] self.entries().contains_key(k) ==> self.entries()[k]@.wf()
    }

    /// The bucket that a check of `key` at `now` starts from.
    pub open spec fn bucket_for(self, key: Seq<char>, now: u64) -> LimiterView {
        if self.entries().contains_key(key) {
            self.entries()[key]@
        } else {
            LimiterView::fresh(self.spec_algorithm(), self.spec_capacity(), self.spec_refill_rate(), now)
        }
    }

    /// The bucket of `key` after a check at `now`.
    pub open spec fn checked_bucket(self, key: Seq<char>, now: u64) -> LimiterView {
        self.bucket_for(key, now).with_last_seen(now).after_allow(now)
    }

    /// What a check of `key` at `now` returns.
    pub open spec fn check_result(self, key: Seq<char>, now: u64) -> Result<BucketState, RateLimitError> {
        let snapshot = self.checked_bucket(key, now).snapshot(now);
        match self.bucket_for(key, now).with_last_seen(now).allow_result(now) {
            AllowResult::Allowed => Ok(snapshot),
            AllowResult::Denied { retry_after } => Err(RateLimitError { retry_after, snapshot }),
        }
    }

    /// Whether `next` is this manager after a check of `key` at `now`.
    pub open spec fn checked(self, key: Seq<char>, now: u64, next: RateLimiter) -> bool {
        &&& next.spec_capacity() == self.spec_capacity()
        &&& next.spec_refill_rate() == self.spec_refill_rate()
        &&& next.spec_algorithm() == self.spec_algorithm()
        &&& next.entries() == self.entries().insert(key, next.entries()[key])
        &&& next.entries()[key]@ == self.checked_bucket(key, now)
    }

    /// An empty manager; the configuration is checked here, once, and
    /// rejected as [`Limiter::new`] would reject it.
    pub fn new(capacity: u64, refill_rate: u64, algorithm: AlgorithmType) -> (r: Result<RateLimiter, InvalidConfig>)
        ensures
            config_error(algorithm, capacity, refill_rate) is None ==> r is Ok && r->Ok_0.wf()
                && r->Ok_0.entries() == Map::<Seq<char>, Limiter>::empty()
                && r->Ok_0.spec_capacity() == capacity && r->Ok_0.spec_refill_rate() == refill_rate
                && r->Ok_0.spec_algorithm() == algorithm,
            config_error(algorithm, capacity, refill_rate) matches Some(e) ==> r == Err::<
                RateLimiter,
                InvalidConfig,
            >(e),
    {
        match check_config(algorithm, capacity, refill_rate) {
            Some(e) => Err(e),
            None => {
                let buckets = new_bucket_map();
                proof {
                    assert(bucket_map(buckets) =~= Map::<Seq<char>, Limiter>::empty());
                }
                Ok(RateLimiter { buckets, capacity, refill_rate, algorithm })
            },
        }
    }

    /// Admits or denies one request for `key` at `now`: finds or creates the
    /// key's bucket, stamps it as seen, and asks it.
    pub fn check(&mut self, key: String, now: u64) -> (r: Result<BucketState, RateLimitError>)
        requires
            old(self).wf(),
        ensures
            final(self).wf(),
            old(self).checked(key@, now, *final(self)),
            r == old(self).check_result(key@, now),
    {
        let existing = take_bucket(&mut self.buckets, &key);
        let mut bucket = match existing {
            Some(b) => b,
            None => {
                let created = Limiter::new(self.algorithm, self.capacity, self.refill_rate, now);
                match created {
                    Ok(b) => b,
                    Err(_) => {
                        proof {
                            assert(false);
                        }
                        return Err(RateLimitError {
                            retry_after: 0,
                            snapshot: BucketState { limit: 0, remaining: 0, reset_after: 0 },
                        });
                    },
                }
            },
        };
        bucket.set_last_seen(now);
        proof {
            let b = old(self).bucket_for(key@, now);
            assert(b.wf());
            assert(b.with_last_seen(now).wf());
        }
        let decision = bucket.allow(now);
        let snapshot = bucket.state(now);
        put_bucket(&mut self.buckets, key, bucket);
        proof {
            assert(self.entries() =~= old(self).entries().insert(key@, self.entries()[key@]));
        }
        match decision {
            AllowResult::Allowed => Ok(snapshot),
            AllowResult::Denied { retry_after } => Err(RateLimitError { retry_after, snapshot }),
        }
    }

    /// Drops every bucket that has gone unseen for longer than `ttl` at `now`.
    pub fn cleanup(&mut self, ttl: u64, now: u64)
        requires
            old(self).wf(),
        ensures
            final(self).wf(),
            final(self).entries() == old(self).entries().restrict(
                live_keys(old(self).entries(), ttl, now),
            ),
            final(self).spec_capacity() == old(self).spec_capacity(),
            final(self).spec_refill_rate() == old(self).spec_refill_rate(),
            final(self).spec_algorithm() == old(self).spec_algorithm(),
    {
        retain_live(&mut self.buckets, ttl, now);
        proof {
            assert forall|k: Seq<char>| #[trigger] self.entries().contains_key(k) implies self.entries()[k]@.wf() by {
                assert(old(self).entries().contains_key(k));
            }
        }
    }

    /// Whether `key` has a bucket.
    pub fn contains_key(&self, key: &String) -> (r: bool)
        ensures
            r == self.entries().contains_key(key@),
    {
        has_bucket(&self.buckets, key)
    }

    /// The number of buckets.
    pub fn len(&self) -> (r: usize)
        ensures
            r == self.entries().len(),
    {
        bucket_count(&self.buckets)
    }
}

} // verus!
