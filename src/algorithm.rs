use vstd::prelude::*;

verus! {

/// Nanoseconds in one second.
pub const NANOS_PER_SEC: u64 = 1_000_000_000;

/// Nanoseconds from `since` to `now`, or zero when `now` is not later.
pub open spec fn elapsed(since: u64, now: u64) -> nat {
    if now >= since {
        (now - since) as nat
    } else {
        0
    }
}

/// Nanoseconds from `since` to `now`, saturating at zero.
pub fn elapsed_between(since: u64, now: u64) -> (r: u64)
    ensures
        r == elapsed(since, now),
{
    if now >= since {
        now - since
    } else {
        0
    }
}

/// The outcome of one admission decision.
#[derive(Clone, Copy, Debug, PartialEq, Eq, Structural)]
pub enum AllowResult {
    /// The request was admitted and one unit of capacity consumed.
    Allowed,
    /// The request was rejected; `retry_after` (nanoseconds) is a hint of how
    /// long to wait before the next attempt.
    Denied { retry_after: u64 },
}

/// A snapshot of one bucket's capacity status.
#[derive(Clone, Copy, Debug, PartialEq, Eq, Structural)]
pub struct BucketState {
    /// The configured capacity.
    pub limit: u64,
    /// Units left after the current decision.
    pub remaining: u64,
    /// Nanoseconds until capacity is next guaranteed to grow.
    pub reset_after: u64,
}

/// Why a limiter configuration was rejected at construction time.
#[derive(Clone, Copy, Debug, PartialEq, Eq, Structural)]
pub enum InvalidConfig {
    /// The capacity is zero.
    ZeroCapacity,
    /// The refill rate (or the window length in seconds) is zero.
    ZeroRefillRate,
    /// The window, in nanoseconds, does not fit in a `u64`.
    WindowTooLong,
}

/// The uniform contract of an admission algorithm.
pub trait RateLimitAlgorithm: Sized {
    /// The algorithm's internal invariant.
    spec fn wf(&self) -> bool;

    /// The configured capacity.
    spec fn spec_limit(&self) -> u64;

    /// The most recent access time, for idle eviction.
    spec fn spec_last_seen(&self) -> u64;

    /// Why `new` rejects a configuration, if it does.
    spec fn rejection(capacity: u64, refill_rate: u64) -> Option<InvalidConfig>;

    /// Whether `self` is the instance that `new(capacity, refill_rate, now)`
    /// builds.
    spec fn is_fresh(&self, capacity: u64, refill_rate: u64, now: u64) -> bool;

    /// Whether `next` is `self` after `allow(now)`, and `r` its decision.
    spec fn allows_to(&self, now: u64, next: Self, r: AllowResult) -> bool;

    /// The snapshot that `state(now)` returns.
    spec fn spec_state(&self, now: u64) -> BucketState;

    /// Whether `next` is `self` with its last access set to `now`.
    spec fn seen_to(&self, now: u64, next: Self) -> bool;

    /// Builds an instance; a configuration is rejected exactly as `rejection`
    /// says.
    fn new(capacity: u64, refill_rate: u64, now: u64) -> (r: Result<Self, InvalidConfig>)
        ensures
            Self::rejection(capacity, refill_rate) matches Some(e) ==> r == Err::<Self, InvalidConfig>(e),
            Self::rejection(capacity, refill_rate) is None ==> r is Ok && r->Ok_0.wf()
                && r->Ok_0.is_fresh(capacity, refill_rate, now) && r->Ok_0.spec_limit() == capacity
                && r->Ok_0.spec_last_seen() == now,
    ;

    /// Decides on one request at `now`.
    fn allow(&mut self, now: u64) -> (r: AllowResult)
        requires
            old(self).wf(),
        ensures
            old(self).allows_to(now, *final(self), r),
            final(self).wf(),
            final(self).spec_limit() == old(self).spec_limit(),
    ;

    /// The capacity status at `now`.
    fn state(&self, now: u64) -> (r: BucketState)
        requires
            self.wf(),
        ensures
            r == self.spec_state(now),
            r.limit == self.spec_limit(),
            r.remaining <= r.limit,
    ;

    fn last_seen(&self) -> (r: u64)
        ensures
            r == self.spec_last_seen(),
    ;

    fn set_last_seen(&mut self, now: u64)
        requires
            old(self).wf(),
        ensures
            old(self).seen_to(now, *final(self)),
            final(self).wf(),
            final(self).spec_limit() == old(self).spec_limit(),
            final(self).spec_last_seen() == now,
    ;
}

} // verus!
