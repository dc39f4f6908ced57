use vstd::arithmetic::div_mod::{
    lemma_div_by_multiple, lemma_div_is_ordered, lemma_fundamental_div_mod,
};
use vstd::prelude::*;

use crate::algorithm::{
    elapsed, elapsed_between, AllowResult, BucketState, InvalidConfig, RateLimitAlgorithm,
    NANOS_PER_SEC,
};

verus! {

/// Continuous-refill admission: up to `max_capacity` tokens, refilled at
/// `refill_rate` tokens per second, lazily on each `allow`.
#[derive(Clone, Debug)]
pub struct TokenBucket {
    pub max_capacity: u64,
    pub current_tokens: u64,
    /// Tokens per second.
    pub refill_rate: u64,
    /// The instant up to which earned tokens have been credited.
    pub last_refill_time: u64,
    pub last_seen: u64,
}

/// Whole tokens earned in `elapsed` nanoseconds at `rate` tokens per second
/// (rounded down).
pub open spec fn earned_tokens(elapsed: nat, rate: nat) -> nat {
    (elapsed * rate / (NANOS_PER_SEC as nat)) as nat
}

/// Nanoseconds it takes to earn `tokens` at `rate` tokens per second (rounded
/// down).
pub open spec fn refill_span(tokens: nat, rate: nat) -> nat {
    (tokens * (NANOS_PER_SEC as nat) / rate) as nat
}

/// Nanoseconds needed to earn one token: the smallest span over which
/// `earned_tokens` reaches one.
pub open spec fn token_interval(rate: nat) -> nat {
    ((NANOS_PER_SEC as int + rate - 1) / (rate as int)) as nat
}

impl TokenBucket {
    pub open spec fn wf(&self) -> bool {
        &&& self.max_capacity > 0
        &&& self.refill_rate > 0
        &&& self.current_tokens <= self.max_capacity
    }

    /// The bucket after crediting the tokens earned up to `now`.
    pub open spec fn refilled(self, now: u64) -> TokenBucket {
        let earned = earned_tokens(elapsed(self.last_refill_time, now), self.refill_rate as nat);
        let space = (self.max_capacity - self.current_tokens) as nat;
        if earned == 0 || space == 0 {
            self
        } else if earned >= space {
            TokenBucket { current_tokens: self.max_capacity, last_refill_time: now, ..self }
        } else {
            TokenBucket {
                current_tokens: (self.current_tokens + earned) as u64,
                last_refill_time: (self.last_refill_time + refill_span(
                    earned,
                    self.refill_rate as nat,
                )) as u64,
                ..self
            }
        }
    }

    /// Nanoseconds until the next token, counted from `now`.
    pub open spec fn wait_for_token(self, now: u64) -> nat {
        let interval = token_interval(self.refill_rate as nat);
        let since = elapsed(self.last_refill_time, now);
        if since >= interval {
            0
        } else {
            (interval - since) as nat
        }
    }

    /// The bucket after an `allow` at `now`.
    pub open spec fn after_allow(self, now: u64) -> TokenBucket {
        let b = self.refilled(now);
        if b.current_tokens > 0 {
            TokenBucket { current_tokens: (b.current_tokens - 1) as u64, ..b }
        } else {
            b
        }
    }

    /// The decision of an `allow` at `now`.
    pub open spec fn allow_result(self, now: u64) -> AllowResult {
        let b = self.refilled(now);
        if b.current_tokens > 0 {
            AllowResult::Allowed
        } else {
            AllowResult::Denied { retry_after: b.wait_for_token(now) as u64 }
        }
    }

    /// The snapshot that `state(now)` returns.
    pub open spec fn snapshot(self, now: u64) -> BucketState {
        BucketState {
            limit: self.max_capacity,
            remaining: self.current_tokens,
            reset_after: if self.current_tokens == self.max_capacity {
                0
            } else {
                self.wait_for_token(now) as u64
            },
        }
    }

    /// A full bucket; a zero capacity or rate is rejected.
    pub fn new(max_capacity: u64, refill_rate: u64, now: u64) -> (r: Result<TokenBucket, InvalidConfig>)
        ensures
            max_capacity == 0 ==> r == Err::<TokenBucket, InvalidConfig>(InvalidConfig::ZeroCapacity),
            max_capacity > 0 && refill_rate == 0 ==> r == Err::<TokenBucket, InvalidConfig>(
                InvalidConfig::ZeroRefillRate,
            ),
            max_capacity > 0 && refill_rate > 0 ==> r == Ok::<TokenBucket, InvalidConfig>(
                (TokenBucket {
                    max_capacity,
                    current_tokens: max_capacity,
                    refill_rate,
                    last_refill_time: now,
                    last_seen: now,
                }),
            ),
    {
        if max_capacity == 0 {
            return Err(InvalidConfig::ZeroCapacity);
        }
        if refill_rate == 0 {
            return Err(InvalidConfig::ZeroRefillRate);
        }
        Ok(TokenBucket {
            max_capacity,
            current_tokens: max_capacity,
            refill_rate,
            last_refill_time: now,
            last_seen: now,
        })
    }

    fn token_interval_exec(&self) -> (r: u64)
        requires
            self.wf(),
        ensures
            r == token_interval(self.refill_rate as nat),
    {
        let rate = self.refill_rate;
        proof {
            let n = NANOS_PER_SEC as int;
            assert(n + rate - 1 <= n * rate) by (nonlinear_arith)
                requires
                    rate >= 1,
                    n >= 1,
            ;
            lemma_div_is_ordered(n + rate - 1, n * rate, rate as int);
            lemma_div_by_multiple(n, rate as int);
        }
        ((NANOS_PER_SEC as u128 + rate as u128 - 1) / rate as u128) as u64
    }

    fn wait_for_token_exec(&self, now: u64) -> (r: u64)
        requires
            self.wf(),
        ensures
            r == self.wait_for_token(now),
    {
        let interval = self.token_interval_exec();
        let since = elapsed_between(self.last_refill_time, now);
        if since >= interval {
            0
        } else {
            interval - since
        }
    }

    /// The capacity status at `now`; the bucket is not refilled.
    pub fn state(&self, now: u64) -> (r: BucketState)
        requires
            self.wf(),
        ensures
            r == self.snapshot(now),
    {
        let reset_after = if self.current_tokens == self.max_capacity {
            0
        } else {
            self.wait_for_token_exec(now)
        };
        BucketState { limit: self.max_capacity, remaining: self.current_tokens, reset_after }
    }

    /// Credits the tokens earned up to `now`.
    fn refill(&mut self, now: u64)
        requires
            old(self).wf(),
        ensures
            *final(self) == old(self).refilled(now),
            final(self).wf(),
    {
        let since = elapsed_between(self.last_refill_time, now);
        let rate = self.refill_rate;
        proof {
            assert((since as int) * (rate as int) <= (u64::MAX as int) * (u64::MAX as int))
                by (nonlinear_arith)
                requires
                    since <= u64::MAX,
                    rate <= u64::MAX,
            ;
        }
        let product: u128 = since as u128 * rate as u128;
        let earned: u128 = product / NANOS_PER_SEC as u128;
        let space: u64 = self.max_capacity - self.current_tokens;
        if earned == 0 || space == 0 {
            return;
        }
        if earned >= space as u128 {
            self.current_tokens = self.max_capacity;
            self.last_refill_time = now;
        } else {
            let added: u64 = earned as u64;
            proof {
                lemma_refill_span_bounded(since as nat, rate as nat);
            }
            let span: u128 = added as u128 * NANOS_PER_SEC as u128 / rate as u128;
            self.current_tokens = self.current_tokens + added;
            self.last_refill_time = self.last_refill_time + span as u64;
        }
    }

    /// Decides on one request at `now`: refills, then takes one token if any.
    pub fn allow(&mut self, now: u64) -> (r: AllowResult)
        requires
            old(self).wf(),
        ensures
            *final(self) == old(self).after_allow(now),
            r == old(self).allow_result(now),
            final(self).wf(),
    {
        self.refill(now);
        if self.current_tokens > 0 {
            self.current_tokens = self.current_tokens - 1;
            return AllowResult::Allowed;
        }
        let retry_after = self.wait_for_token_exec(now);
        AllowResult::Denied { retry_after }
    }
}

/// The span that credits the tokens earned over `since` nanoseconds never
/// exceeds `since`.
proof fn lemma_refill_span_bounded(since: nat, rate: nat)
    requires
        rate > 0,
    ensures
        refill_span(earned_tokens(since, rate), rate) <= since,
        earned_tokens(since, rate) * (NANOS_PER_SEC as nat) <= since * rate,
{
    let n = NANOS_PER_SEC as int;
    let p = (since * rate) as int;
    let e = p / n;
    lemma_fundamental_div_mod(p, n);
    assert(0 <= p % n);
    assert(e * n <= p) by (nonlinear_arith)
        requires
            p == n * e + p % n,
            p % n >= 0,
    ;
    lemma_div_is_ordered(e * n, p, rate as int);
    lemma_div_by_multiple(since as int, rate as int);
}

impl TokenBucket {
    /// The bucket after `n` calls of `allow` at the same instant `now`.
    pub open spec fn after_allows_at(self, now: u64, n: nat) -> TokenBucket
        decreases n,
    {
        if n == 0 {
            self
        } else {
            self.after_allow(now).after_allows_at(now, (n - 1) as nat)
        }
    }
}

/// A bucket refilled up to `last_refill_time` uses no new tokens: `k` calls at
/// that instant each take one of its tokens.
proof fn lemma_allows_without_refill(b: TokenBucket, k: nat)
    requires
        b.wf(),
        k <= b.current_tokens,
    ensures
        b.after_allows_at(b.last_refill_time, k) == (TokenBucket {
            current_tokens: (b.current_tokens - k) as u64,
            ..b
        }),
    decreases k,
{
    let t = b.last_refill_time;
    assert(earned_tokens(elapsed(t, t), b.refill_rate as nat) == 0);
    if k > 0 {
        let next = b.after_allow(t);
        assert(next == TokenBucket { current_tokens: (b.current_tokens - 1) as u64, ..b });
        lemma_allows_without_refill(next, (k - 1) as nat);
    }
}

/// A fresh bucket of capacity `capacity` admits exactly `capacity` calls at
/// the instant it was made, and denies the next one.
pub proof fn lemma_burst_then_deny(capacity: u64, refill_rate: u64, t0: u64)
    requires
        capacity > 0,
        refill_rate > 0,
    ensures
        ({
            let b = TokenBucket {
                max_capacity: capacity,
                current_tokens: capacity,
                refill_rate,
                last_refill_time: t0,
                last_seen: t0,
            };
            &&& forall|k: nat| k < capacity ==> #[trigger] b.after_allows_at(t0, k).allow_result(t0)
                == AllowResult::Allowed
            &&& b.after_allows_at(t0, capacity as nat).allow_result(t0) is Denied
        }),
{
    let b = TokenBucket {
        max_capacity: capacity,
        current_tokens: capacity,
        refill_rate,
        last_refill_time: t0,
        last_seen: t0,
    };
    assert(earned_tokens(elapsed(t0, t0), refill_rate as nat) == 0);
    assert forall|k: nat| k < capacity implies #[trigger] b.after_allows_at(t0, k).allow_result(t0)
        == AllowResult::Allowed by {
        lemma_allows_without_refill(b, k);
    }
    lemma_allows_without_refill(b, capacity as nat);
}

/// Refilling never takes the bucket past its capacity, and once the earned
/// tokens cover the free space the bucket is exactly full.
pub proof fn lemma_refill_saturates(b: TokenBucket, now: u64)
    requires
        b.wf(),
    ensures
        b.refilled(now).wf(),
        b.refilled(now).max_capacity == b.max_capacity,
        earned_tokens(elapsed(b.last_refill_time, now), b.refill_rate as nat) >= b.max_capacity
            - b.current_tokens ==> b.refilled(now).current_tokens == b.max_capacity,
        b.after_allow(now).wf(),
        b.after_allow(now).snapshot(now).remaining <= b.max_capacity,
{
}

impl TokenBucket {
    /// The bucket after one `allow` at each instant of `times`, in order.
    pub open spec fn after_allows(self, times: Seq<u64>) -> TokenBucket
        decreases times.len(),
    {
        if times.len() == 0 {
            self
        } else {
            self.after_allow(times[0]).after_allows(times.drop_first())
        }
    }
}

/// Refills never credit time beyond the call: the refill clock stays at or
/// before any instant that bounds it and the call.
proof fn lemma_refill_clock_bounded(b: TokenBucket, now: u64, bound: u64)
    requires
        b.wf(),
        b.last_refill_time <= bound,
        now <= bound,
    ensures
        b.after_allow(now).wf(),
        b.after_allow(now).max_capacity == b.max_capacity,
        b.after_allow(now).refill_rate == b.refill_rate,
        b.after_allow(now).last_refill_time <= bound,
{
    lemma_refill_span_bounded(elapsed(b.last_refill_time, now), b.refill_rate as nat);
}

proof fn lemma_refill_clock_bounded_all(b: TokenBucket, times: Seq<u64>, bound: u64)
    requires
        b.wf(),
        b.last_refill_time <= bound,
        forall|i: int| 0 <= i < times.len() ==> times[i] <= bound,
    ensures
        b.after_allows(times).wf(),
        b.after_allows(times).max_capacity == b.max_capacity,
        b.after_allows(times).refill_rate == b.refill_rate,
        b.after_allows(times).last_refill_time <= bound,
    decreases times.len(),
{
    if times.len() > 0 {
        lemma_refill_clock_bounded(b, times[0], bound);
        let rest = times.drop_first();
        assert forall|i: int| 0 <= i < rest.len() implies rest[i] <= bound by {
            assert(rest[i] == times[i + 1]);
        }
        lemma_refill_clock_bounded_all(b.after_allow(times[0]), rest, bound);
    }
}

/// Whatever calls a fresh bucket has seen up to `bound`, waiting from `bound`
/// for at least the time it takes to earn `capacity` tokens leaves its
/// snapshot within the limit, refills it exactly to `capacity` on the next
/// call, which is admitted, and leaves `capacity - 1` tokens.
pub proof fn lemma_full_after_long_wait(
    capacity: u64,
    refill_rate: u64,
    t0: u64,
    times: Seq<u64>,
    bound: u64,
    now: u64,
)
    requires
        capacity > 0,
        refill_rate > 0,
        t0 <= bound,
        forall|i: int| 0 <= i < times.len() ==> times[i] <= bound,
        bound <= now,
        (now - bound) * refill_rate >= capacity * NANOS_PER_SEC,
    ensures
        ({
            let b = TokenBucket {
                max_capacity: capacity,
                current_tokens: capacity,
                refill_rate,
                last_refill_time: t0,
                last_seen: t0,
            };
            let d = b.after_allows(times);
            &&& d.snapshot(now).limit == capacity
            &&& d.snapshot(now).remaining <= capacity
            &&& d.refilled(now).current_tokens == capacity
            &&& d.allow_result(now) == AllowResult::Allowed
            &&& d.after_allow(now).snapshot(now).remaining == capacity - 1
        }),
{
    let b = TokenBucket {
        max_capacity: capacity,
        current_tokens: capacity,
        refill_rate,
        last_refill_time: t0,
        last_seen: t0,
    };
    lemma_refill_clock_bounded_all(b, times, bound);
    let d = b.after_allows(times);
    let n = NANOS_PER_SEC as int;
    let e = elapsed(d.last_refill_time, now) as int;
    let w = (now - bound) as int;
    let r = refill_rate as int;
    assert(e >= w);
    assert(e * r >= w * r) by (nonlinear_arith)
        requires
            e >= w,
            r > 0,
    ;
    lemma_div_is_ordered(capacity * n, e * r, n);
    lemma_div_by_multiple(capacity as int, n);
}

impl RateLimitAlgorithm for TokenBucket {
    open spec fn wf(&self) -> bool {
        TokenBucket::wf(self)
    }

    open spec fn spec_limit(&self) -> u64 {
        self.max_capacity
    }

    open spec fn spec_last_seen(&self) -> u64 {
        self.last_seen
    }

    open spec fn rejection(capacity: u64, refill_rate: u64) -> Option<InvalidConfig> {
        if capacity == 0 {
            Some(InvalidConfig::ZeroCapacity)
        } else if refill_rate == 0 {
            Some(InvalidConfig::ZeroRefillRate)
        } else {
            None
        }
    }

    open spec fn is_fresh(&self, capacity: u64, refill_rate: u64, now: u64) -> bool {
        *self == TokenBucket {
            max_capacity: capacity,
            current_tokens: capacity,
            refill_rate,
            last_refill_time: now,
            last_seen: now,
        }
    }

    open spec fn allows_to(&self, now: u64, next: TokenBucket, r: AllowResult) -> bool {
        next == self.after_allow(now) && r == self.allow_result(now)
    }

    open spec fn spec_state(&self, now: u64) -> BucketState {
        self.snapshot(now)
    }

    open spec fn seen_to(&self, now: u64, next: TokenBucket) -> bool {
        next == TokenBucket { last_seen: now, ..*self }
    }

    fn new(capacity: u64, refill_rate: u64, now: u64) -> (r: Result<TokenBucket, InvalidConfig>) {
        TokenBucket::new(capacity, refill_rate, now)
    }

    fn allow(&mut self, now: u64) -> (r: AllowResult) {
        TokenBucket::allow(self, now)
    }

    fn state(&self, now: u64) -> (r: BucketState) {
        TokenBucket::state(self, now)
    }

    fn last_seen(&self) -> (r: u64) {
        self.last_seen
    }

    fn set_last_seen(&mut self, now: u64) {
        self.last_seen = now;
    }
}

} // verus!
