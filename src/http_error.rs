use vstd::prelude::*;

use crate::algorithm::{BucketState, NANOS_PER_SEC};
use crate::rate_limiter::RateLimitError;

verus! {

/// Nanoseconds in one millisecond.
pub const NANOS_PER_MILLI: u64 = 1_000_000;

/// The values that a rate-limited response carries.
#[derive(Clone, Copy, Debug, PartialEq, Eq, Structural)]
pub struct RateLimitHttpError {
    pub retry_after_ms: u64,
    pub ratelimit_limit: u64,
    pub ratelimit_remaining: u64,
    /// Whole seconds until the bucket's capacity next grows.
    pub ratelimit_reset: u64,
}

/// The values of the `RateLimit-Limit`, `RateLimit-Remaining` and
/// `RateLimit-Reset` headers for a snapshot; the reset is in whole seconds,
/// rounded down.
#[derive(Clone, Copy, Debug, PartialEq, Eq, Structural)]
pub struct RateLimitHeaders {
    pub limit: u64,
    pub remaining: u64,
    pub reset: u64,
}

/// `n / d`, rounded up.
pub open spec fn div_ceil(n: nat, d: nat) -> nat
    recommends
        d > 0,
{
    if n % d == 0 {
        n / d
    } else {
        n / d + 1
    }
}

impl RateLimitHeaders {
    pub fn from_snapshot(snapshot: &BucketState) -> (r: RateLimitHeaders)
        ensures
            r == (RateLimitHeaders {
                limit: snapshot.limit,
                remaining: snapshot.remaining,
                reset: snapshot.reset_after / NANOS_PER_SEC,
            }),
    {
        RateLimitHeaders {
            limit: snapshot.limit,
            remaining: snapshot.remaining,
            reset: snapshot.reset_after / NANOS_PER_SEC,
        }
    }
}

impl RateLimitHttpError {
    /// The response values of a denial: the retry hint in whole milliseconds
    /// (rounded down) and the denied bucket's snapshot.
    pub fn from_denial(err: &RateLimitError) -> (r: RateLimitHttpError)
        ensures
            r == (RateLimitHttpError {
                retry_after_ms: err.retry_after / NANOS_PER_MILLI,
                ratelimit_limit: err.snapshot.limit,
                ratelimit_remaining: err.snapshot.remaining,
                ratelimit_reset: err.snapshot.reset_after / NANOS_PER_SEC,
            }),
    {
        RateLimitHttpError {
            retry_after_ms: err.retry_after / NANOS_PER_MILLI,
            ratelimit_limit: err.snapshot.limit,
            ratelimit_remaining: err.snapshot.remaining,
            ratelimit_reset: err.snapshot.reset_after / NANOS_PER_SEC,
        }
    }

    /// The `Retry-After` value: the retry hint in whole seconds, rounded up.
    pub fn retry_after_secs(&self) -> (r: u64)
        ensures
            r == div_ceil(self.retry_after_ms as nat, 1000),
    {
        let whole = self.retry_after_ms / 1000;
        if self.retry_after_ms % 1000 == 0 {
            whole
        } else {
            whole + 1
        }
    }
}

} // verus!
