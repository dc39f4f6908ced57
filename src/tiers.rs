use vstd::prelude::*;

use crate::algorithm::BucketState;
use crate::metrics::TierMetrics;
use crate::rate_limiter::{RateLimitError, RateLimiter};

verus! {

/// One independently configured rate-limiting scope.
#[derive(Clone, Copy, Debug, PartialEq, Eq, Structural)]
pub enum Tier {
    Global,
    Route,
    Ip,
}

/// The outcome of running a request through all tiers.
#[derive(Clone, Copy, Debug, PartialEq, Eq, Structural)]
pub enum TierDecision {
    /// Every tier admitted; `snapshot` is the most constrained tier's.
    Admitted { snapshot: BucketState },
    /// `tier` was the first to deny.
    Denied { tier: Tier, error: RateLimitError },
}

/// The snapshot with the least `remaining`; on a tie the earliest of
/// `global`, `route`, `ip`.
pub open spec fn least_remaining(global: BucketState, route: BucketState, ip: BucketState) -> BucketState {
    let first = if route.remaining < global.remaining {
        route
    } else {
        global
    };
    if ip.remaining < first.remaining {
        ip
    } else {
        first
    }
}

/// The snapshot with the least `remaining`; on a tie the earliest of
/// `global`, `route`, `ip`.
pub fn effective_snapshot(global: BucketState, route: BucketState, ip: BucketState) -> (r: BucketState)
    ensures
        r == least_remaining(global, route, ip),
        r.remaining <= global.remaining && r.remaining <= route.remaining && r.remaining
            <= ip.remaining,
{
    let first = if route.remaining < global.remaining {
        route
    } else {
        global
    };
    if ip.remaining < first.remaining {
        ip
    } else {
        first
    }
}

/// The key of the global tier's single bucket.
pub open spec fn global_key() -> Seq<char> {
    Seq::empty()
}

/// The three managers of a gateway: one global bucket, one bucket per route
/// label and one per client address.
pub struct TierLimiters {
    pub global: RateLimiter,
    pub route: RateLimiter,
    pub ip: RateLimiter,
}

/// When the global tier denies a request, the route and client tiers are
/// left exactly as they were; when the route tier denies, the client tier is.
pub proof fn lemma_denial_short_circuits(
    before: TierLimiters,
    route: Seq<char>,
    ip: Seq<char>,
    now: u64,
    after: TierLimiters,
    r: TierDecision,
)
    requires
        before.checked(route, ip, now, after, r),
    ensures
        r matches TierDecision::Denied { tier: Tier::Global, .. } ==> after.route == before.route
            && after.ip == before.ip,
        r matches TierDecision::Denied { tier: Tier::Route, .. } ==> after.ip == before.ip,
        before.global.check_result(global_key(), now) is Err ==> r matches TierDecision::Denied {
            tier: Tier::Global,
            ..
        },
{
}

impl TierLimiters {
    pub open spec fn wf(self) -> bool {
        self.global.wf() && self.route.wf() && self.ip.wf()
    }

    /// Whether `next` is what checking a request for `route` from `ip` at
    /// `now` leaves, and `r` what it returns: tiers are asked in the order
    /// global, route, ip, and a tier after a denial is not touched.
    pub open spec fn checked(
        self,
        route: Seq<char>,
        ip: Seq<char>,
        now: u64,
        next: TierLimiters,
        r: TierDecision,
    ) -> bool {
        &&& self.global.checked(global_key(), now, next.global)
        &&& match self.global.check_result(global_key(), now) {
            Err(e) => {
                &&& r == TierDecision::Denied { tier: Tier::Global, error: e }
                &&& next.route == self.route
                &&& next.ip == self.ip
            },
            Ok(g) => {
                &&& self.route.checked(route, now, next.route)
                &&& match self.route.check_result(route, now) {
                    Err(e) => {
                        &&& r == TierDecision::Denied { tier: Tier::Route, error: e }
                        &&& next.ip == self.ip
                    },
                    Ok(rs) => {
                        &&& self.ip.checked(ip, now, next.ip)
                        &&& match self.ip.check_result(ip, now) {
                            Err(e) => r == TierDecision::Denied { tier: Tier::Ip, error: e },
                            Ok(is) => r == TierDecision::Admitted {
                                snapshot: least_remaining(g, rs, is),
                            },
                        }
                    },
                }
            },
        }
    }

    /// Runs one request through the global, route and client tiers in that
    /// order, stopping at the first denial, and reports to `metrics`: every
    /// request, then either the denying tier or the admission.
    pub fn check<M: TierMetrics>(&mut self, route: String, ip: String, now: u64, metrics: &mut M) -> (r: TierDecision)
        requires
            old(self).wf(),
        ensures
            final(self).wf(),
            old(self).checked(route@, ip@, now, *final(self), r),
            final(metrics).counts() == (match r {
                TierDecision::Denied { tier, .. } => old(metrics).counts().after_request().after_denied(
                    tier,
                ),
                TierDecision::Admitted { .. } => old(metrics).counts().after_request().after_allowed(),
            }),
    {
        metrics.record_request();
        let global = match self.global.check(String::new(), now) {
            Ok(s) => s,
            Err(e) => {
                metrics.record_denied(Tier::Global);
                return TierDecision::Denied { tier: Tier::Global, error: e };
            },
        };
        let routed = match self.route.check(route, now) {
            Ok(s) => s,
            Err(e) => {
                metrics.record_denied(Tier::Route);
                return TierDecision::Denied { tier: Tier::Route, error: e };
            },
        };
        let client = match self.ip.check(ip, now) {
            Ok(s) => s,
            Err(e) => {
                metrics.record_denied(Tier::Ip);
                return TierDecision::Denied { tier: Tier::Ip, error: e };
            },
        };
        metrics.record_allowed();
        TierDecision::Admitted { snapshot: effective_snapshot(global, routed, client) }
    }
}

} // verus!
