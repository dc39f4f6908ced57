use vstd::prelude::*;

use crate::tiers::Tier;

verus! {

/// The hooks through which the tier composition reports its decisions.
pub trait TierMetrics {
    /// The counters as they stand.
    spec fn counts(&self) -> GatewayMetrices;

    /// A request reached the rate limiter.
    fn record_request(&mut self)
        ensures
            final(self).counts() == old(self).counts().after_request(),
    ;

    /// `tier` denied a request.
    fn record_denied(&mut self, tier: Tier)
        ensures
            final(self).counts() == old(self).counts().after_denied(tier),
    ;

    /// Every tier admitted a request.
    fn record_allowed(&mut self)
        ensures
            final(self).counts() == old(self).counts().after_allowed(),
    ;
}

/// Running counters of the gateway's decisions; each wraps around at
/// `u64::MAX`.
#[derive(Clone, Copy, Debug, PartialEq, Eq, Structural)]
pub struct GatewayMetrices {
    pub total_requests: u64,
    pub total_rate_limited: u64,
    pub global_rate_limited: u64,
    pub route_rate_limited: u64,
    pub ip_rate_limited: u64,
    pub total_allowed: u64,
}

/// `n + 1`, wrapping around at `u64::MAX`.
pub open spec fn bumped(n: u64) -> u64 {
    if n == u64::MAX {
        0
    } else {
        (n + 1) as u64
    }
}

fn bump(n: u64) -> (r: u64)
    ensures
        r == bumped(n),
{
    if n == u64::MAX {
        0
    } else {
        n + 1
    }
}

impl GatewayMetrices {
    /// The counters after one more request.
    pub open spec fn after_request(self) -> GatewayMetrices {
        GatewayMetrices { total_requests: bumped(self.total_requests), ..self }
    }

    /// The counters after one more denial by `tier`: the total and the tier's
    /// own counter each grow by one.
    pub open spec fn after_denied(self, tier: Tier) -> GatewayMetrices {
        match tier {
            Tier::Global => GatewayMetrices {
                total_rate_limited: bumped(self.total_rate_limited),
                global_rate_limited: bumped(self.global_rate_limited),
                ..self
            },
            Tier::Route => GatewayMetrices {
                total_rate_limited: bumped(self.total_rate_limited),
                route_rate_limited: bumped(self.route_rate_limited),
                ..self
            },
            Tier::Ip => GatewayMetrices {
                total_rate_limited: bumped(self.total_rate_limited),
                ip_rate_limited: bumped(self.ip_rate_limited),
                ..self
            },
        }
    }

    /// The counters after one more request that every tier admitted.
    pub open spec fn after_allowed(self) -> GatewayMetrices {
        GatewayMetrices { total_allowed: bumped(self.total_allowed), ..self }
    }

    /// All counters at zero.
    pub fn new() -> (r: GatewayMetrices)
        ensures
            r == (GatewayMetrices {
                total_requests: 0,
                total_rate_limited: 0,
                global_rate_limited: 0,
                route_rate_limited: 0,
                ip_rate_limited: 0,
                total_allowed: 0,
            }),
    {
        GatewayMetrices {
            total_requests: 0,
            total_rate_limited: 0,
            global_rate_limited: 0,
            route_rate_limited: 0,
            ip_rate_limited: 0,
            total_allowed: 0,
        }
    }

    /// Counts one request.
    pub fn count_request(&mut self)
        ensures
            *final(self) == old(self).after_request(),
    {
        self.total_requests = bump(self.total_requests);
    }

    /// Counts one denial, in the total and in the tier's own counter.
    pub fn count_denied(&mut self, tier: Tier)
        ensures
            *final(self) == old(self).after_denied(tier),
    {
        self.total_rate_limited = bump(self.total_rate_limited);
        match tier {
            Tier::Global => self.global_rate_limited = bump(self.global_rate_limited),
            Tier::Route => self.route_rate_limited = bump(self.route_rate_limited),
            Tier::Ip => self.ip_rate_limited = bump(self.ip_rate_limited),
        }
    }

    /// Counts one request that every tier admitted.
    pub fn count_allowed(&mut self)
        ensures
            *final(self) == old(self).after_allowed(),
    {
        self.total_allowed = bump(self.total_allowed);
    }
}

impl TierMetrics for GatewayMetrices {
    open spec fn counts(&self) -> GatewayMetrices {
        *self
    }

    fn record_request(&mut self) {
        self.count_request();
    }

    fn record_denied(&mut self, tier: Tier) {
        self.count_denied(tier);
    }

    fn record_allowed(&mut self) {
        self.count_allowed();
    }
}

} // verus!
