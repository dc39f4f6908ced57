use gateway_core::algorithm::{AllowResult, BucketState, InvalidConfig, NANOS_PER_SEC};
use gateway_core::metrics::GatewayMetrices;
use gateway_core::rate_limiter::{AlgorithmType, Limiter, RateLimitError, RateLimiter};
use gateway_core::tiers::{effective_snapshot, Tier, TierDecision, TierLimiters};

const MILLI: u64 = 1_000_000;

fn key(s: &str) -> String {
    s.to_string()
}

#[test]
fn manager_creates_bucket_on_first_check() {
    let mut rl = RateLimiter::new(2, 1, AlgorithmType::TokenBucket).unwrap();
    assert_eq!(rl.len(), 0);
    assert!(!rl.contains_key(&key("a")));
    let s = rl.check(key("a"), 0).unwrap();
    assert_eq!(s, BucketState { limit: 2, remaining: 1, reset_after: NANOS_PER_SEC });
    assert!(rl.contains_key(&key("a")));
    assert_eq!(rl.len(), 1);
}

#[test]
fn manager_denial_carries_hint_and_snapshot() {
    let mut rl = RateLimiter::new(1, 2, AlgorithmType::TokenBucket).unwrap();
    assert!(rl.check(key("a"), 0).is_ok());
    let err = rl.check(key("a"), 100 * MILLI).unwrap_err();
    assert_eq!(
        err,
        RateLimitError {
            retry_after: 400 * MILLI,
            snapshot: BucketState { limit: 1, remaining: 0, reset_after: 400 * MILLI },
        }
    );
}

#[test]
fn manager_keys_are_independent() {
    let mut rl = RateLimiter::new(1, 1, AlgorithmType::SlidingLog).unwrap();
    assert!(rl.check(key("a"), 0).is_ok());
    assert!(rl.check(key("a"), 0).is_err());
    assert!(rl.check(key("b"), 0).is_ok());
    assert_eq!(rl.len(), 2);
}

#[test]
fn manager_uses_chosen_algorithm() {
    let mut rl = RateLimiter::new(2, 10, AlgorithmType::SlidingCounter).unwrap();
    assert!(rl.check(key("k"), 0).is_ok());
    assert!(rl.check(key("k"), 0).is_ok());
    let err = rl.check(key("k"), 3 * NANOS_PER_SEC).unwrap_err();
    assert_eq!(err.retry_after, 7 * NANOS_PER_SEC);
    assert_eq!(err.snapshot.remaining, 0);
}

#[test]
fn manager_rejects_bad_configuration() {
    assert_eq!(
        RateLimiter::new(0, 1, AlgorithmType::TokenBucket).err(),
        Some(InvalidConfig::ZeroCapacity)
    );
    assert_eq!(
        RateLimiter::new(1, 0, AlgorithmType::SlidingLog).err(),
        Some(InvalidConfig::ZeroRefillRate)
    );
    assert_eq!(
        RateLimiter::new(1, u64::MAX, AlgorithmType::SlidingCounter).err(),
        Some(InvalidConfig::WindowTooLong)
    );
    assert!(RateLimiter::new(1, u64::MAX, AlgorithmType::TokenBucket).is_ok());
}

#[test]
fn cleanup_evicts_idle_and_keeps_recent() {
    let mut rl = RateLimiter::new(5, 1, AlgorithmType::TokenBucket).unwrap();
    let ttl = 300 * NANOS_PER_SEC;
    assert!(rl.check(key("old"), 0).is_ok());
    assert!(rl.check(key("new"), 200 * NANOS_PER_SEC).is_ok());
    assert!(rl.check(key("edge"), 100 * NANOS_PER_SEC).is_ok());
    rl.cleanup(ttl, 400 * NANOS_PER_SEC);
    assert!(!rl.contains_key(&key("old")));
    assert!(rl.contains_key(&key("new")));
    assert!(rl.contains_key(&key("edge")));
    assert_eq!(rl.len(), 2);
    rl.cleanup(ttl, 400 * NANOS_PER_SEC + 1);
    assert!(!rl.contains_key(&key("edge")));
    assert_eq!(rl.len(), 1);
}

#[test]
fn evicted_key_starts_afresh() {
    let mut rl = RateLimiter::new(1, 1, AlgorithmType::SlidingLog).unwrap();
    assert!(rl.check(key("a"), 0).is_ok());
    assert!(rl.check(key("a"), 10).is_err());
    rl.cleanup(5, 100);
    assert!(!rl.contains_key(&key("a")));
    assert!(rl.check(key("a"), 100).is_ok());
}

#[test]
fn limiter_idle_check() {
    let mut b = Limiter::new(AlgorithmType::TokenBucket, 1, 1, 10).unwrap();
    assert!(!b.is_idle(5, 15));
    assert!(b.is_idle(5, 16));
    b.set_last_seen(20);
    assert_eq!(b.last_seen(), 20);
    assert!(!b.is_idle(0, 20));
    assert_eq!(b.allow(20), AllowResult::Allowed);
}

fn tiers(global: u64, route: u64, ip: u64) -> TierLimiters {
    TierLimiters {
        global: RateLimiter::new(global, 1, AlgorithmType::TokenBucket).unwrap(),
        route: RateLimiter::new(route, 1, AlgorithmType::TokenBucket).unwrap(),
        ip: RateLimiter::new(ip, 1, AlgorithmType::TokenBucket).unwrap(),
    }
}

#[test]
fn tiers_admit_with_most_constrained_snapshot() {
    let mut t = tiers(10, 3, 5);
    let mut m = GatewayMetrices::new();
    let d = t.check(key("users"), key("10.0.0.1"), 0, &mut m);
    assert_eq!(
        d,
        TierDecision::Admitted {
            snapshot: BucketState { limit: 3, remaining: 2, reset_after: NANOS_PER_SEC },
        }
    );
    assert_eq!((m.total_requests, m.total_allowed, m.total_rate_limited), (1, 1, 0));
}

#[test]
fn global_denial_leaves_other_tiers_untouched() {
    let mut t = tiers(1, 5, 5);
    let mut m = GatewayMetrices::new();
    assert!(matches!(t.check(key("r"), key("ip"), 0, &mut m), TierDecision::Admitted { .. }));
    let d = t.check(key("other"), key("ip2"), 0, &mut m);
    assert!(matches!(d, TierDecision::Denied { tier: Tier::Global, .. }));
    assert!(!t.route.contains_key(&key("other")));
    assert!(!t.ip.contains_key(&key("ip2")));
    assert_eq!(t.route.len(), 1);
    assert_eq!(t.ip.len(), 1);
    assert_eq!((m.total_requests, m.total_rate_limited, m.global_rate_limited), (2, 1, 1));
}

#[test]
fn route_denial_leaves_ip_tier_untouched() {
    let mut t = tiers(10, 1, 5);
    let mut m = GatewayMetrices::new();
    assert!(matches!(t.check(key("r"), key("a"), 0, &mut m), TierDecision::Admitted { .. }));
    let d = t.check(key("r"), key("b"), 0, &mut m);
    match d {
        TierDecision::Denied { tier, error } => {
            assert_eq!(tier, Tier::Route);
            assert_eq!(error.snapshot.limit, 1);
        }
        _ => panic!("expected a route denial"),
    }
    assert!(!t.ip.contains_key(&key("b")));
    assert_eq!(m.route_rate_limited, 1);
}

#[test]
fn ip_denial_is_reported() {
    let mut t = tiers(10, 10, 1);
    let mut m = GatewayMetrices::new();
    assert!(matches!(t.check(key("r"), key("a"), 0, &mut m), TierDecision::Admitted { .. }));
    let d = t.check(key("s"), key("a"), 0, &mut m);
    assert!(matches!(d, TierDecision::Denied { tier: Tier::Ip, .. }));
    assert_eq!((m.ip_rate_limited, m.total_rate_limited, m.total_allowed), (1, 1, 1));
}

#[test]
fn effective_snapshot_ties_go_to_earlier_tier() {
    let g = BucketState { limit: 1, remaining: 2, reset_after: 1 };
    let r = BucketState { limit: 2, remaining: 2, reset_after: 2 };
    let i = BucketState { limit: 3, remaining: 2, reset_after: 3 };
    assert_eq!(effective_snapshot(g, r, i), g);
    let i2 = BucketState { limit: 3, remaining: 1, reset_after: 3 };
    assert_eq!(effective_snapshot(g, r, i2), i2);
    let r2 = BucketState { limit: 2, remaining: 1, reset_after: 2 };
    assert_eq!(effective_snapshot(g, r2, i2), r2);
}

#[test]
fn metrics_counters_wrap() {
    let mut m = GatewayMetrices::new();
    m.total_requests = u64::MAX;
    m.count_request();
    assert_eq!(m.total_requests, 0);
    m.count_denied(Tier::Route);
    assert_eq!((m.total_rate_limited, m.route_rate_limited, m.global_rate_limited), (1, 1, 0));
    m.count_allowed();
    assert_eq!(m.total_allowed, 1);
}

#[test]
fn remaining_stays_within_limit_for_every_algorithm() {
    let kinds = [AlgorithmType::TokenBucket, AlgorithmType::SlidingLog, AlgorithmType::SlidingCounter];
    for kind in kinds {
        let mut b = Limiter::new(kind, 3, 1, 0).unwrap();
        let mut t: u64 = 0;
        for step in 0..200u64 {
            t += (step * 7_919 % 13) * 100 * MILLI;
            let _ = b.allow(t);
            let s = b.state(t);
            assert_eq!(s.limit, 3);
            assert!(s.remaining <= s.limit);
            let later = b.state(t + 1_000 * NANOS_PER_SEC);
            assert!(later.remaining <= later.limit);
        }
    }
}
