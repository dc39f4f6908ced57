use gateway_core::algorithm::{AllowResult, InvalidConfig, NANOS_PER_SEC};
use gateway_core::token_bucket::TokenBucket;

const MILLI: u64 = 1_000_000;

fn start() -> u64 {
    1_000 * NANOS_PER_SEC
}

fn allowed(r: AllowResult) -> bool {
    matches!(r, AllowResult::Allowed)
}

#[test]
fn lib_burst_test_pass() {
    let t0 = start();
    let mut bucket = TokenBucket::new(5, 5, t0).unwrap();

    for _ in 0..5 {
        assert!(allowed(bucket.allow(t0)));
    }
    assert!(!allowed(bucket.allow(t0)));
}

#[test]
fn lib_burst_test_fail() {
    let t0 = start();
    let mut bucket = TokenBucket::new(5, 5, t0).unwrap();
    for _ in 0..5 {
        assert!(allowed(bucket.allow(t0)));
    }
    assert!(!allowed(bucket.allow(t0)));
}

#[test]
fn lib_refill_after_correct_time() {
    let t0 = start();
    let mut bucket = TokenBucket::new(5, 5, t0).unwrap();
    for _ in 1..6 {
        assert!(allowed(bucket.allow(t0)));
    }
    assert!(!allowed(bucket.allow(t0)));
    assert!(allowed(bucket.allow(t0 + 200 * MILLI)));
}

#[test]
fn lib_no_refill_before_correct_time() {
    let t0 = start();
    let mut bucket = TokenBucket::new(5, 5, t0).unwrap();
    for _ in 1..6 {
        assert!(allowed(bucket.allow(t0)));
    }
    assert!(!allowed(bucket.allow(t0)));
    assert!(!allowed(bucket.allow(t0 + 100 * MILLI)));
}

#[test]
fn lib_refill_proportionally() {
    let mut t0 = start();
    let mut bucket = TokenBucket::new(10, 5, t0).unwrap();
    for _ in 0..10 {
        let _ = bucket.allow(t0);
    }
    // 1.4 s later: seven tokens
    t0 = t0 + 1_400 * MILLI;
    for _ in 0..7 {
        assert!(allowed(bucket.allow(t0)));
    }
    assert!(!allowed(bucket.allow(t0)));
}

#[test]
fn lib_do_not_exceed_capacity() {
    let mut t0 = start();
    let mut bucket = TokenBucket::new(5, 5, t0).unwrap();
    for _ in 0..5 {
        assert!(allowed(bucket.allow(t0)));
    }
    t0 = t0 + 100 * NANOS_PER_SEC;
    for _ in 0..5 {
        assert!(allowed(bucket.allow(t0)));
    }
    assert!(!allowed(bucket.allow(t0)));
}

#[test]
fn token_bucket_burst_test_pass() {
    let t0 = start();
    let mut bucket = TokenBucket::new(5, 5, t0).unwrap();

    for _ in 0..5 {
        assert!(matches!(bucket.allow(t0), AllowResult::Allowed));
    }
    assert!(matches!(bucket.allow(t0), AllowResult::Denied { .. }));
}

#[test]
fn token_bucket_burst_test_fail() {
    let t0 = start();
    let mut bucket = TokenBucket::new(5, 5, t0).unwrap();
    for _ in 0..5 {
        assert!(matches!(bucket.allow(t0), AllowResult::Allowed));
    }
    assert!(matches!(bucket.allow(t0), AllowResult::Denied { .. }))
}

#[test]
fn token_bucket_refill_after_correct_time() {
    let t0 = start();
    let mut bucket = TokenBucket::new(5, 5, t0).unwrap();
    for _ in 1..6 {
        assert!(matches!(bucket.allow(t0), AllowResult::Allowed));
    }
    assert!(matches!(bucket.allow(t0), AllowResult::Denied { .. }));
    assert!(matches!(bucket.allow(t0 + 200 * MILLI), AllowResult::Allowed));
}

#[test]
fn token_bucket_no_refill_before_correct_time() {
    let t0 = start();
    let mut bucket = TokenBucket::new(5, 5, t0).unwrap();
    for _ in 0..5 {
        assert!(matches!(bucket.allow(t0), AllowResult::Allowed));
    }
    assert!(matches!(bucket.allow(t0), AllowResult::Denied { .. }));
    assert!(matches!(bucket.allow(t0 + 100 * MILLI), AllowResult::Denied { .. }));
}

#[test]
fn token_bucket_refill_proportionally() {
    let mut t0 = start();
    let mut bucket = TokenBucket::new(10, 5, t0).unwrap();
    for _ in 0..10 {
        let _ = bucket.allow(t0);
    }
    t0 = t0 + 1_400 * MILLI;
    for _ in 0..7 {
        assert!(matches!(bucket.allow(t0), AllowResult::Allowed));
    }
    assert!(matches!(bucket.allow(t0), AllowResult::Denied { .. }));
}

#[test]
fn token_bucket_do_not_exceed_capacity() {
    let t0 = start();
    let mut bucket = TokenBucket::new(5, 5, t0).unwrap();
    for _ in 0..5 {
        assert!(matches!(bucket.allow(t0), AllowResult::Allowed));
    }
    assert!(matches!(bucket.allow(t0), AllowResult::Denied { .. }));
    let t1 = t0 + 100 * NANOS_PER_SEC;
    for _ in 0..5 {
        assert!(matches!(bucket.allow(t1), AllowResult::Allowed));
    }
    assert!(matches!(bucket.allow(t1), AllowResult::Denied { .. }));
}

#[test]
fn token_bucket_retry_hint_is_time_to_next_token() {
    let t0 = start();
    let mut bucket = TokenBucket::new(2, 5, t0).unwrap();
    assert_eq!(bucket.allow(t0), AllowResult::Allowed);
    assert_eq!(bucket.allow(t0), AllowResult::Allowed);
    assert_eq!(bucket.allow(t0), AllowResult::Denied { retry_after: 200 * MILLI });
    assert_eq!(bucket.allow(t0 + 150 * MILLI), AllowResult::Denied { retry_after: 50 * MILLI });
    assert_eq!(bucket.allow(t0 + 200 * MILLI), AllowResult::Allowed);
}

#[test]
fn token_bucket_partial_refill_keeps_fractional_credit() {
    let t0 = start();
    let mut bucket = TokenBucket::new(10, 5, t0).unwrap();
    for _ in 0..10 {
        assert_eq!(bucket.allow(t0), AllowResult::Allowed);
    }
    // 300 ms earn one token; 100 ms of credit stay for the next one
    assert_eq!(bucket.allow(t0 + 300 * MILLI), AllowResult::Allowed);
    assert_eq!(bucket.last_refill_time, t0 + 200 * MILLI);
    assert_eq!(bucket.allow(t0 + 400 * MILLI), AllowResult::Allowed);
    assert_eq!(bucket.allow(t0 + 400 * MILLI), AllowResult::Denied { retry_after: 200 * MILLI });
}

#[test]
fn token_bucket_full_refill_discards_leftover_time() {
    let t0 = start();
    let mut bucket = TokenBucket::new(3, 5, t0).unwrap();
    assert_eq!(bucket.allow(t0), AllowResult::Allowed);
    let later = t0 + 10 * NANOS_PER_SEC + 7;
    assert_eq!(bucket.allow(later), AllowResult::Allowed);
    assert_eq!(bucket.last_refill_time, later);
    assert_eq!(bucket.current_tokens, 2);
}

#[test]
fn token_bucket_state_reports_tokens_and_reset() {
    let t0 = start();
    let mut bucket = TokenBucket::new(4, 2, t0).unwrap();
    let full = bucket.state(t0);
    assert_eq!((full.limit, full.remaining, full.reset_after), (4, 4, 0));
    assert_eq!(bucket.allow(t0), AllowResult::Allowed);
    let s = bucket.state(t0 + 100 * MILLI);
    assert_eq!((s.limit, s.remaining, s.reset_after), (4, 3, 400 * MILLI));
}

#[test]
fn token_bucket_saturates_after_long_wait() {
    let t0 = start();
    let mut bucket = TokenBucket::new(5, 5, t0).unwrap();
    for _ in 0..5 {
        assert_eq!(bucket.allow(t0), AllowResult::Allowed);
    }
    let t1 = t0 + 1_000_000 * NANOS_PER_SEC;
    assert_eq!(bucket.allow(t1), AllowResult::Allowed);
    let s = bucket.state(t1);
    assert_eq!(s.remaining, 4);
    assert!(s.remaining <= s.limit);
}

#[test]
fn token_bucket_rejects_zero_settings() {
    assert_eq!(TokenBucket::new(0, 5, 0).unwrap_err(), InvalidConfig::ZeroCapacity);
    assert_eq!(TokenBucket::new(5, 0, 0).unwrap_err(), InvalidConfig::ZeroRefillRate);
}

#[test]
fn token_bucket_high_rate_fills_within_nanoseconds() {
    let t0 = start();
    let mut bucket = TokenBucket::new(3, 3_000_000_000, t0).unwrap();
    for _ in 0..3 {
        assert_eq!(bucket.allow(t0), AllowResult::Allowed);
    }
    assert_eq!(bucket.allow(t0), AllowResult::Denied { retry_after: 1 });
    assert_eq!(bucket.allow(t0 + 1), AllowResult::Allowed);
}
