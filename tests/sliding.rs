use gateway_core::algorithm::{AllowResult, InvalidConfig, NANOS_PER_SEC};
use gateway_core::sliding_counter::SlidingCounter;
use gateway_core::sliding_log::SlidingLog;

const MILLI: u64 = 1_000_000;

#[test]
fn sliding_log_fills_then_denies_with_exact_wait() {
    let t0 = 50 * NANOS_PER_SEC;
    let mut log = SlidingLog::new(3, 10, t0).unwrap();
    for _ in 0..3 {
        assert_eq!(log.allow(t0), AllowResult::Allowed);
    }
    assert_eq!(log.allow(t0), AllowResult::Denied { retry_after: 10 * NANOS_PER_SEC });
    assert_eq!(
        log.allow(t0 + 4 * NANOS_PER_SEC),
        AllowResult::Denied { retry_after: 6 * NANOS_PER_SEC }
    );
    assert_eq!(log.entries.len(), 3);
}

#[test]
fn sliding_log_entry_leaves_exactly_at_window() {
    let t0 = 50 * NANOS_PER_SEC;
    let mut log = SlidingLog::new(1, 2, t0).unwrap();
    assert_eq!(log.allow(t0), AllowResult::Allowed);
    assert_eq!(log.allow(t0 + 2 * NANOS_PER_SEC - 1), AllowResult::Denied { retry_after: 1 });
    assert_eq!(log.allow(t0 + 2 * NANOS_PER_SEC), AllowResult::Allowed);
    assert_eq!(log.entries.len(), 1);
    assert_eq!(log.entries[0], t0 + 2 * NANOS_PER_SEC);
}

#[test]
fn sliding_log_state_counts_entries() {
    let t0 = 50 * NANOS_PER_SEC;
    let mut log = SlidingLog::new(4, 1, t0).unwrap();
    let empty = log.state(t0);
    assert_eq!((empty.limit, empty.remaining, empty.reset_after), (4, 4, 0));
    assert_eq!(log.allow(t0), AllowResult::Allowed);
    assert_eq!(log.allow(t0 + 100 * MILLI), AllowResult::Allowed);
    let s = log.state(t0 + 300 * MILLI);
    assert_eq!((s.limit, s.remaining, s.reset_after), (4, 2, 700 * MILLI));
    assert_eq!(log.state(t0 + 5 * NANOS_PER_SEC).reset_after, 0);
    assert_eq!(log.last_seen, t0 + 100 * MILLI);
}

#[test]
fn sliding_log_rejects_bad_settings() {
    assert_eq!(SlidingLog::new(0, 1, 0).unwrap_err(), InvalidConfig::ZeroCapacity);
    assert_eq!(SlidingLog::new(1, 0, 0).unwrap_err(), InvalidConfig::ZeroRefillRate);
    assert_eq!(SlidingLog::new(1, u64::MAX, 0).unwrap_err(), InvalidConfig::WindowTooLong);
    assert_eq!(SlidingLog::new(1, 18_446_744_073, 0).unwrap().window, 18_446_744_073 * NANOS_PER_SEC);
}

#[test]
fn sliding_counter_admits_up_to_capacity_in_first_window() {
    let t0 = 50 * NANOS_PER_SEC;
    let mut c = SlidingCounter::new(3, 10, t0).unwrap();
    for _ in 0..3 {
        assert_eq!(c.allow(t0 + NANOS_PER_SEC), AllowResult::Allowed);
    }
    assert_eq!(
        c.allow(t0 + 4 * NANOS_PER_SEC),
        AllowResult::Denied { retry_after: 6 * NANOS_PER_SEC }
    );
}

#[test]
fn sliding_counter_weights_previous_window() {
    let t0 = 50 * NANOS_PER_SEC;
    let mut c = SlidingCounter::new(4, 10, t0).unwrap();
    for _ in 0..4 {
        assert_eq!(c.allow(t0), AllowResult::Allowed);
    }
    // a new window starts at t1 with previous_count 4
    let t1 = t0 + 10 * NANOS_PER_SEC;
    assert_eq!(c.allow(t1), AllowResult::Denied { retry_after: 10 * NANOS_PER_SEC });
    assert_eq!(c.previous_count, 4);
    assert_eq!(c.current_count, 0);
    assert_eq!(c.current_window_start, t1);
    // halfway: effective = 4 * 0.5 = 2, two more fit
    let half = t1 + 5 * NANOS_PER_SEC;
    let s = c.state(half);
    assert_eq!((s.limit, s.remaining, s.reset_after), (4, 2, 5 * NANOS_PER_SEC));
    assert_eq!(c.allow(half), AllowResult::Allowed);
    assert_eq!(c.allow(half), AllowResult::Allowed);
    assert_eq!(c.allow(half), AllowResult::Denied { retry_after: 5 * NANOS_PER_SEC });
}

#[test]
fn sliding_counter_remaining_rounds_down() {
    let t0 = 50 * NANOS_PER_SEC;
    let mut c = SlidingCounter::new(5, 10, t0).unwrap();
    for _ in 0..3 {
        assert_eq!(c.allow(t0), AllowResult::Allowed);
    }
    let t1 = t0 + 10 * NANOS_PER_SEC;
    assert_eq!(c.allow(t1), AllowResult::Allowed);
    // effective at t1 + 2.5 s: 3 * 0.75 + 1 = 3.25, so 1.75 left: 1
    let s = c.state(t1 + 2_500 * MILLI);
    assert_eq!(s.remaining, 1);
    // after the whole window the previous count no longer weighs
    let late = c.state(t1 + 30 * NANOS_PER_SEC);
    assert_eq!((late.remaining, late.reset_after), (4, 0));
}

#[test]
fn sliding_counter_roll_window_shifts_counts() {
    let t0 = 50 * NANOS_PER_SEC;
    let mut c = SlidingCounter::new(5, 1, t0).unwrap();
    assert_eq!(c.allow(t0), AllowResult::Allowed);
    assert_eq!(c.allow(t0), AllowResult::Allowed);
    c.roll_window(t0 + 999 * MILLI);
    assert_eq!((c.previous_count, c.current_count), (0, 2));
    c.roll_window(t0 + NANOS_PER_SEC);
    assert_eq!((c.previous_count, c.current_count), (2, 0));
    assert_eq!(c.current_window_start, t0 + NANOS_PER_SEC);
}

#[test]
fn sliding_counter_rejects_bad_settings() {
    assert_eq!(SlidingCounter::new(0, 1, 0).unwrap_err(), InvalidConfig::ZeroCapacity);
    assert_eq!(SlidingCounter::new(1, 0, 0).unwrap_err(), InvalidConfig::ZeroRefillRate);
    assert_eq!(SlidingCounter::new(1, 18_446_744_074, 0).unwrap_err(), InvalidConfig::WindowTooLong);
}

#[test]
fn sliding_counter_roll_keeps_effective_count() {
    let t0 = 50 * NANOS_PER_SEC;
    let mut c = SlidingCounter::new(10, 10, t0).unwrap();
    for _ in 0..4 {
        assert_eq!(c.allow(t0), AllowResult::Allowed);
    }
    let boundary = t0 + 10 * NANOS_PER_SEC;
    assert_eq!(c.state(boundary - 1).remaining, 6);
    assert_eq!(c.state(boundary).remaining, 6);
    c.roll_window(boundary);
    assert_eq!(c.state(boundary).remaining, 6);
    assert_eq!(c.state(boundary + 1).remaining, 6);
}
