use vstd::prelude::*;

use crate::algorithm::{
    elapsed, elapsed_between, AllowResult, BucketState, InvalidConfig, RateLimitAlgorithm,
    NANOS_PER_SEC,
};

verus! {

/// Approximate admission in constant memory: the count of the current window
/// plus the previous window's count weighted by the part of it that still
/// overlaps the trailing window.
///
/// The weighting assumes that the previous window's requests were spread
/// evenly, so near a window boundary it may admit somewhat more or fewer
/// requests than an exact log would.
#[derive(Clone, Copy, Debug)]
pub struct SlidingCounter {
    pub capacity: u64,
    /// The window length in nanoseconds.
    pub window: u64,
    pub current_window_start: u64,
    pub current_count: u64,
    pub previous_count: u64,
    pub last_seen: u64,
}

impl SlidingCounter {
    pub open spec fn wf(&self) -> bool {
        &&& self.capacity > 0
        &&& self.window > 0
        &&& self.current_count <= self.capacity
        &&& self.previous_count <= self.capacity
    }

    /// Nanoseconds into the current window at `now`, capped at one window: the
    /// interpolation weight is this over `window`, so it never exceeds one.
    pub open spec fn window_progress(self, now: u64) -> nat {
        let e = elapsed(self.current_window_start, now);
        if e >= self.window {
            self.window as nat
        } else {
            e
        }
    }

    /// The effective count at `now`, multiplied by `window`:
    /// `previous_count * (1 - weight) + current_count` with
    /// `weight = window_progress / window`.
    pub open spec fn scaled_effective(self, now: u64) -> int {
        self.previous_count * (self.window - self.window_progress(now)) + self.current_count
            * self.window
    }

    /// The counter after starting a new window at `now`, if the current one
    /// has run out.
    pub open spec fn rolled(self, now: u64) -> SlidingCounter {
        if elapsed(self.current_window_start, now) >= self.window {
            SlidingCounter {
                previous_count: self.current_count,
                current_count: 0,
                current_window_start: now,
                ..self
            }
        } else {
            self
        }
    }

    /// Whether the effective count at `now` is below the capacity.
    pub open spec fn has_room(self, now: u64) -> bool {
        self.scaled_effective(now) < self.capacity * self.window
    }

    /// The counter after an `allow` at `now`.
    pub open spec fn after_allow(self, now: u64) -> SlidingCounter {
        let r = SlidingCounter { last_seen: now, ..self.rolled(now) };
        if r.has_room(now) {
            SlidingCounter { current_count: (r.current_count + 1) as u64, ..r }
        } else {
            r
        }
    }

    /// The decision of an `allow` at `now`.
    pub open spec fn allow_result(self, now: u64) -> AllowResult {
        let r = self.rolled(now);
        if r.has_room(now) {
            AllowResult::Allowed
        } else {
            AllowResult::Denied {
                retry_after: (r.window - elapsed(r.current_window_start, now)) as u64,
            }
        }
    }

    /// The snapshot that `state(now)` returns: the whole units left below the
    /// capacity, and the time left in the current window.
    pub open spec fn snapshot(self, now: u64) -> BucketState {
        let e = elapsed(self.current_window_start, now);
        BucketState {
            limit: self.capacity,
            remaining: if self.has_room(now) {
                ((self.capacity * self.window - self.scaled_effective(now)) / (self.window as int)) as u64
            } else {
                0
            },
            reset_after: if e >= self.window {
                0
            } else {
                (self.window - e) as u64
            },
        }
    }

    /// An empty counter whose window is `window_seconds` long; a zero capacity
    /// or window is rejected, and so is a window whose length in nanoseconds
    /// does not fit in a `u64`.
    pub fn new(capacity: u64, window_seconds: u64, now: u64) -> (r: Result<SlidingCounter, InvalidConfig>)
        ensures
            capacity == 0 ==> r == Err::<SlidingCounter, InvalidConfig>(InvalidConfig::ZeroCapacity),
            capacity > 0 && window_seconds == 0 ==> r == Err::<SlidingCounter, InvalidConfig>(
                InvalidConfig::ZeroRefillRate,
            ),
            capacity > 0 && window_seconds > 0 && window_seconds * NANOS_PER_SEC > u64::MAX ==> r
                == Err::<SlidingCounter, InvalidConfig>(InvalidConfig::WindowTooLong),
            capacity > 0 && window_seconds > 0 && window_seconds * NANOS_PER_SEC <= u64::MAX ==> r
                == Ok::<SlidingCounter, InvalidConfig>(
                (SlidingCounter {
                    capacity,
                    window: (window_seconds * NANOS_PER_SEC) as u64,
                    current_window_start: now,
                    current_count: 0,
                    previous_count: 0,
                    last_seen: now,
                }),
            ),
    {
        if capacity == 0 {
            return Err(InvalidConfig::ZeroCapacity);
        }
        if window_seconds == 0 {
            return Err(InvalidConfig::ZeroRefillRate);
        }
        if window_seconds > u64::MAX / NANOS_PER_SEC {
            proof {
                assert(window_seconds * NANOS_PER_SEC > u64::MAX) by (nonlinear_arith)
                    requires
                        window_seconds > u64::MAX / NANOS_PER_SEC,
                ;
            }
            return Err(InvalidConfig::WindowTooLong);
        }
        proof {
            assert(window_seconds * NANOS_PER_SEC <= u64::MAX) by (nonlinear_arith)
                requires
                    window_seconds <= u64::MAX / NANOS_PER_SEC,
            ;
        }
        Ok(SlidingCounter {
            capacity,
            window: window_seconds * NANOS_PER_SEC,
            current_window_start: now,
            current_count: 0,
            previous_count: 0,
            last_seen: now,
        })
    }

    /// Starts a new window at `now` if the current one has run out; the count
    /// of the window that ended becomes the previous count.
    pub fn roll_window(&mut self, now: u64)
        requires
            old(self).wf(),
        ensures
            *final(self) == old(self).rolled(now),
            final(self).wf(),
    {
        if elapsed_between(self.current_window_start, now) >= self.window {
            self.previous_count = self.current_count;
            self.current_count = 0;
            self.current_window_start = now;
        }
    }

    /// `previous_count * (window - window_progress)` and, when the current
    /// count is below the capacity, `(capacity - current_count) * window`: the
    /// two sides of `scaled_effective < capacity * window`.
    fn weighted_sides(&self, now: u64) -> (r: (u128, Option<u128>))
        requires
            self.wf(),
        ensures
            r.0 == self.previous_count * (self.window - self.window_progress(now)),
            self.current_count < self.capacity ==> r.1 is Some && r.1->Some_0 == (self.capacity
                - self.current_count) * self.window,
            self.current_count >= self.capacity ==> r.1 is None,
    {
        let e = elapsed_between(self.current_window_start, now);
        let progress = if e >= self.window {
            self.window
        } else {
            e
        };
        let rest: u64 = self.window - progress;
        proof {
            assert(self.previous_count * rest <= u64::MAX * u64::MAX) by (nonlinear_arith)
                requires
                    self.previous_count <= u64::MAX,
                    rest <= u64::MAX,
            ;
        }
        let lhs: u128 = self.previous_count as u128 * rest as u128;
        if self.current_count < self.capacity {
            let free: u64 = self.capacity - self.current_count;
            proof {
                assert(free * self.window <= u64::MAX * u64::MAX) by (nonlinear_arith)
                    requires
                        free <= u64::MAX,
                        self.window <= u64::MAX,
                ;
            }
            (lhs, Some(free as u128 * self.window as u128))
        } else {
            (lhs, None)
        }
    }

    /// Decides on one request at `now`: rolls the window, then admits the
    /// request if the effective count is below the capacity.
    pub fn allow(&mut self, now: u64) -> (r: AllowResult)
        requires
            old(self).wf(),
        ensures
            *final(self) == old(self).after_allow(now),
            r == old(self).allow_result(now),
            final(self).wf(),
    {
        self.last_seen = now;
        self.roll_window(now);
        let (lhs, rhs) = self.weighted_sides(now);
        let room = match rhs {
            Some(v) => lhs < v,
            None => false,
        };
        proof {
            lemma_room_iff(*self, now);
        }
        if room {
            self.current_count = self.current_count + 1;
            AllowResult::Allowed
        } else {
            let retry_after = self.window - elapsed_between(self.current_window_start, now);
            AllowResult::Denied { retry_after }
        }
    }

    /// The capacity status at `now`; the window is not rolled.
    pub fn state(&self, now: u64) -> (r: BucketState)
        requires
            self.wf(),
        ensures
            r == self.snapshot(now),
            r.remaining <= r.limit,
    {
        let (lhs, rhs) = self.weighted_sides(now);
        proof {
            lemma_room_iff(*self, now);
        }
        let remaining: u64 = match rhs {
            Some(v) => {
                if lhs < v {
                    proof {
                        lemma_remaining_bounded(*self, now);
                    }
                    ((v - lhs) / self.window as u128) as u64
                } else {
                    0
                }
            },
            None => 0,
        };
        let e = elapsed_between(self.current_window_start, now);
        let reset_after = if e >= self.window {
            0
        } else {
            self.window - e
        };
        BucketState { limit: self.capacity, remaining, reset_after }
    }
}

/// Starting a new window does not change the effective count: at the moment
/// of the roll the previous window's weight has reached zero on the old
/// counts and is whole on the new ones.
pub proof fn lemma_roll_is_continuous(c: SlidingCounter, now: u64)
    requires
        c.wf(),
    ensures
        c.rolled(now).scaled_effective(now) == c.scaled_effective(now),
{
    if elapsed(c.current_window_start, now) >= c.window {
        let w = c.window as int;
        assert(c.previous_count * (w - w) == 0) by (nonlinear_arith);
        assert(0 * w == 0) by (nonlinear_arith);
    }
}

/// Within one window the effective count falls steadily as time passes: from
/// `t1` to a later `t2` it drops by at most `previous_count` per window length
/// elapsed, so it has no jumps.
pub proof fn lemma_effective_is_lipschitz(c: SlidingCounter, t1: u64, t2: u64)
    requires
        c.wf(),
        t1 <= t2,
    ensures
        0 <= c.scaled_effective(t1) - c.scaled_effective(t2) <= c.previous_count * (t2 - t1),
{
    let at1 = c.window_progress(t1) as int;
    let at2 = c.window_progress(t2) as int;
    let w = c.window as int;
    let prev = c.previous_count as int;
    assert(0 <= at2 - at1 <= t2 - t1);
    assert(prev * (w - at1) - prev * (w - at2) == prev * (at2 - at1)) by (nonlinear_arith);
    assert(0 <= prev * (at2 - at1) <= prev * (t2 - t1)) by (nonlinear_arith)
        requires
            0 <= at2 - at1 <= t2 - t1,
            prev >= 0,
    ;
}

/// Allowing keeps the counter well formed and its capacity, and a snapshot
/// never reports more room than the capacity.
pub proof fn lemma_counter_after_allow_wf(c: SlidingCounter, now: u64)
    requires
        c.wf(),
    ensures
        c.after_allow(now).wf(),
        c.after_allow(now).capacity == c.capacity,
        c.snapshot(now).remaining <= c.capacity,
{
    let r = SlidingCounter { last_seen: now, ..c.rolled(now) };
    lemma_room_iff(r, now);
    if c.has_room(now) {
        lemma_remaining_bounded(c, now);
    }
}

/// `has_room` is the comparison that `weighted_sides` prepares.
proof fn lemma_room_iff(c: SlidingCounter, now: u64)
    requires
        c.wf(),
    ensures
        c.has_room(now) <==> (c.current_count < c.capacity && c.previous_count * (c.window
            - c.window_progress(now)) < (c.capacity - c.current_count) * c.window),
{
    vstd::arithmetic::mul::lemma_mul_nonnegative(
        c.previous_count as int,
        c.window - c.window_progress(now),
    );
    assert(c.capacity * c.window - c.current_count * c.window == (c.capacity - c.current_count)
        * c.window) by (nonlinear_arith);
    if c.current_count >= c.capacity {
        assert(c.current_count * c.window >= c.capacity * c.window) by (nonlinear_arith)
            requires
                c.current_count >= c.capacity,
                c.window > 0,
        ;
    }
}

/// The whole units left below the capacity never exceed the capacity.
proof fn lemma_remaining_bounded(c: SlidingCounter, now: u64)
    requires
        c.wf(),
        c.has_room(now),
    ensures
        (c.capacity - c.current_count) * c.window - c.previous_count * (c.window
            - c.window_progress(now)) == c.capacity * c.window - c.scaled_effective(now),
        0 <= (c.capacity * c.window - c.scaled_effective(now)) / (c.window as int) <= c.capacity,
{
    let w = c.window as int;
    vstd::arithmetic::mul::lemma_mul_nonnegative(
        c.previous_count as int,
        c.window - c.window_progress(now),
    );
    assert(c.capacity * c.window - c.current_count * c.window == (c.capacity - c.current_count)
        * c.window) by (nonlinear_arith);
    vstd::arithmetic::mul::lemma_mul_nonnegative(c.current_count as int, c.window as int);
    let d = c.capacity * c.window - c.scaled_effective(now);
    assert(0 <= d <= c.capacity * w);
    vstd::arithmetic::div_mod::lemma_div_is_ordered(d, c.capacity * w, w);
    vstd::arithmetic::div_mod::lemma_div_by_multiple(c.capacity as int, w);
    vstd::arithmetic::div_mod::lemma_div_is_ordered(0, d, w);
}

impl RateLimitAlgorithm for SlidingCounter {
    open spec fn wf(&self) -> bool {
        SlidingCounter::wf(self)
    }

    open spec fn spec_limit(&self) -> u64 {
        self.capacity
    }

    open spec fn spec_last_seen(&self) -> u64 {
        self.last_seen
    }

    open spec fn rejection(capacity: u64, refill_rate: u64) -> Option<InvalidConfig> {
        if capacity == 0 {
            Some(InvalidConfig::ZeroCapacity)
        } else if refill_rate == 0 {
            Some(InvalidConfig::ZeroRefillRate)
        } else if refill_rate * NANOS_PER_SEC > u64::MAX {
            Some(InvalidConfig::WindowTooLong)
        } else {
            None
        }
    }

    open spec fn is_fresh(&self, capacity: u64, refill_rate: u64, now: u64) -> bool {
        *self == SlidingCounter {
            capacity,
            window: (refill_rate * NANOS_PER_SEC) as u64,
            current_window_start: now,
            current_count: 0,
            previous_count: 0,
            last_seen: now,
        }
    }

    open spec fn allows_to(&self, now: u64, next: SlidingCounter, r: AllowResult) -> bool {
        next == self.after_allow(now) && r == self.allow_result(now)
    }

    open spec fn spec_state(&self, now: u64) -> BucketState {
        self.snapshot(now)
    }

    open spec fn seen_to(&self, now: u64, next: SlidingCounter) -> bool {
        next == SlidingCounter { last_seen: now, ..*self }
    }

    fn new(capacity: u64, refill_rate: u64, now: u64) -> (r: Result<SlidingCounter, InvalidConfig>) {
        SlidingCounter::new(capacity, refill_rate, now)
    }

    fn allow(&mut self, now: u64) -> (r: AllowResult) {
        SlidingCounter::allow(self, now)
    }

    fn state(&self, now: u64) -> (r: BucketState) {
        SlidingCounter::state(self, now)
    }

    fn last_seen(&self) -> (r: u64) {
        self.last_seen
    }

    fn set_last_seen(&mut self, now: u64) {
        self.last_seen = now;
    }
}

} // verus!
