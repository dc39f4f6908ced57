use std::collections::VecDeque;
use vstd::prelude::*;

use crate::algorithm::{
    elapsed, elapsed_between, AllowResult, BucketState, InvalidConfig, RateLimitAlgorithm,
    NANOS_PER_SEC,
};

verus! {

/// Exact admission over a trailing window: the log holds the instants of the
/// admitted requests, oldest first. Its memory grows with the capacity.
#[derive(Debug)]
pub struct SlidingLog {
    pub capacity: u64,
    /// The window length in nanoseconds.
    pub window: u64,
    pub entries: VecDeque<u64>,
    pub last_seen: u64,
}

/// The mathematical content of a [`SlidingLog`].
pub struct SlidingLogView {
    pub capacity: u64,
    pub window: u64,
    pub entries: Seq<u64>,
    pub last_seen: u64,
}

/// Whether an entry admitted at `entry` has left the window at `now`.
pub open spec fn expired(entry: u64, now: u64, window: u64) -> bool {
    elapsed(entry, now) >= window
}

/// The log after dropping expired entries from its head; dropping stops at the
/// first entry still inside the window.
pub open spec fn trimmed(entries: Seq<u64>, now: u64, window: u64) -> Seq<u64>
    decreases entries.len(),
{
    if entries.len() > 0 && expired(entries[0], now, window) {
        trimmed(entries.drop_first(), now, window)
    } else {
        entries
    }
}

/// The number of nanoseconds in `seconds`, when it fits in a `u64`.
pub open spec fn window_nanos(seconds: u64) -> nat {
    (seconds * NANOS_PER_SEC) as nat
}

impl View for SlidingLog {
    type V = SlidingLogView;

    open spec fn view(&self) -> SlidingLogView {
        SlidingLogView {
            capacity: self.capacity,
            window: self.window,
            entries: self.entries@,
            last_seen: self.last_seen,
        }
    }
}

impl SlidingLogView {
    pub open spec fn wf(self) -> bool {
        &&& self.capacity > 0
        &&& self.window > 0
        &&& self.entries.len() <= self.capacity
    }

    /// Nanoseconds until the oldest entry leaves the window, or zero.
    pub open spec fn oldest_wait(self, now: u64) -> nat {
        if self.entries.len() == 0 || elapsed(self.entries[0], now) >= self.window {
            0
        } else {
            (self.window - elapsed(self.entries[0], now)) as nat
        }
    }

    /// The log after an `allow` at `now`.
    pub open spec fn after_allow(self, now: u64) -> SlidingLogView {
        let kept = trimmed(self.entries, now, self.window);
        SlidingLogView {
            entries: if kept.len() < self.capacity {
                kept.push(now)
            } else {
                kept
            },
            last_seen: now,
            ..self
        }
    }

    /// The decision of an `allow` at `now`.
    pub open spec fn allow_result(self, now: u64) -> AllowResult {
        let kept = trimmed(self.entries, now, self.window);
        if kept.len() < self.capacity {
            AllowResult::Allowed
        } else {
            AllowResult::Denied { retry_after: (self.window - elapsed(kept[0], now)) as u64 }
        }
    }

    /// The snapshot that `state(now)` returns.
    pub open spec fn snapshot(self, now: u64) -> BucketState {
        BucketState {
            limit: self.capacity,
            remaining: (self.capacity - self.entries.len()) as u64,
            reset_after: self.oldest_wait(now) as u64,
        }
    }
}

/// Trimming keeps a suffix of the log, every dropped entry had expired, and
/// the first kept entry, if any, has not.
pub proof fn lemma_trimmed_suffix(entries: Seq<u64>, now: u64, window: u64)
    ensures
        trimmed(entries, now, window).len() <= entries.len(),
        trimmed(entries, now, window) =~= entries.subrange(
            entries.len() - trimmed(entries, now, window).len(),
            entries.len() as int,
        ),
        forall|i: int|
            0 <= i < entries.len() - trimmed(entries, now, window).len() ==> expired(
                #[trigger] entries[i],
                now,
                window,
            ),
        trimmed(entries, now, window).len() > 0 ==> !expired(
            trimmed(entries, now, window)[0],
            now,
            window,
        ),
    decreases entries.len(),
{
    if entries.len() > 0 && expired(entries[0], now, window) {
        let rest = entries.drop_first();
        lemma_trimmed_suffix(rest, now, window);
        assert forall|i: int|
            0 <= i < entries.len() - trimmed(entries, now, window).len() implies expired(
                #[trigger] entries[i],
                now,
                window,
            ) by {
            if i > 0 {
                assert(entries[i] == rest[i - 1]);
            }
        }
    }
}

impl SlidingLogView {
    /// The log after `n` calls of `allow` at the same instant `now`.
    pub open spec fn after_allows_at(self, now: u64, n: nat) -> SlidingLogView
        decreases n,
    {
        if n == 0 {
            self
        } else {
            self.after_allow(now).after_allows_at(now, (n - 1) as nat)
        }
    }
}

/// Allowing keeps the log well formed and its capacity.
pub proof fn lemma_log_after_allow_wf(l: SlidingLogView, now: u64)
    requires
        l.wf(),
    ensures
        l.after_allow(now).wf(),
        l.after_allow(now).capacity == l.capacity,
        l.snapshot(now).remaining <= l.capacity,
{
    lemma_trimmed_suffix(l.entries, now, l.window);
}

/// `k` calls at `t0` on a log that holds only entries of `t0` append `t0`
/// each time while there is room.
proof fn lemma_log_fill(l: SlidingLogView, t0: u64, k: nat)
    requires
        l.wf(),
        l.entries.len() + k <= l.capacity,
        forall|i: int| 0 <= i < l.entries.len() ==> l.entries[i] == t0,
    ensures
        l.after_allows_at(t0, k) == (SlidingLogView {
            entries: l.entries + Seq::new(k, |i: int| t0),
            last_seen: if k == 0 {
                l.last_seen
            } else {
                t0
            },
            ..l
        }),
    decreases k,
{
    if l.entries.len() > 0 {
        assert(!expired(l.entries[0], t0, l.window));
    }
    assert(trimmed(l.entries, t0, l.window) == l.entries);
    if k == 0 {
        assert(l.entries + Seq::new(0, |i: int| t0) =~= l.entries);
    } else {
        let next = l.after_allow(t0);
        assert(next.entries == l.entries.push(t0));
        lemma_log_fill(next, t0, (k - 1) as nat);
        assert(next.entries + Seq::new((k - 1) as nat, |i: int| t0) =~= l.entries + Seq::new(
            k,
            |i: int| t0,
        ));
    }
}

/// A fresh log of capacity `capacity` admits `capacity` requests at one
/// instant and is then full: the next request is denied with a wait of one
/// whole window.
pub proof fn lemma_log_fills_at_once(capacity: u64, window: u64, t0: u64)
    requires
        capacity > 0,
        window > 0,
    ensures
        ({
            let l = SlidingLogView { capacity, window, entries: Seq::empty(), last_seen: t0 };
            &&& forall|k: nat| k < capacity ==> #[trigger] l.after_allows_at(t0, k).allow_result(t0)
                == AllowResult::Allowed
            &&& l.after_allows_at(t0, capacity as nat).allow_result(t0) == AllowResult::Denied {
                retry_after: window,
            }
            &&& l.after_allows_at(t0, capacity as nat).snapshot(t0).remaining == 0
        }),
{
    let l = SlidingLogView { capacity, window, entries: Seq::empty(), last_seen: t0 };
    assert forall|k: nat| k < capacity implies #[trigger] l.after_allows_at(t0, k).allow_result(t0)
        == AllowResult::Allowed by {
        lemma_log_fill(l, t0, k);
        let m = l.after_allows_at(t0, k);
        if m.entries.len() > 0 {
            assert(!expired(m.entries[0], t0, window));
        }
        assert(trimmed(m.entries, t0, window) == m.entries);
    }
    lemma_log_fill(l, t0, capacity as nat);
    let m = l.after_allows_at(t0, capacity as nat);
    assert(m.entries[0] == t0);
    assert(!expired(m.entries[0], t0, window));
    assert(trimmed(m.entries, t0, window) == m.entries);
}

/// A request admitted at `t` stays in the log, as its newest entry, for as
/// long as it is inside the window: only at `t2` with `t2 - t >= window` can
/// trimming drop it. Every entry that trimming drops has left the window.
pub proof fn lemma_admitted_entry_kept(l: SlidingLogView, t: u64, t2: u64)
    requires
        l.wf(),
        l.allow_result(t) == AllowResult::Allowed,
    ensures
        l.after_allow(t).entries.last() == t,
        !expired(t, t2, l.window) ==> trimmed(l.after_allow(t).entries, t2, l.window).len() > 0
            && trimmed(l.after_allow(t).entries, t2, l.window).last() == t,
        forall|i: int|
            0 <= i < l.after_allow(t).entries.len() - trimmed(
                l.after_allow(t).entries,
                t2,
                l.window,
            ).len() ==> expired(#[trigger] l.after_allow(t).entries[i], t2, l.window),
{
    let s = l.after_allow(t).entries;
    lemma_trimmed_suffix(s, t2, l.window);
    let kept = trimmed(s, t2, l.window);
    if !expired(t, t2, l.window) {
        if kept.len() == 0 {
            assert(expired(s[s.len() - 1], t2, l.window));
        }
        assert(kept.last() == s[s.len() - 1]);
    }
}

/// A log with room for one request, after admitting one at `t0`, admits the
/// next request at `t` exactly when `t - t0` has reached the window.
pub proof fn lemma_single_slot_reopens(window: u64, t0: u64, seen: u64, t: u64)
    requires
        window > 0,
    ensures
        ({
            let l = SlidingLogView { capacity: 1, window, entries: Seq::empty(), last_seen: seen };
            &&& l.allow_result(t0) == AllowResult::Allowed
            &&& (l.after_allow(t0).allow_result(t) == AllowResult::Allowed <==> elapsed(t0, t)
                >= window)
        }),
{
    let l = SlidingLogView { capacity: 1, window, entries: Seq::empty(), last_seen: seen };
    assert(trimmed(Seq::<u64>::empty(), t0, window) == Seq::<u64>::empty());
    let s = l.after_allow(t0).entries;
    assert(s == seq![t0]);
    assert(s.drop_first() =~= Seq::<u64>::empty());
    assert(trimmed(Seq::<u64>::empty(), t, window) == Seq::<u64>::empty());
}

impl SlidingLog {
    /// An empty log; a zero capacity or window is rejected, and so is a window
    /// whose length in nanoseconds does not fit in a `u64`.
    pub fn new(capacity: u64, window_seconds: u64, now: u64) -> (r: Result<SlidingLog, InvalidConfig>)
        ensures
            capacity == 0 ==> r == Err::<SlidingLog, InvalidConfig>(InvalidConfig::ZeroCapacity),
            capacity > 0 && window_seconds == 0 ==> r == Err::<SlidingLog, InvalidConfig>(
                InvalidConfig::ZeroRefillRate,
            ),
            capacity > 0 && window_seconds > 0 && window_nanos(window_seconds) > u64::MAX ==> r
                == Err::<SlidingLog, InvalidConfig>(InvalidConfig::WindowTooLong),
            capacity > 0 && window_seconds > 0 && window_nanos(window_seconds) <= u64::MAX ==> r
                is Ok && r->Ok_0@ == (SlidingLogView {
                capacity,
                window: window_nanos(window_seconds) as u64,
                entries: Seq::empty(),
                last_seen: now,
            }),
    {
        if capacity == 0 {
            return Err(InvalidConfig::ZeroCapacity);
        }
        if window_seconds == 0 {
            return Err(InvalidConfig::ZeroRefillRate);
        }
        if window_seconds > u64::MAX / NANOS_PER_SEC {
            proof {
                assert(window_seconds * NANOS_PER_SEC > u64::MAX) by (nonlinear_arith)
                    requires
                        window_seconds > u64::MAX / NANOS_PER_SEC,
                ;
            }
            return Err(InvalidConfig::WindowTooLong);
        }
        proof {
            assert(window_seconds * NANOS_PER_SEC <= u64::MAX) by (nonlinear_arith)
                requires
                    window_seconds <= u64::MAX / NANOS_PER_SEC,
            ;
        }
        Ok(SlidingLog {
            capacity,
            window: window_seconds * NANOS_PER_SEC,
            entries: VecDeque::new(),
            last_seen: now,
        })
    }

    /// Drops the expired entries at the head of the log.
    fn trim(&mut self, now: u64)
        requires
            old(self)@.wf(),
        ensures
            final(self)@ == (SlidingLogView {
                entries: trimmed(old(self)@.entries, now, old(self).window),
                ..old(self)@
            }),
    {
        let ghost target = trimmed(self.entries@, now, self.window);
        proof {
            lemma_trimmed_suffix(self.entries@, now, self.window);
        }
        while self.entries.len() > 0 && elapsed_between(self.entries[0], now) >= self.window
            invariant
                trimmed(self.entries@, now, self.window) == target,
                self.capacity == old(self).capacity,
                self.window == old(self).window,
                self.last_seen == old(self).last_seen,
                target == trimmed(old(self)@.entries, now, old(self).window),
            decreases self.entries@.len(),
        {
            self.entries.pop_front();
        }
    }

    /// Decides on one request at `now`: drops expired entries, then admits the
    /// request if the log has room.
    pub fn allow(&mut self, now: u64) -> (r: AllowResult)
        requires
            old(self)@.wf(),
        ensures
            final(self)@ == old(self)@.after_allow(now),
            r == old(self)@.allow_result(now),
            final(self)@.wf(),
    {
        self.last_seen = now;
        self.trim(now);
        proof {
            lemma_trimmed_suffix(old(self)@.entries, now, self.window);
        }
        if (self.entries.len() as u64) < self.capacity {
            self.entries.push_back(now);
            AllowResult::Allowed
        } else {
            let oldest = self.entries[0];
            let retry_after = self.window - elapsed_between(oldest, now);
            AllowResult::Denied { retry_after }
        }
    }

    /// The capacity status at `now`; the log is not trimmed.
    pub fn state(&self, now: u64) -> (r: BucketState)
        requires
            self@.wf(),
        ensures
            r == self@.snapshot(now),
    {
        let remaining = self.capacity - self.entries.len() as u64;
        let reset_after = if self.entries.len() == 0 {
            0
        } else {
            let since = elapsed_between(self.entries[0], now);
            if since >= self.window {
                0
            } else {
                self.window - since
            }
        };
        BucketState { limit: self.capacity, remaining, reset_after }
    }
}

impl RateLimitAlgorithm for SlidingLog {
    open spec fn wf(&self) -> bool {
        self@.wf()
    }

    open spec fn spec_limit(&self) -> u64 {
        self.capacity
    }

    open spec fn spec_last_seen(&self) -> u64 {
        self.last_seen
    }

    open spec fn rejection(capacity: u64, refill_rate: u64) -> Option<InvalidConfig> {
        if capacity == 0 {
            Some(InvalidConfig::ZeroCapacity)
        } else if refill_rate == 0 {
            Some(InvalidConfig::ZeroRefillRate)
        } else if window_nanos(refill_rate) > u64::MAX {
            Some(InvalidConfig::WindowTooLong)
        } else {
            None
        }
    }

    open spec fn is_fresh(&self, capacity: u64, refill_rate: u64, now: u64) -> bool {
        self@ == SlidingLogView {
            capacity,
            window: window_nanos(refill_rate) as u64,
            entries: Seq::empty(),
            last_seen: now,
        }
    }

    open spec fn allows_to(&self, now: u64, next: SlidingLog, r: AllowResult) -> bool {
        next@ == self@.after_allow(now) && r == self@.allow_result(now)
    }

    open spec fn spec_state(&self, now: u64) -> BucketState {
        self@.snapshot(now)
    }

    open spec fn seen_to(&self, now: u64, next: SlidingLog) -> bool {
        next@ == SlidingLogView { last_seen: now, ..self@ }
    }

    fn new(capacity: u64, refill_rate: u64, now: u64) -> (r: Result<SlidingLog, InvalidConfig>) {
        SlidingLog::new(capacity, refill_rate, now)
    }

    fn allow(&mut self, now: u64) -> (r: AllowResult) {
        SlidingLog::allow(self, now)
    }

    fn state(&self, now: u64) -> (r: BucketState) {
        SlidingLog::state(self, now)
    }

    fn last_seen(&self) -> (r: u64) {
        self.last_seen
    }

    fn set_last_seen(&mut self, now: u64) {
        self.last_seen = now;
    }
}

} // verus!
