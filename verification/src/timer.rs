//! Cadence timers for the dual-rate poll scheduler.
//!
//! A timer fires when the elapsed wall-clock time since it last fired
//! strictly exceeds its interval. A freshly backdated timer (one that has
//! never fired) fires immediately, so the metric it gates is fetched on
//! the very first update cycle instead of after a full interval.

use vstd::prelude::*;

verus! {

/// One poll-cadence timer: the instant it last fired, in milliseconds of
/// the caller's monotonic clock, and its firing interval. `None` means
/// the timer is backdated and due immediately.
pub struct PollTimer {
    last_ms: Option<u64>,
    interval_ms: u64,
}

impl PollTimer {
    /// The instant the timer last fired, if it ever has.
    pub closed spec fn last_fired(&self) -> Option<u64> {
        self.last_ms
    }

    /// The firing interval in milliseconds.
    pub closed spec fn interval(&self) -> u64 {
        self.interval_ms
    }

    /// Whether the timer is due at `now_ms`: it has never fired, or more
    /// than `interval()` milliseconds have passed since it last fired.
    pub open spec fn is_due(&self, now_ms: u64) -> bool {
        match self.last_fired() {
            None => true,
            Some(last) => now_ms > last + self.interval(),
        }
    }

    /// A timer that fired just now and will next be due after one
    /// full interval.
    pub fn started(now_ms: u64, interval_ms: u64) -> (t: PollTimer)
        ensures
            t.last_fired() == Some(now_ms),
            t.interval() == interval_ms,
    {
        PollTimer { last_ms: Some(now_ms), interval_ms }
    }

    /// A backdated timer: due at every instant until it is first reset.
    pub fn backdated(interval_ms: u64) -> (t: PollTimer)
        ensures
            t.last_fired() is None,
            t.interval() == interval_ms,
            forall|now_ms: u64| t.is_due(now_ms),
    {
        PollTimer { last_ms: None, interval_ms }
    }

    /// Whether the timer is due at `now_ms`.
    pub fn fires(&self, now_ms: u64) -> (r: bool)
        ensures
            r == self.is_due(now_ms),
    {
        match self.last_ms {
            None => true,
            Some(last) => now_ms.saturating_sub(last) > self.interval_ms,
        }
    }

    /// Record that the timer fired at `now_ms`.
    pub fn reset(&mut self, now_ms: u64)
        ensures
            final(self).last_fired() == Some(now_ms),
            final(self).interval() == old(self).interval(),
    {
        self.last_ms = Some(now_ms);
    }
}

/// No spurious firings: a timer that fired at `last` is not due again at
/// any instant within one interval of `last`.
pub proof fn lemma_quiet_within_interval(t: PollTimer, now_ms: u64)
    requires
        t.last_fired() matches Some(last) && now_ms <= last + t.interval(),
    ensures
        !t.is_due(now_ms),
{
}

/// No catch-up bursts: however much time had passed before a timer fired
/// at `now_ms`, it is not due again before a full interval has elapsed,
/// so each due observation triggers at most one poll per interval.
pub proof fn lemma_one_poll_per_interval(t: PollTimer, now_ms: u64, later_ms: u64)
    requires
        t.last_fired() == Some(now_ms),
        later_ms <= now_ms + t.interval(),
    ensures
        !t.is_due(later_ms),
{
}

} // verus!
