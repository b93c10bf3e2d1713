//! Rate limiting: dropping messages on a channel that arrive sooner than a
//! configured minimum interval after the last accepted one.  Instants are
//! carried as milliseconds on a monotonic clock the transports read.

use vstd::prelude::*;

verus! {

/// The time elapsed from `old_timestamp` to `current_timestamp`, zero when
/// the clock readings arrive out of order.
pub open spec fn spec_elapsed(old_timestamp: u64, current_timestamp: u64) -> int {
    if current_timestamp >= old_timestamp {
        current_timestamp - old_timestamp
    } else {
        0
    }
}

/// Whether at least `duration` milliseconds elapsed between two clock
/// readings.
pub fn has_elapsed_between(old_timestamp: u64, current_timestamp: u64, duration: u64) -> (r: bool)
    ensures
        r == (spec_elapsed(old_timestamp, current_timestamp) >= duration),
{
    let elapsed = if current_timestamp >= old_timestamp {
        current_timestamp - old_timestamp
    } else {
        0
    };
    elapsed >= duration
}

/// Last-accepted timestamp for a rate-filtered channel, compared against the
/// configured minimum inter-message interval.  The window moves only when a
/// message is accepted: an early arrival is dropped without resetting it.
pub struct RateFilter {
    /// When the last accepted message arrived, in clock milliseconds.
    pub last_accepted: u64,
    /// The configured minimum interval between accepted messages, in
    /// milliseconds.
    pub interval: u64,
}

impl RateFilter {
    /// Whether a message arriving at `now` is accepted by the filter state.
    pub open spec fn spec_accepts(self, now: u64) -> bool {
        spec_elapsed(self.last_accepted, now) >= self.interval
    }

    /// The filter state after a message arrived at `now`: the window moves
    /// exactly when the message was accepted.
    pub open spec fn spec_after(self, now: u64) -> RateFilter {
        if self.spec_accepts(now) {
            RateFilter { last_accepted: now, interval: self.interval }
        } else {
            self
        }
    }

    /// A fresh filter whose window starts at `now`.
    pub fn new(interval: u64, now: u64) -> (r: RateFilter)
        ensures
            r.interval == interval,
            r.last_accepted == now,
    {
        RateFilter { last_accepted: now, interval }
    }

    /// Admit or drop a message arriving at `now`: admitted exactly when the
    /// configured interval has elapsed since the last accepted message, and
    /// the window moves only on acceptance.
    pub fn accept(&mut self, now: u64) -> (ok: bool)
        ensures
            ok == old(self).spec_accepts(now),
            *final(self) == old(self).spec_after(now),
    {
        if has_elapsed_between(self.last_accepted, now, self.interval) {
            self.last_accepted = now;
            true
        } else {
            false
        }
    }
}

/// For two arrivals `t1` then `t2` on a filtered channel where the first was
/// accepted: the second is dropped when it comes sooner than the configured
/// interval after `t1`, and forwarded when at least the interval has passed.
pub proof fn lemma_rate_filter_window(f: RateFilter, t1: u64, t2: u64)
    requires
        f.spec_accepts(t1),
        t1 <= t2,
    ensures
        t2 - t1 < f.spec_after(t1).interval ==> !f.spec_after(t1).spec_accepts(t2),
        t2 - t1 >= f.spec_after(t1).interval ==> f.spec_after(t1).spec_accepts(t2),
{
}

} // verus!
