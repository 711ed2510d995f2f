//! The retry schedule of a failed cycle: exponential backoff with a jitter
//! the caller draws, capped per delay and bounded in total. Reset at the
//! start of each new retry series.

use vstd::prelude::*;

verus! {

/// Exponential-backoff state for one series of retries.
#[derive(Debug, Clone, Copy, PartialEq, Eq, Structural)]
pub struct RetrySchedule {
    /// The base of the next delay, in milliseconds.
    pub current_ms: u64,
    /// The first delay of a fresh series.
    pub initial_ms: u64,
    /// No base delay grows beyond this.
    pub max_ms: u64,
    /// Delay handed out so far in this series.
    pub elapsed_ms: u64,
    /// The series gives up once the handed-out delay passes this.
    pub max_elapsed_ms: u64,
}

/// A usable schedule: the first delay is positive and no larger than the
/// cap, and the cap leaves room for the jitter.
pub open spec fn wf_schedule(s: RetrySchedule) -> bool {
    0 < s.initial_ms <= s.max_ms && s.current_ms <= s.max_ms && s.max_ms <= u64::MAX / 2
}

/// The base delay that follows a given one: half again as long, capped.
pub open spec fn spec_next_interval(current: u64, max: u64) -> u64 {
    if current > (max / 3) * 2 {
        max
    } else {
        (current + current / 2) as u64
    }
}

/// The delay handed out for a base delay and a drawn jitter: at least half
/// the base, at most half again the base.
pub open spec fn spec_jittered(current: u64, jitter: u64) -> u64 {
    (current / 2 + (if jitter > current {
        current
    } else {
        jitter
    })) as u64
}

impl RetrySchedule {
    /// A fresh series with the given first delay, per-delay cap and total
    /// budget.
    pub fn new(initial_ms: u64, max_ms: u64, max_elapsed_ms: u64) -> (s: RetrySchedule)
        requires
            0 < initial_ms <= max_ms,
            max_ms <= u64::MAX / 2,
        ensures
            wf_schedule(s),
            s.current_ms == initial_ms,
            s.initial_ms == initial_ms,
            s.max_ms == max_ms,
            s.elapsed_ms == 0,
            s.max_elapsed_ms == max_elapsed_ms,
    {
        RetrySchedule {
            current_ms: initial_ms,
            initial_ms,
            max_ms,
            elapsed_ms: 0,
            max_elapsed_ms,
        }
    }

    /// Starts the series over, as a successful cycle does.
    pub fn reset(&mut self)
        requires
            wf_schedule(*old(self)),
        ensures
            wf_schedule(*final(self)),
            final(self).current_ms == old(self).initial_ms,
            final(self).elapsed_ms == 0,
            final(self).initial_ms == old(self).initial_ms,
            final(self).max_ms == old(self).max_ms,
            final(self).max_elapsed_ms == old(self).max_elapsed_ms,
    {
        self.current_ms = self.initial_ms;
        self.elapsed_ms = 0;
    }

    /// The delay before the next retry, for a jitter the caller drew, or
    /// nothing once the series has spent its budget. The delay lies between
    /// half and one-and-a-half times the current base; the base then grows by
    /// half, up to the cap.
    pub fn next_delay(&mut self, jitter_ms: u64) -> (r: Option<u64>)
        requires
            wf_schedule(*old(self)),
        ensures
            wf_schedule(*final(self)),
            final(self).initial_ms == old(self).initial_ms,
            final(self).max_ms == old(self).max_ms,
            final(self).max_elapsed_ms == old(self).max_elapsed_ms,
            old(self).elapsed_ms > old(self).max_elapsed_ms ==> r is None && *final(self) == *old(
                self,
            ),
            old(self).elapsed_ms <= old(self).max_elapsed_ms ==> ({
                &&& r == Some(spec_jittered(old(self).current_ms, jitter_ms))
                &&& final(self).current_ms == spec_next_interval(
                    old(self).current_ms,
                    old(self).max_ms,
                )
                &&& final(self).elapsed_ms == (if old(self).elapsed_ms + spec_jittered(
                    old(self).current_ms,
                    jitter_ms,
                ) <= u64::MAX {
                    old(self).elapsed_ms + spec_jittered(old(self).current_ms, jitter_ms)
                } else {
                    u64::MAX as int
                })
            }),
    {
        if self.elapsed_ms > self.max_elapsed_ms {
            return None;
        }
        let capped_jitter = if jitter_ms > self.current_ms {
            self.current_ms
        } else {
            jitter_ms
        };
        let half = self.current_ms / 2;
        proof {
            assert(half + capped_jitter <= u64::MAX) by {
                assert(capped_jitter <= self.current_ms);
                assert(half <= self.current_ms / 2);
            }
        }
        let delay = half + capped_jitter;
        self.elapsed_ms = self.elapsed_ms.saturating_add(delay);
        let next_current = if self.current_ms > (self.max_ms / 3) * 2 {
            self.max_ms
        } else {
            proof {
                let k = self.max_ms / 3;
                assert(3 * k <= self.max_ms);
                assert(2 * half <= self.current_ms);
                assert(half <= k);
                assert(self.current_ms + half <= 3 * k);
            }
            self.current_ms + half
        };
        self.current_ms = next_current;
        Some(delay)
    }
}

} // verus!
