//! The swing scheduler: a groove applied to an agent's work interval.
use vstd::prelude::*;
use crate::groove::Groove;
use crate::timing::Timing;

verus! {

/// The interval of an early beat: 85% of the base, rounded down.
pub open spec fn early_interval(base: u64) -> u64 {
    ((base as int) * 85 / 100) as u64
}

/// The interval of a late beat: 115% of the base, rounded down, and at most
/// `u64::MAX`.
pub open spec fn late_interval(base: u64) -> u64 {
    if (base as int) * 115 / 100 > u64::MAX {
        u64::MAX
    } else {
        ((base as int) * 115 / 100) as u64
    }
}

/// The wait before a beat of timing `t` on a base interval of `base` ms: the
/// base pulled 15% early or pushed 15% late.
pub open spec fn interval_for(base: u64, t: Timing) -> u64 {
    match t {
        Timing::Early => early_interval(base),
        Timing::OnTime => base,
        Timing::Late => late_interval(base),
    }
}

/// Applies a groove to an agent's work cycle.
#[derive(Debug, Clone)]
pub struct SwingScheduler {
    pub groove: Groove,
    pub base_interval_ms: u64,
    pub tick_count: u64,
}

impl SwingScheduler {
    /// A scheduler that plays `groove` over a base interval of
    /// `base_interval_ms` milliseconds, with no tick counted yet.
    pub fn new(groove: Groove, base_interval_ms: u64) -> (s: Self)
        ensures
            s.groove == groove,
            s.base_interval_ms == base_interval_ms,
            s.tick_count == 0,
    {
        SwingScheduler { groove, base_interval_ms, tick_count: 0 }
    }

    /// The wait before the next tick, shaped by the groove's next beat; the
    /// groove moves on by one beat and one more tick is counted.
    pub fn next_interval(&mut self) -> (r: u64)
        requires
            old(self).groove.wf(),
            old(self).tick_count < u64::MAX,
        ensures
            r == interval_for(old(self).base_interval_ms, old(self).groove.current()),
            final(self).groove.pattern == old(self).groove.pattern,
            final(self).groove.position == old(self).groove.next_position(),
            final(self).groove == old(self).groove.ticked(1),
            final(self).groove.wf(),
            final(self).base_interval_ms == old(self).base_interval_ms,
            final(self).tick_count == old(self).tick_count + 1,
    {
        let timing = self.groove.tick();
        self.tick_count = self.tick_count + 1;
        let base = self.base_interval_ms as u128;
        match timing {
            Timing::Early => (base * 85 / 100) as u64,
            Timing::OnTime => self.base_interval_ms,
            Timing::Late => {
                let v = base * 115 / 100;
                if v > u64::MAX as u128 {
                    u64::MAX
                } else {
                    v as u64
                }
            },
        }
    }

    /// Start the groove again from its first beat and clear the tick count.
    pub fn reset(&mut self)
        ensures
            final(self).groove.pattern@ == old(self).groove.pattern@,
            final(self).groove.position == 0,
            final(self).groove.wf(),
            final(self).base_interval_ms == old(self).base_interval_ms,
            final(self).tick_count == 0,
    {
        self.groove.reset();
        self.tick_count = 0;
    }
}

/// Early beats come before on-time ones and late beats after: an early wait
/// is shorter than any positive base and a late one is never shorter, and
/// longer once the base is at least 7 ms (and below the largest interval).
pub proof fn lemma_push_and_pull(base: u64)
    ensures
        early_interval(base) <= base <= late_interval(base),
        base >= 1 ==> early_interval(base) < base,
        7 <= base < u64::MAX ==> base < late_interval(base),
{
}


/// The push and pull are proportional to the base: an early beat waits
/// 85% of the base and a late beat 115%, each rounded down to a whole
/// millisecond, the late one at most `u64::MAX`.
pub proof fn lemma_intervals_are_percentages(base: u64)
    ensures
        100 * early_interval(base) <= 85 * base < 100 * early_interval(base) + 100,
        115 * base < 100 * (u64::MAX as int) + 100 ==> 100 * late_interval(base) <= 115 * base
            < 100 * late_interval(base) + 100,
        115 * base >= 100 * (u64::MAX as int) + 100 ==> late_interval(base) == u64::MAX,
        interval_for(base, Timing::Early) == early_interval(base),
        interval_for(base, Timing::OnTime) == base,
        interval_for(base, Timing::Late) == late_interval(base),
{
}

} // verus!
