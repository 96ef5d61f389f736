//! Cadence control for the scheduler: the slow transport tick and the wind
//! drift run only when enough time has accumulated, while the commit pass
//! runs every step. The caller feeds in elapsed time; the timer decides.

use vstd::prelude::*;

verus! {

/// An accumulated-time trigger with a fixed period, in milliseconds.
#[derive(Clone, Copy, PartialEq, Eq, Structural, Debug)]
pub struct TickTimer {
    /// Time accumulated since the timer last fired.
    pub acc: u64,
    /// How much must accumulate before the timer fires.
    pub period: u64,
}

impl TickTimer {
    pub fn new(period: u64) -> (t: TickTimer)
        ensures
            t.period == period,
            t.acc == 0,
    {
        TickTimer { acc: 0, period }
    }

    /// Add elapsed time; report whether the period has passed, and if so
    /// start accumulating afresh from zero.
    pub fn time_passed(&mut self, delta: u64) -> (run: bool)
        requires
            old(self).acc + delta <= u64::MAX,
        ensures
            run == (old(self).acc + delta >= old(self).period),
            final(self).period == old(self).period,
            final(self).acc == if run {
                0u64
            } else {
                (old(self).acc + delta) as u64
            },
    {
        self.acc = self.acc + delta;
        let run = self.acc >= self.period;
        if run {
            self.acc = 0;
        }
        run
    }
}

} // verus!
