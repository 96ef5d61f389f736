//! Global wind state: a compass direction in whole degrees and a strength
//! fraction in per-mille.

use vstd::prelude::*;
use crate::rng::rng_below;

verus! {

/// One wrap step for a direction that drifted at most a full turn out of
/// range: the result of adding a delta in `(-360, 360)` to a direction in
/// `[0, 360)` lands back in `[0, 360)`.
pub open spec fn wrap_degrees(d: int) -> int {
    if d < 0 {
        d + 360
    } else if d >= 360 {
        d - 360
    } else {
        d
    }
}

/// The direction reached from `base` after drifting by `delta` degrees and
/// wrapping back into `[0, 360)`.
pub open spec fn drifted_direction(base: int, delta: int) -> int {
    wrap_degrees(base + delta)
}

#[derive(Clone, Copy, PartialEq, Eq, Structural, Debug)]
pub struct Weather {
    /// Per-mille fraction in `[0, 1000]`; larger values act as 1000.
    pub wind_strength: u64,
    /// Compass degrees, kept in `[0, 360)` by every adjustment.
    pub wind_direction: u64,
}

impl Weather {
    /// Drift the wind: perturb the direction by a uniformly drawn delta in
    /// `[-90, 90)` degrees, then wrap back into `[0, 360)`. Strength does
    /// not drift.
    pub fn adjust_wind(&mut self, rng: &mut rand::rngs::StdRng)
        requires
            old(self).wind_direction < 360,
        ensures
            final(self).wind_direction < 360,
            final(self).wind_strength == old(self).wind_strength,
            exists|delta: int|
                -90 <= delta < 90 && final(self).wind_direction == #[trigger] drifted_direction(
                    old(self).wind_direction as int,
                    delta,
                ),
    {
        let draw = rng_below(rng, 180);
        let delta: i64 = (draw as i64) - 90;
        let mut dir: i64 = (self.wind_direction as i64) + delta;
        if dir < 0 {
            dir = dir + 360;
        } else if dir >= 360 {
            dir = dir - 360;
        }
        self.wind_direction = dir as u64;
        proof {
            assert(final(self).wind_direction == drifted_direction(
                old(self).wind_direction as int,
                delta as int,
            ));
        }
    }

    /// Manual diagnostic override: swing the wind 40 degrees to the left or
    /// right and wrap back into `[0, 360)`.
    pub fn debug_wind_adj(&mut self, left: bool)
        requires
            old(self).wind_direction < 360,
        ensures
            final(self).wind_direction == wrap_degrees(
                old(self).wind_direction + if left { -40int } else { 40int },
            ),
            final(self).wind_direction < 360,
            final(self).wind_strength == old(self).wind_strength,
    {
        let mut dir: i64 = if left {
            (self.wind_direction as i64) - 40
        } else {
            (self.wind_direction as i64) + 40
        };
        if dir < 0 {
            dir = dir + 360;
        } else if dir >= 360 {
            dir = dir - 360;
        }
        self.wind_direction = dir as u64;
    }
}

} // verus!
