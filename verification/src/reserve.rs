//! The global reserve pool: a single buffer that absorbs substance blown
//! off the grid edge and supplies the edge injection pass.

use vstd::prelude::*;
use vstd::arithmetic::div_mod::lemma_div_multiples_vanish;
use vstd::arithmetic::div_mod::lemma_div_is_ordered;
use vstd::arithmetic::mul::lemma_mul_inequality;
use vstd::arithmetic::mul::lemma_mul_upper_bound;
use crate::rng::rng_below;

verus! {

/// The quantity a draw removes from a pool of `amount` when the drawn
/// per-mille fraction is `f`.
pub open spec fn draw_of(amount: int, f: int) -> int {
    amount * f / 1000
}

#[derive(Clone, Copy, PartialEq, Eq, Structural, Debug)]
pub struct NaniteReserve {
    pub amount: u64,
}

impl NaniteReserve {
    /// Collect substance (for instance, mass that blew off the grid edge).
    pub fn add_nanites(&mut self, amount: u64)
        requires
            old(self).amount + amount <= u64::MAX,
        ensures
            final(self).amount == old(self).amount + amount,
    {
        self.amount = self.amount + amount;
    }

    /// A randomized partial draw: remove and return a uniformly random
    /// fraction (in per-mille, strictly below one) of the pool. The pool is
    /// never emptied in a single call by the fraction itself, and never
    /// goes negative.
    pub fn pull(&mut self, rng: &mut rand::rngs::StdRng) -> (r: u64)
        ensures
            r <= old(self).amount,
            final(self).amount == old(self).amount - r,
            exists|f: int| 0 <= f < 1000 && r == #[trigger] draw_of(old(self).amount as int, f),
            old(self).amount == 0 ==> r == 0,
    {
        let fraction = rng_below(rng, 1000);
        proof {
            lemma_mul_upper_bound(self.amount as int, u64::MAX as int, fraction as int, 1000);
        }
        let product: u128 = (self.amount as u128) * (fraction as u128);
        let drawn_wide: u128 = product / 1000;
        proof {
            lemma_mul_inequality(fraction as int, 1000, self.amount as int);
            assert(self.amount * fraction == fraction * self.amount) by (nonlinear_arith);
            assert(self.amount * 1000 == 1000 * self.amount) by (nonlinear_arith);
            lemma_div_is_ordered(self.amount * fraction, self.amount * 1000, 1000);
            lemma_div_multiples_vanish(self.amount as int, 1000);
        }
        let drawn: u64 = drawn_wide as u64;
        self.amount = self.amount - drawn;
        proof {
            assert(drawn == draw_of(old(self).amount as int, fraction as int));
        }
        drawn
    }
}

} // verus!
