//! Per-cell substance state and the operations that move mass in and out of
//! a single cell.
//!
//! All quantities are fixed-point: a value of `MILLI` stands for one unit of
//! substance. `nanite_total` is the committed level, `nanite_capacity` the
//! overflow threshold, and `transient_nanites` the pending delta accumulated
//! during a tick and applied only by an explicit commit.

use vstd::prelude::*;
use vstd::arithmetic::div_mod::lemma_div_multiples_vanish;
use vstd::arithmetic::div_mod::lemma_div_is_ordered;
use vstd::arithmetic::mul::lemma_mul_inequality;
use vstd::arithmetic::mul::lemma_mul_upper_bound;
use vstd::arithmetic::mul::lemma_mul_nonnegative;
use vstd::arithmetic::div_mod::lemma_div_pos_is_pos;
use crate::rng::rng_below;

verus! {

/// Fixed-point scale: amounts count thousandths of a substance unit.
pub const MILLI: u64 = 1000;

/// Capacity of a freshly created cell: 20 units.
pub const DEFAULT_CAPACITY: u64 = 20 * MILLI;

#[derive(Clone, Copy, PartialEq, Eq, Structural, Debug)]
pub struct Nanite {
    pub nanite_capacity: u64,
    pub nanite_total: u64,
    pub transient_nanites: u64,
}

/// Wind strength is a fraction in per-mille; anything above one is treated
/// as one, mirroring the clamp in the executable pull.
pub open spec fn clamped_strength(strength: int) -> int {
    if strength > 1000 {
        1000int
    } else {
        strength
    }
}

/// The quantity a wind pull removes: the committed level times the clamped
/// strength fraction, rounded down.
pub open spec fn pull_amount(n: Nanite, strength: int) -> int {
    n.nanite_total * clamped_strength(strength) / 1000
}

/// The overflow above capacity that a spill removes (zero when the cell is
/// at or under capacity).
pub open spec fn spill_excess(n: Nanite) -> int {
    if n.nanite_total > n.nanite_capacity {
        n.nanite_total - n.nanite_capacity
    } else {
        0
    }
}

/// The cell after a commit: the pending delta is folded into the committed
/// level and cleared.
pub open spec fn committed(n: Nanite) -> Nanite {
    Nanite {
        nanite_total: (n.nanite_total + n.transient_nanites) as u64,
        transient_nanites: 0,
        ..n
    }
}

impl Nanite {
    pub fn new_empty() -> (r: Self)
        ensures
            r.nanite_capacity == DEFAULT_CAPACITY,
            r.nanite_total == 0,
            r.transient_nanites == 0,
    {
        Self { nanite_capacity: DEFAULT_CAPACITY, nanite_total: 0, transient_nanites: 0 }
    }

    /// A cell filled to a uniformly random fraction of its capacity.
    pub fn new_rand_filled(rng: &mut rand::rngs::StdRng) -> (r: Self)
        ensures
            r.nanite_capacity == DEFAULT_CAPACITY,
            r.nanite_total < DEFAULT_CAPACITY,
            r.transient_nanites == 0,
    {
        let fraction = rng_below(rng, 1000);
        let per_unit: u64 = DEFAULT_CAPACITY / MILLI;
        proof {
            assert(per_unit == 20);
        }
        Self {
            nanite_capacity: DEFAULT_CAPACITY,
            nanite_total: per_unit * fraction,
            transient_nanites: 0,
        }
    }

    /// Buffer a delta for this tick; nothing is applied until commit.
    pub fn add_transient_nanites(&mut self, amount: u64)
        requires
            old(self).transient_nanites + amount <= u64::MAX,
        ensures
            final(self).transient_nanites == old(self).transient_nanites + amount,
            final(self).nanite_total == old(self).nanite_total,
            final(self).nanite_capacity == old(self).nanite_capacity,
    {
        self.transient_nanites = self.transient_nanites + amount;
    }

    /// Commit: fold the pending delta into the committed level and clear it.
    /// A second consecutive commit is a no-op, since the delta is zero.
    pub fn apply_transient_nanites(&mut self)
        requires
            old(self).nanite_total + old(self).transient_nanites <= u64::MAX,
        ensures
            *final(self) == committed(*old(self)),
            final(self).nanite_total == old(self).nanite_total + old(self).transient_nanites,
            final(self).transient_nanites == 0,
            final(self).nanite_capacity == old(self).nanite_capacity,
    {
        self.nanite_total = self.nanite_total + self.transient_nanites;
        self.transient_nanites = 0;
    }

    /// Reduce an overfull cell to its capacity and return the excess; a cell
    /// at or under capacity is left alone and yields zero.
    pub fn spill(&mut self) -> (r: u64)
        ensures
            r == spill_excess(*old(self)),
            r + final(self).nanite_total == old(self).nanite_total,
            final(self).nanite_total == if old(self).nanite_total > old(self).nanite_capacity {
                old(self).nanite_capacity
            } else {
                old(self).nanite_total
            },
            final(self).nanite_capacity == old(self).nanite_capacity,
            final(self).transient_nanites == old(self).transient_nanites,
    {
        let overflow = if self.nanite_total > self.nanite_capacity {
            self.nanite_total - self.nanite_capacity
        } else {
            0
        };
        self.nanite_total = self.nanite_total - overflow;
        overflow
    }

    /// Remove and return the fraction of the committed level given by the
    /// wind strength (per-mille, clamped to one). The return value plus the
    /// remaining level equals the level before the call.
    pub fn wind_pull(&mut self, strength: u64) -> (r: u64)
        ensures
            r == pull_amount(*old(self), strength as int),
            r + final(self).nanite_total == old(self).nanite_total,
            r <= old(self).nanite_total,
            final(self).nanite_capacity == old(self).nanite_capacity,
            final(self).transient_nanites == old(self).transient_nanites,
    {
        let s: u64 = if strength > 1000 { 1000 } else { strength };
        proof {
            lemma_mul_upper_bound(self.nanite_total as int, u64::MAX as int, s as int, 1000);
        }
        let product: u128 = (self.nanite_total as u128) * (s as u128);
        let pulled_wide: u128 = product / 1000;
        proof {
            lemma_mul_inequality(s as int, 1000, self.nanite_total as int);
            lemma_div_is_ordered(
                self.nanite_total * s,
                self.nanite_total * 1000,
                1000,
            );
            lemma_div_multiples_vanish(self.nanite_total as int, 1000);
            assert(self.nanite_total * s == s * self.nanite_total)
                by (nonlinear_arith);
        }
        let pulled: u64 = pulled_wide as u64;
        self.nanite_total = self.nanite_total - pulled;
        pulled
    }

    /// Strictly over capacity; equality does not count as full.
    pub fn is_full(&self) -> (r: bool)
        ensures
            r == (self.nanite_total > self.nanite_capacity),
    {
        self.nanite_total > self.nanite_capacity
    }
}

/// A pull never removes more than the cell holds: the pulled fraction of a
/// committed level is between zero and that level.
pub proof fn lemma_pull_le_total(n: Nanite, s: int)
    requires
        0 <= s,
    ensures
        0 <= pull_amount(n, s) <= n.nanite_total,
{
    let cs = clamped_strength(s);
    let t = n.nanite_total as int;
    lemma_mul_nonnegative(t, cs);
    lemma_div_pos_is_pos(t * cs, 1000);
    lemma_mul_inequality(cs, 1000, t);
    assert(t * cs == cs * t) by (nonlinear_arith);
    assert(t * 1000 == 1000 * t) by (nonlinear_arith);
    lemma_div_is_ordered(t * cs, t * 1000, 1000);
    lemma_div_multiples_vanish(t, 1000);
}

/// Committing is idempotent: committing a cell that was just committed
/// changes nothing, because its pending delta is already zero.
pub proof fn lemma_commit_idempotent(n: Nanite)
    ensures
        committed(committed(n)) == committed(n),
{
}

} // verus!
