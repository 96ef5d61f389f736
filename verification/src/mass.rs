//! Ghost accounting of substance mass over the whole cell array, used to
//! state and prove that the transport passes conserve mass.

use vstd::prelude::*;
use crate::hex_grid::Cell;

verus! {

/// Sum of the committed levels of every cell.
pub open spec fn amount_mass(g: Seq<Cell>) -> int
    decreases g.len(),
{
    if g.len() == 0 {
        0
    } else {
        amount_mass(g.drop_last()) + g.last().nanite.nanite_total
    }
}

/// Sum of the pending deltas of every cell.
pub open spec fn pending_mass(g: Seq<Cell>) -> int
    decreases g.len(),
{
    if g.len() == 0 {
        0
    } else {
        pending_mass(g.drop_last()) + g.last().nanite.transient_nanites
    }
}

/// All substance a grid holds, committed or pending.
pub open spec fn grid_mass(g: Seq<Cell>) -> int {
    amount_mass(g) + pending_mass(g)
}

/// Replacing one cell shifts each mass sum by exactly that cell's change.
pub proof fn lemma_mass_update(g: Seq<Cell>, k: int, v: Cell)
    requires
        0 <= k < g.len(),
    ensures
        amount_mass(g.update(k, v)) == amount_mass(g) - g[k].nanite.nanite_total
            + v.nanite.nanite_total,
        pending_mass(g.update(k, v)) == pending_mass(g) - g[k].nanite.transient_nanites
            + v.nanite.transient_nanites,
    decreases g.len(),
{
    if k == g.len() - 1 {
        assert(g.update(k, v).drop_last() =~= g.drop_last());
    } else {
        assert(g.update(k, v).drop_last() =~= g.drop_last().update(k, v));
        lemma_mass_update(g.drop_last(), k, v);
    }
}

/// Grids with pointwise-equal committed levels hold the same committed
/// mass.
pub proof fn lemma_amount_mass_pointwise(g1: Seq<Cell>, g2: Seq<Cell>)
    requires
        g1.len() == g2.len(),
        forall|j: int|
            0 <= j < g1.len() ==> (#[trigger] g1[j]).nanite.nanite_total
                == g2[j].nanite.nanite_total,
    ensures
        amount_mass(g1) == amount_mass(g2),
    decreases g1.len(),
{
    if g1.len() > 0 {
        lemma_amount_mass_pointwise(g1.drop_last(), g2.drop_last());
    }
}

/// Mass sums of real cells are never negative.
pub proof fn lemma_mass_nonneg(g: Seq<Cell>)
    ensures
        amount_mass(g) >= 0,
        pending_mass(g) >= 0,
    decreases g.len(),
{
    if g.len() > 0 {
        lemma_mass_nonneg(g.drop_last());
    }
}

/// No single cell holds more than the whole grid: each committed level is
/// at most the committed mass, each pending delta at most the pending
/// mass.
pub proof fn lemma_element_le_mass(g: Seq<Cell>, j: int)
    requires
        0 <= j < g.len(),
    ensures
        g[j].nanite.nanite_total <= amount_mass(g),
        g[j].nanite.transient_nanites <= pending_mass(g),
    decreases g.len(),
{
    lemma_mass_nonneg(g.drop_last());
    if j < g.len() - 1 {
        lemma_element_le_mass(g.drop_last(), j);
    }
}

} // verus!
