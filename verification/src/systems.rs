//! The transport scheduler: the full-grid passes that move substance.
//!
//! One slow tick runs advection (`nanite_wind`), then overflow diffusion
//! (`nanite_dispersion`), then edge injection (`nanite_introduction`); a
//! commit pass (`nanite_transient_apply`) runs on its own, faster cadence.
//! The first three write only `transient_nanites` of other cells (or the
//! reserve), never another cell's committed level, so their cross-cell
//! writes cannot conflict; each pass visits every cell exactly once in
//! row-major order, bottom row first.
//!
//! Each pass is specified against a step function that replays the pass
//! cell by cell in that same order, so the contract pins the entire
//! resulting grid; mass conservation is proved as lemmas over those step
//! functions.

use vstd::prelude::*;
use vstd::arithmetic::div_mod::lemma_fundamental_div_mod;
use vstd::arithmetic::div_mod::lemma_multiply_divide_lt;
use vstd::arithmetic::div_mod::lemma_fundamental_div_mod_converse_div;
use vstd::arithmetic::div_mod::lemma_fundamental_div_mod_converse_mod;
use vstd::arithmetic::mul::lemma_mul_upper_bound;
use vstd::arithmetic::mul::lemma_mul_inequality;
use crate::grid_pos::GridPos;
use crate::hex_grid::Cell;
use crate::hex_grid::HexGrid;
use crate::hex_grid::neighbor_coord;
use crate::hex_grid::sector_of;
use crate::hex_grid::wind_target_gp;
use crate::hex_grid::gp;
use crate::hex_grid::CAPACITY_LIMIT;
use crate::hex_grid::HexDirection;
use crate::mass::amount_mass;
use crate::mass::pending_mass;
use crate::mass::grid_mass;
use crate::mass::lemma_mass_update;
use crate::mass::lemma_mass_nonneg;
use crate::mass::lemma_element_le_mass;
use crate::nanite::Nanite;
use crate::nanite::pull_amount;
use crate::nanite::committed;
use crate::nanite::lemma_pull_le_total;
use crate::nanite::spill_excess;
use crate::nanite::MILLI;
use crate::rng::rng_below;
use crate::reserve::NaniteReserve;
use crate::weather::Weather;

verus! {

/// Per-cell bound (committed and pending alike) under which a full pass
/// over the largest accepted grid cannot overflow 64-bit arithmetic.
pub const CELL_LIMIT: u64 = 0x2000_0000_0000;

/// Largest grid side the transport passes accept; together with
/// `CELL_LIMIT` it keeps every sum a pass can build below `u64::MAX`.
pub const MAX_PASS_SIZE: usize = 0x200;

/// Every committed level and every pending delta is at most `CELL_LIMIT`.
pub open spec fn cells_bounded(g: Seq<Cell>) -> bool {
    forall|k: int|
        0 <= k < g.len() ==> (#[trigger] g[k]).nanite.nanite_total <= CELL_LIMIT
            && g[k].nanite.transient_nanites <= CELL_LIMIT
}

/// The cell after the wind pulled its share away.
pub open spec fn pulled_cell(cell: Cell, s: int) -> Cell {
    Cell {
        nanite: Nanite {
            nanite_total: (cell.nanite.nanite_total - pull_amount(cell.nanite, s)) as u64,
            ..cell.nanite
        },
        ..cell
    }
}

/// The cell with `amt` more pending substance.
pub open spec fn add_pending_cell(cell: Cell, amt: int) -> Cell {
    Cell {
        nanite: Nanite {
            transient_nanites: (cell.nanite.transient_nanites + amt) as u64,
            ..cell.nanite
        },
        ..cell
    }
}

/// Flat index of the downwind neighbor of flat cell `k`, if it exists.
pub open spec fn wind_target_idx(n: int, k: int, dir: int) -> Option<int> {
    match neighbor_coord(n, k / n, k % n, sector_of(dir % 360)) {
        Some(rc) => Some(rc.0 * n + rc.1),
        None => None,
    }
}

/// One advection step: cell `k` loses its pulled fraction; the pulled
/// quantity lands in the downwind neighbor's pending delta, or in the
/// reserve when the wind points off the grid at `k`.
pub open spec fn wind_step(g: Seq<Cell>, n: int, dir: int, s: int, res: int, k: int) -> (
    Seq<Cell>,
    int,
) {
    let p = pull_amount(g[k].nanite, s);
    let g1 = g.update(k, pulled_cell(g[k], s));
    match wind_target_idx(n, k, dir) {
        Some(t) => (g1.update(t, add_pending_cell(g1[t], p)), res),
        None => (g1, res + p),
    }
}

/// The grid and reserve after the advection pass has processed the first
/// `k` cells in row-major order.
pub open spec fn wind_pass(g0: Seq<Cell>, n: int, dir: int, s: int, res0: int, k: nat) -> (
    Seq<Cell>,
    int,
)
    decreases k,
{
    if k == 0 {
        (g0, res0)
    } else {
        let prev = wind_pass(g0, n, dir, s, res0, (k - 1) as nat);
        wind_step(prev.0, n, dir, s, prev.1, k - 1 as int)
    }
}

/// Shape of the state after a partial advection pass: terrain and capacity
/// are untouched; processed cells have lost exactly their pulled fraction
/// and unprocessed cells are unchanged; pending deltas only grow, by at
/// most one pull per step; the reserve only grows, likewise.
pub proof fn lemma_wind_pass_props(g0: Seq<Cell>, n: int, dir: int, s: int, res0: int, k: nat)
    requires
        1 <= n,
        n * n <= 0x40000,
        g0.len() == n * n,
        k <= n * n,
        cells_bounded(g0),
        0 <= res0,
        0 <= s,
    ensures
        ({
            let st = wind_pass(g0, n, dir, s, res0, k);
            &&& st.0.len() == g0.len()
            &&& forall|j: int|
                0 <= j < g0.len() ==> (#[trigger] st.0[j]).terrain == g0[j].terrain
                    && st.0[j].nanite.nanite_capacity == g0[j].nanite.nanite_capacity
            &&& forall|j: int|
                k <= j < g0.len() ==> (#[trigger] st.0[j]).nanite.nanite_total
                    == g0[j].nanite.nanite_total
            &&& forall|j: int|
                0 <= j < k ==> (#[trigger] st.0[j]).nanite.nanite_total
                    == g0[j].nanite.nanite_total - pull_amount(g0[j].nanite, s)
            &&& forall|j: int|
                0 <= j < g0.len() ==> g0[j].nanite.transient_nanites <= (#[trigger] st.0[j])
                    .nanite.transient_nanites <= g0[j].nanite.transient_nanites + k * CELL_LIMIT
            &&& res0 <= st.1 <= res0 + k * CELL_LIMIT
        }),
    decreases k,
{
    if k > 0 {
        let km = (k - 1) as nat;
        lemma_wind_pass_props(g0, n, dir, s, res0, km);
        let prev = wind_pass(g0, n, dir, s, res0, km);
        let ki = k - 1 as int;
        lemma_pull_le_total(prev.0[ki].nanite, s);
        assert(prev.0[ki].nanite.nanite_total == g0[ki].nanite.nanite_total);
        assert(pull_amount(prev.0[ki].nanite, s) == pull_amount(g0[ki].nanite, s));
        match wind_target_idx(n, ki, dir) {
            Some(t) => {
                lemma_fundamental_div_mod(ki, n);
                lemma_multiply_divide_lt(ki, n, n);
                vstd::arithmetic::div_mod::lemma_mod_bound(ki, n);
                crate::hex_grid::lemma_flat_index_bounds_wide(n, ki / n, ki % n);
                let rc = neighbor_coord(n, ki / n, ki % n, sector_of(dir % 360))->Some_0;
                crate::hex_grid::lemma_flat_index_bounds_wide(n, rc.0, rc.1);
            },
            None => {},
        }
    }
}

/// Mass conservation for the whole advection pass: the substance held by
/// the grid (committed plus pending) plus the reserve is exactly preserved
/// by every prefix of the pass, however the wind points.
pub proof fn lemma_wind_pass_mass(g0: Seq<Cell>, n: int, dir: int, s: int, res0: int, k: nat)
    requires
        1 <= n,
        n * n <= 0x40000,
        g0.len() == n * n,
        k <= n * n,
        cells_bounded(g0),
        0 <= res0,
        0 <= s,
    ensures
        ({
            let st = wind_pass(g0, n, dir, s, res0, k);
            grid_mass(st.0) + st.1 == grid_mass(g0) + res0
        }),
    decreases k,
{
    if k > 0 {
        let km = (k - 1) as nat;
        lemma_wind_pass_mass(g0, n, dir, s, res0, km);
        lemma_wind_pass_props(g0, n, dir, s, res0, km);
        let prev = wind_pass(g0, n, dir, s, res0, km);
        let ki = k - 1 as int;
        lemma_pull_le_total(prev.0[ki].nanite, s);
        let g1 = prev.0.update(ki, pulled_cell(prev.0[ki], s));
        lemma_mass_update(prev.0, ki, pulled_cell(prev.0[ki], s));
        match wind_target_idx(n, ki, dir) {
            Some(t) => {
                lemma_fundamental_div_mod(ki, n);
                lemma_multiply_divide_lt(ki, n, n);
                vstd::arithmetic::div_mod::lemma_mod_bound(ki, n);
                let rc = neighbor_coord(n, ki / n, ki % n, sector_of(dir % 360))->Some_0;
                crate::hex_grid::lemma_flat_index_bounds_wide(n, rc.0, rc.1);
                let p = pull_amount(prev.0[ki].nanite, s);
                lemma_mass_update(g1, t, add_pending_cell(g1[t], p));
            },
            None => {},
        }
    }
}

/// On a one-by-one grid the wind has nowhere to carry substance: the whole
/// pulled quantity goes to the reserve and no pending delta changes.
pub proof fn lemma_wind_single_cell(g0: Seq<Cell>, dir: int, s: int, res0: int)
    requires
        g0.len() == 1,
    ensures
        ({
            let st = wind_pass(g0, 1, dir, s, res0, 1);
            &&& st.1 == res0 + pull_amount(g0[0].nanite, s)
            &&& st.0[0].nanite.transient_nanites == g0[0].nanite.transient_nanites
        }),
{
    crate::hex_grid::lemma_single_cell_has_no_neighbors(sector_of(dir % 360));
    assert(wind_target_idx(1, 0, dir) is None);
    assert(wind_pass(g0, 1, dir, s, res0, 0) == (g0, res0));
    assert(wind_pass(g0, 1, dir, s, res0, 1) == wind_step(g0, 1, dir, s, res0, 0));
}

/// Advection pass: every cell, in row-major order, loses the fraction of
/// its committed level given by the wind strength; the pulled quantity is
/// added to the pending delta of the downwind neighbor resolved from the
/// wind direction, or to the reserve for cells on the windward boundary.
pub fn nanite_wind(hex_grid: &mut HexGrid, weather: &Weather, nanite_reserve: &mut NaniteReserve)
    requires
        old(hex_grid).wf(),
        old(hex_grid).size <= MAX_PASS_SIZE,
        cells_bounded(old(hex_grid).cells@),
        old(nanite_reserve).amount <= CELL_LIMIT,
    ensures
        final(hex_grid).wf(),
        final(hex_grid).size == old(hex_grid).size,
        ({
            let n = old(hex_grid).size as int;
            let st = wind_pass(
                old(hex_grid).cells@,
                n,
                weather.wind_direction as int,
                weather.wind_strength as int,
                old(nanite_reserve).amount as int,
                (n * n) as nat,
            );
            final(hex_grid).cells@ == st.0 && final(nanite_reserve).amount == st.1
        }),
        forall|j: int|
            0 <= j < old(hex_grid).cells@.len() ==> {
                let before = old(hex_grid).cells@[j];
                let after = (#[trigger] final(hex_grid).cells@[j]);
                &&& after.terrain == before.terrain
                &&& after.nanite.nanite_capacity == before.nanite.nanite_capacity
                &&& after.nanite.nanite_total == before.nanite.nanite_total - pull_amount(
                    before.nanite,
                    weather.wind_strength as int,
                )
            },
{
    let n = hex_grid.size;
    let ghost g0 = hex_grid.cells@;
    let ghost res0 = nanite_reserve.amount as int;
    let dir = weather.wind_direction;
    let s = weather.wind_strength;
    proof {
        crate::hex_grid::lemma_flat_index_bounds(n as int, 0, 0);
        assert((n as int) * (n as int) <= 0x40000) by (nonlinear_arith)
            requires
                1 <= n <= 0x200,
        ;
    }
    let count: usize = n * n;
    let mut k: usize = 0;
    while k < count
        invariant
            hex_grid.wf(),
            hex_grid.size == n,
            1 <= n <= MAX_PASS_SIZE,
            count == n * n,
            count <= 0x40000,
            g0.len() == count,
            cells_bounded(g0),
            0 <= res0 <= CELL_LIMIT,
            k <= count,
            ({
                let st = wind_pass(g0, n as int, dir as int, s as int, res0, k as nat);
                hex_grid.cells@ == st.0 && nanite_reserve.amount == st.1
            }),
        decreases count - k,
    {
        proof {
            lemma_wind_pass_props(g0, n as int, dir as int, s as int, res0, k as nat);
        }
        let ghost st = wind_pass(g0, n as int, dir as int, s as int, res0, k as nat);
        let r = k / n;
        let c = k % n;
        proof {
            lemma_multiply_divide_lt(k as int, n as int, n as int);
            vstd::arithmetic::div_mod::lemma_mod_bound(k as int, n as int);
        }
        let gp_cur = GridPos { pos: (r, c) };
        let cell = hex_grid.cells[k];
        let mut nan = cell.nanite;
        let pulled = nan.wind_pull(s);
        hex_grid.cells[k] = Cell { nanite: nan, ..cell };
        let ghost g1 = st.0.update(k as int, pulled_cell(st.0[k as int], s as int));
        proof {
            assert(hex_grid.cells@ =~= g1);
        }
        let tgt = hex_grid.get_wind_neighors_new(&gp_cur, dir);
        match tgt {
            Some(t) => {
                proof {
                    assert(wind_target_gp(n as int, r as int, c as int, dir as int) == Some(t));
                    let rc = neighbor_coord(
                        n as int,
                        r as int,
                        c as int,
                        sector_of((dir as int) % 360),
                    )->Some_0;
                    assert(t == gp(rc.0, rc.1));
                    assert(t.pos.0 == rc.0 && t.pos.1 == rc.1);
                }
                let ti = hex_grid.flat_index(&t);
                let mut tc = hex_grid.cells[ti];
                proof {
                    assert(ti as int == wind_target_idx(n as int, k as int, dir as int)->Some_0);
                    assert(tc == g1[ti as int]);
                    assert(g1[ti as int].nanite.transient_nanites <= st.0[ti as int]
                        .nanite.transient_nanites + CELL_LIMIT);
                    assert((k as int) * CELL_LIMIT <= (count as int) * CELL_LIMIT);
                    assert(tc.nanite.transient_nanites + pulled <= g0[ti as int]
                        .nanite.transient_nanites + (k as int) * CELL_LIMIT + 2 * CELL_LIMIT);
                    assert((count as int) * CELL_LIMIT <= 0x40000 * CELL_LIMIT);
                }
                tc.nanite.add_transient_nanites(pulled);
                hex_grid.cells[ti] = tc;
                proof {
                    let next = wind_pass(g0, n as int, dir as int, s as int, res0, (k + 1) as nat);
                    assert(hex_grid.cells@ =~= next.0);
                }
            },
            None => {
                proof {
                    assert(nanite_reserve.amount + pulled <= res0 + (k as int) * CELL_LIMIT + 2
                        * CELL_LIMIT);
                    assert((k as int) * CELL_LIMIT <= 0x40000 * CELL_LIMIT);
                }
                nanite_reserve.add_nanites(pulled);
                proof {
                    let next = wind_pass(g0, n as int, dir as int, s as int, res0, (k + 1) as nat);
                    assert(hex_grid.cells@ =~= next.0);
                }
            },
        }
        k = k + 1;
    }
    proof {
        lemma_wind_pass_props(g0, n as int, dir as int, s as int, res0, (count) as nat);
    }
}

/// The neighbor directions in the fixed order the diffusion pass visits
/// them: top-left, top-right, left, right, bottom-left, bottom-right.
pub open spec fn nbr_dir(i: int) -> HexDirection {
    if i == 0 {
        HexDirection::TopLeft
    } else if i == 1 {
        HexDirection::TopRight
    } else if i == 2 {
        HexDirection::Left
    } else if i == 3 {
        HexDirection::Right
    } else if i == 4 {
        HexDirection::BottomLeft
    } else {
        HexDirection::BottomRight
    }
}

/// Flat indices of the neighbors of `(r, c)` whose committed level is
/// strictly below this cell's, among the first `i` of the six directions,
/// in visiting order.
pub open spec fn low_prefix(g: Seq<Cell>, n: int, r: int, c: int, i: int) -> Seq<usize>
    decreases i,
{
    if i <= 0 {
        Seq::empty()
    } else {
        let rest = low_prefix(g, n, r, c, i - 1);
        match neighbor_coord(n, r, c, nbr_dir(i - 1)) {
            Some(rc) => {
                let ti = rc.0 * n + rc.1;
                if g[ti].nanite.nanite_total < g[r * n + c].nanite.nanite_total {
                    rest.push(ti as usize)
                } else {
                    rest
                }
            },
            None => rest,
        }
    }
}

/// The `i`-th share when `excess` is divided across `count` receivers: the
/// even quotient, plus one thousandth-unit for the first `excess % count`
/// receivers so the shares sum to exactly `excess`.
pub open spec fn share(excess: int, count: int, i: int) -> int {
    excess / count + if i < excess % count {
        1int
    } else {
        0int
    }
}

/// Sum of the shares from receiver `i` onward.
pub open spec fn share_sum(excess: int, count: int, i: int) -> int
    decreases count - i,
{
    if i < 0 || i >= count {
        0
    } else {
        share(excess, count, i) + share_sum(excess, count, i + 1)
    }
}

/// The grid after receivers `i` onward each got their share of `excess`
/// added to their pending delta.
pub open spec fn add_shares(g: Seq<Cell>, low: Seq<usize>, excess: int, i: int) -> Seq<Cell>
    decreases low.len() - i,
{
    if i < 0 || i >= low.len() {
        g
    } else {
        add_shares(
            g.update(
                low[i] as int,
                add_pending_cell(g[low[i] as int], share(excess, low.len() as int, i)),
            ),
            low,
            excess,
            i + 1,
        )
    }
}

/// The cell with its committed level clipped to capacity.
pub open spec fn clipped_cell(cell: Cell) -> Cell {
    Cell {
        nanite: Nanite {
            nanite_total: if cell.nanite.nanite_total > cell.nanite.nanite_capacity {
                cell.nanite.nanite_capacity
            } else {
                cell.nanite.nanite_total
            },
            ..cell.nanite
        },
        ..cell
    }
}

/// One diffusion step at flat cell `k`: if the cell is strictly over
/// capacity and has at least one strictly-lower neighbor, its committed
/// level is clipped to capacity and the spilled excess is shared across
/// those neighbors' pending deltas. A full cell with no lower neighbor is
/// left untouched: the degenerate division is deliberately skipped rather
/// than reproduced.
pub open spec fn disperse_cell(g: Seq<Cell>, n: int, k: int) -> Seq<Cell> {
    let r = k / n;
    let c = k % n;
    let cell = g[k];
    if cell.nanite.nanite_total > cell.nanite.nanite_capacity {
        let low = low_prefix(g, n, r, c, 6);
        if low.len() > 0 {
            add_shares(
                g.update(k, clipped_cell(cell)),
                low,
                cell.nanite.nanite_total - cell.nanite.nanite_capacity,
                0,
            )
        } else {
            g
        }
    } else {
        g
    }
}

/// The grid after the diffusion pass has processed the first `k` cells in
/// row-major order. Later cells see the levels earlier spills left behind.
pub open spec fn disperse_pass(g0: Seq<Cell>, n: int, k: nat) -> Seq<Cell>
    decreases k,
{
    if k == 0 {
        g0
    } else {
        disperse_cell(disperse_pass(g0, n, (k - 1) as nat), n, k - 1 as int)
    }
}

/// Every share is non-negative and no larger than the whole excess.
pub proof fn lemma_share_bounds(excess: int, count: int, i: int)
    requires
        0 <= excess,
        1 <= count,
        0 <= i,
    ensures
        0 <= share(excess, count, i) <= excess,
{
    let q = excess / count;
    vstd::arithmetic::div_mod::lemma_div_pos_is_pos(excess, count);
    vstd::arithmetic::div_mod::lemma_mod_bound(excess, count);
    vstd::arithmetic::div_mod::lemma_fundamental_div_mod(excess, count);
    assert(q <= count * q) by (nonlinear_arith)
        requires
            0 <= q,
            1 <= count,
    ;
}

/// Suffix sums of shares are non-negative.
pub proof fn lemma_share_sum_nonneg(excess: int, count: int, i: int)
    requires
        0 <= excess,
        1 <= count,
    ensures
        0 <= share_sum(excess, count, i),
    decreases count - i,
{
    if 0 <= i < count {
        lemma_share_bounds(excess, count, i);
        lemma_share_sum_nonneg(excess, count, i + 1);
    }
}

/// Closed form of a suffix sum of shares.
proof fn lemma_share_sum_suffix(excess: int, count: int, i: int)
    requires
        0 <= excess,
        1 <= count,
        0 <= i <= count,
    ensures
        share_sum(excess, count, i) == (count - i) * (excess / count) + if excess % count > i {
            excess % count - i
        } else {
            0int
        },
    decreases count - i,
{
    vstd::arithmetic::div_mod::lemma_mod_bound(excess, count);
    let q = excess / count;
    let rem = excess % count;
    if i == count {
        assert((count - i) * q == 0) by (nonlinear_arith)
            requires
                i == count,
        ;
    } else {
        lemma_share_sum_suffix(excess, count, i + 1);
        assert(share_sum(excess, count, i + 1) == (count - i - 1) * q + if rem > i + 1 {
            rem - i - 1
        } else {
            0int
        });
        assert((count - i) * q == (count - i - 1) * q + q) by (nonlinear_arith);
        assert(share_sum(excess, count, i) == share(excess, count, i) + share_sum(
            excess,
            count,
            i + 1,
        ));
        if i < rem {
            assert(share(excess, count, i) == q + 1);
        } else {
            assert(share(excess, count, i) == q);
        }
        assert(share_sum(excess, count, i) == (count - i) * q + if rem > i {
            rem - i
        } else {
            0int
        });
    }
}

/// The shares divide the excess exactly: their sum is the whole excess.
/// This is the arithmetic heart of mass conservation for diffusion.
pub proof fn lemma_share_sum_total(excess: int, count: int)
    requires
        0 <= excess,
        1 <= count,
    ensures
        share_sum(excess, count, 0) == excess,
{
    lemma_share_sum_suffix(excess, count, 0);
    vstd::arithmetic::div_mod::lemma_fundamental_div_mod(excess, count);
    assert(count * (excess / count) == (excess / count) * count) by (nonlinear_arith);
    assert((count - 0) * (excess / count) == count * (excess / count));
}

/// Distributing shares changes only pending deltas, each by at least zero
/// and in sum by at most the suffix of shares still to hand out.
pub proof fn lemma_add_shares_props(g: Seq<Cell>, low: Seq<usize>, excess: int, i: int)
    requires
        0 <= i <= low.len(),
        1 <= low.len(),
        0 <= excess,
        forall|j: int| 0 <= j < low.len() ==> (#[trigger] low[j]) < g.len(),
        forall|j: int|
            0 <= j < g.len() ==> (#[trigger] g[j]).nanite.transient_nanites + share_sum(
                excess,
                low.len() as int,
                i,
            ) <= u64::MAX,
    ensures
        ({
            let g2 = add_shares(g, low, excess, i);
            &&& g2.len() == g.len()
            &&& forall|j: int|
                0 <= j < g.len() ==> (#[trigger] g2[j]).terrain == g[j].terrain
                    && g2[j].nanite.nanite_capacity == g[j].nanite.nanite_capacity
                    && g2[j].nanite.nanite_total == g[j].nanite.nanite_total
            &&& forall|j: int|
                0 <= j < g.len() ==> g[j].nanite.transient_nanites <= (#[trigger] g2[j])
                    .nanite.transient_nanites <= g[j].nanite.transient_nanites + share_sum(
                    excess,
                    low.len() as int,
                    i,
                )
        }),
    decreases low.len() - i,
{
    let cnt = low.len() as int;
    if i < low.len() {
        lemma_share_bounds(excess, cnt, i);
        lemma_share_sum_nonneg(excess, cnt, i + 1);
        let gu = g.update(low[i] as int, add_pending_cell(g[low[i] as int], share(excess, cnt, i)));
        lemma_add_shares_props(gu, low, excess, i + 1);
    }
}

/// Distributing shares moves exactly the suffix sum of shares into pending
/// mass and leaves committed mass alone.
pub proof fn lemma_add_shares_mass(g: Seq<Cell>, low: Seq<usize>, excess: int, i: int)
    requires
        0 <= i <= low.len(),
        1 <= low.len(),
        0 <= excess,
        forall|j: int| 0 <= j < low.len() ==> (#[trigger] low[j]) < g.len(),
        forall|j: int|
            0 <= j < g.len() ==> (#[trigger] g[j]).nanite.transient_nanites + share_sum(
                excess,
                low.len() as int,
                i,
            ) <= u64::MAX,
    ensures
        pending_mass(add_shares(g, low, excess, i)) == pending_mass(g) + share_sum(
            excess,
            low.len() as int,
            i,
        ),
        amount_mass(add_shares(g, low, excess, i)) == amount_mass(g),
    decreases low.len() - i,
{
    let cnt = low.len() as int;
    if i < low.len() {
        lemma_share_bounds(excess, cnt, i);
        lemma_share_sum_nonneg(excess, cnt, i + 1);
        let v = add_pending_cell(g[low[i] as int], share(excess, cnt, i));
        let gu = g.update(low[i] as int, v);
        lemma_mass_update(g, low[i] as int, v);
        lemma_add_shares_mass(gu, low, excess, i + 1);
    }
}

/// The strictly-lower neighbor list stays inside the grid and holds at
/// most one entry per direction.
pub proof fn lemma_low_prefix_props(g: Seq<Cell>, n: int, r: int, c: int, i: int)
    requires
        1 <= n,
        g.len() == n * n,
        0 <= r < n,
        0 <= c < n,
        0 <= i <= 6,
    ensures
        low_prefix(g, n, r, c, i).len() <= i,
        forall|j: int|
            0 <= j < low_prefix(g, n, r, c, i).len() ==> (#[trigger] low_prefix(g, n, r, c, i)[j])
                < g.len(),
    decreases i,
{
    if i > 0 {
        lemma_low_prefix_props(g, n, r, c, i - 1);
        match neighbor_coord(n, r, c, nbr_dir(i - 1)) {
            Some(rc) => {
                crate::hex_grid::lemma_flat_index_bounds_wide(n, rc.0, rc.1);
            },
            None => {},
        }
    }
}

/// Shape of the state after a partial diffusion pass: terrain and capacity
/// untouched, committed levels never rise, unprocessed cells unchanged,
/// pending deltas only grow and by at most one spill per step.
pub proof fn lemma_disperse_pass_props(g0: Seq<Cell>, n: int, k: nat)
    requires
        1 <= n,
        n * n <= 0x40000,
        g0.len() == n * n,
        k <= n * n,
        cells_bounded(g0),
    ensures
        ({
            let g = disperse_pass(g0, n, k);
            &&& g.len() == g0.len()
            &&& forall|j: int|
                0 <= j < g0.len() ==> (#[trigger] g[j]).terrain == g0[j].terrain
                    && g[j].nanite.nanite_capacity == g0[j].nanite.nanite_capacity
            &&& forall|j: int|
                0 <= j < g0.len() ==> (#[trigger] g[j]).nanite.nanite_total
                    <= g0[j].nanite.nanite_total
            &&& forall|j: int|
                k <= j < g0.len() ==> (#[trigger] g[j]).nanite.nanite_total
                    == g0[j].nanite.nanite_total
            &&& forall|j: int|
                0 <= j < g0.len() ==> g0[j].nanite.transient_nanites <= (#[trigger] g[j])
                    .nanite.transient_nanites <= g0[j].nanite.transient_nanites + k * CELL_LIMIT
        }),
    decreases k,
{
    if k > 0 {
        let km = (k - 1) as nat;
        lemma_disperse_pass_props(g0, n, km);
        let prev = disperse_pass(g0, n, km);
        let ki = k - 1 as int;
        lemma_fundamental_div_mod(ki, n);
        lemma_multiply_divide_lt(ki, n, n);
        vstd::arithmetic::div_mod::lemma_mod_bound(ki, n);
        let r = ki / n;
        let c = ki % n;
        let cell = prev[ki];
        if cell.nanite.nanite_total > cell.nanite.nanite_capacity {
            let low = low_prefix(prev, n, r, c, 6);
            lemma_low_prefix_props(prev, n, r, c, 6);
            if low.len() > 0 {
                let excess = cell.nanite.nanite_total - cell.nanite.nanite_capacity;
                let gclip = prev.update(ki, clipped_cell(cell));
                lemma_share_sum_suffix(excess, low.len() as int, 0);
                lemma_share_sum_total(excess, low.len() as int);
                assert(forall|j: int|
                    0 <= j < gclip.len() ==> (#[trigger] gclip[j]).nanite.transient_nanites
                        + share_sum(excess, low.len() as int, 0) <= u64::MAX);
                lemma_add_shares_props(gclip, low, excess, 0);
            }
        }
    }
}

/// Mass conservation for one diffusion step (and so for the whole pass):
/// clipping a full cell and sharing out the excess moves mass from the
/// committed level into pending deltas without creating or losing any; in
/// particular, when a full cell has lower neighbors, the pending mass
/// grows by exactly the spilled excess.
pub proof fn lemma_disperse_cell_mass(g: Seq<Cell>, n: int, k: int)
    requires
        1 <= n,
        n * n <= 0x40000,
        g.len() == n * n,
        0 <= k < n * n,
        forall|j: int|
            0 <= j < g.len() ==> (#[trigger] g[j]).nanite.nanite_total <= CELL_LIMIT && g[j]
                .nanite.transient_nanites <= u64::MAX - 2 * CELL_LIMIT,
    ensures
        grid_mass(disperse_cell(g, n, k)) == grid_mass(g),
        ({
            let cell = g[k];
            let low = low_prefix(g, n, k / n, k % n, 6);
            (cell.nanite.nanite_total > cell.nanite.nanite_capacity && low.len() > 0)
                ==> pending_mass(disperse_cell(g, n, k)) == pending_mass(g) + spill_excess(
                cell.nanite,
            )
        }),
{
    lemma_fundamental_div_mod(k, n);
    lemma_multiply_divide_lt(k, n, n);
    vstd::arithmetic::div_mod::lemma_mod_bound(k, n);
    let r = k / n;
    let c = k % n;
    let cell = g[k];
    if cell.nanite.nanite_total > cell.nanite.nanite_capacity {
        let low = low_prefix(g, n, r, c, 6);
        lemma_low_prefix_props(g, n, r, c, 6);
        if low.len() > 0 {
            let excess = cell.nanite.nanite_total - cell.nanite.nanite_capacity;
            let gclip = g.update(k, clipped_cell(cell));
            lemma_mass_update(g, k, clipped_cell(cell));
            lemma_share_sum_total(excess, low.len() as int);
            lemma_share_sum_nonneg(excess, low.len() as int, 0);
            lemma_add_shares_mass(gclip, low, excess, 0);
        }
    }
}

/// Link between the option-of-position view of a neighbor and its raw
/// coordinates, with the bounds that make its flat index valid.
proof fn lemma_gp_bridge(n: int, r: int, c: int, d: HexDirection, p: GridPos)
    requires
        1 <= n <= 0x7fff,
        crate::hex_grid::neighbor_gp(n, r, c, d) == Some(p),
    ensures
        neighbor_coord(n, r, c, d) is Some,
        ({
            let rc = neighbor_coord(n, r, c, d)->Some_0;
            p.pos.0 as int == rc.0 && p.pos.1 as int == rc.1 && 0 <= rc.0 < n && 0 <= rc.1 < n
        }),
{
}

/// The strictly-lower neighbors of one cell, as flat indices in visiting
/// order: the candidates a spill from this cell would be shared across.
#[verifier::rlimit(60)]
fn low_neighbors(hex_grid: &HexGrid, grid_pos: &GridPos) -> (low: Vec<usize>)
    requires
        hex_grid.wf(),
        grid_pos.pos.0 < hex_grid.size,
        grid_pos.pos.1 < hex_grid.size,
    ensures
        low@ == low_prefix(
            hex_grid.cells@,
            hex_grid.size as int,
            grid_pos.pos.0 as int,
            grid_pos.pos.1 as int,
            6,
        ),
        forall|j: int| 0 <= j < low@.len() ==> (#[trigger] low@[j]) < hex_grid.cells@.len(),
        low@.len() <= 6,
{
    let ghost n = hex_grid.size as int;
    let ghost r = grid_pos.pos.0 as int;
    let ghost c = grid_pos.pos.1 as int;
    let nbrs = hex_grid.get_neigbors(grid_pos);
    let k = hex_grid.flat_index(grid_pos);
    let cur = hex_grid.cells[k].nanite.nanite_total;
    let mut low: Vec<usize> = Vec::new();
    proof {
        assert(low_prefix(hex_grid.cells@, n, r, c, 0) =~= Seq::<usize>::empty());
    }
    if let Some(p) = nbrs.top_left {
        proof {
            lemma_gp_bridge(n, r, c, HexDirection::TopLeft, p);
        }
        let t = hex_grid.flat_index(&p);
        if hex_grid.cells[t].nanite.nanite_total < cur {
            low.push(t);
        }
    }
    proof {
        assert(low@ =~= low_prefix(hex_grid.cells@, n, r, c, 1));
    }
    if let Some(p) = nbrs.top_right {
        proof {
            lemma_gp_bridge(n, r, c, HexDirection::TopRight, p);
        }
        let t = hex_grid.flat_index(&p);
        if hex_grid.cells[t].nanite.nanite_total < cur {
            low.push(t);
        }
    }
    proof {
        assert(low@ =~= low_prefix(hex_grid.cells@, n, r, c, 2));
    }
    if let Some(p) = nbrs.left {
        proof {
            lemma_gp_bridge(n, r, c, HexDirection::Left, p);
        }
        let t = hex_grid.flat_index(&p);
        if hex_grid.cells[t].nanite.nanite_total < cur {
            low.push(t);
        }
    }
    proof {
        assert(low@ =~= low_prefix(hex_grid.cells@, n, r, c, 3));
    }
    if let Some(p) = nbrs.right {
        proof {
            lemma_gp_bridge(n, r, c, HexDirection::Right, p);
        }
        let t = hex_grid.flat_index(&p);
        if hex_grid.cells[t].nanite.nanite_total < cur {
            low.push(t);
        }
    }
    proof {
        assert(low@ =~= low_prefix(hex_grid.cells@, n, r, c, 4));
    }
    if let Some(p) = nbrs.bottom_left {
        proof {
            lemma_gp_bridge(n, r, c, HexDirection::BottomLeft, p);
        }
        let t = hex_grid.flat_index(&p);
        if hex_grid.cells[t].nanite.nanite_total < cur {
            low.push(t);
        }
    }
    proof {
        assert(low@ =~= low_prefix(hex_grid.cells@, n, r, c, 5));
    }
    if let Some(p) = nbrs.bottom_right {
        proof {
            lemma_gp_bridge(n, r, c, HexDirection::BottomRight, p);
        }
        let t = hex_grid.flat_index(&p);
        if hex_grid.cells[t].nanite.nanite_total < cur {
            low.push(t);
        }
    }
    proof {
        assert(low@ =~= low_prefix(hex_grid.cells@, n, r, c, 6));
    }
    low
}

/// One diffusion step: spill cell `k` if it is full and has at least one
/// strictly lower neighbor, sharing the excess across those neighbors.
#[verifier::loop_isolation(false)]
fn disperse_one(hex_grid: &mut HexGrid, k: usize)
    requires
        old(hex_grid).wf(),
        old(hex_grid).size <= MAX_PASS_SIZE,
        k < old(hex_grid).cells@.len(),
        forall|j: int|
            0 <= j < old(hex_grid).cells@.len() ==> (#[trigger] old(hex_grid).cells@[j])
                .nanite.nanite_total <= CELL_LIMIT && old(hex_grid).cells@[j]
                .nanite.transient_nanites <= 0x9000_0000_0000_0000,
    ensures
        final(hex_grid).wf(),
        final(hex_grid).size == old(hex_grid).size,
        final(hex_grid).cells@ == disperse_cell(
            old(hex_grid).cells@,
            old(hex_grid).size as int,
            k as int,
        ),
{
    let ghost g0 = hex_grid.cells@;
    let ghost n = hex_grid.size as int;
    let size = hex_grid.size;
    proof {
        lemma_multiply_divide_lt(k as int, n, n);
        vstd::arithmetic::div_mod::lemma_mod_bound(k as int, n);
        lemma_fundamental_div_mod(k as int, n);
    }
    let r = k / size;
    let c = k % size;
    let cell = hex_grid.cells[k];
    if cell.nanite.is_full() {
        let gp_cur = GridPos { pos: (r, c) };
        let low = low_neighbors(hex_grid, &gp_cur);
        if low.len() > 0 {
            let mut nan = cell.nanite;
            let excess = nan.spill();
            hex_grid.cells[k] = Cell { nanite: nan, ..cell };
            let ghost gclip = g0.update(k as int, clipped_cell(cell));
            proof {
                assert(hex_grid.cells@ =~= gclip);
                lemma_low_prefix_props(g0, n, r as int, c as int, 6);
                lemma_share_sum_total(excess as int, low@.len() as int);
                lemma_share_sum_nonneg(excess as int, low@.len() as int, 0);
            }
            let cnt = low.len();
            let cnt_w = cnt as u64;
            let q = excess / cnt_w;
            let rem = excess % cnt_w;
            let mut i: usize = 0;
            while i < cnt
                invariant
                    i <= cnt,
                    hex_grid.wf(),
                    hex_grid.size == size,
                    hex_grid.cells@.len() == g0.len(),
                    add_shares(hex_grid.cells@, low@, excess as int, i as int) == add_shares(
                        gclip,
                        low@,
                        excess as int,
                        0,
                    ),
                    forall|j: int|
                        0 <= j < hex_grid.cells@.len() ==> (#[trigger] hex_grid.cells@[j])
                            .nanite.transient_nanites + share_sum(
                            excess as int,
                            cnt as int,
                            i as int,
                        ) <= u64::MAX,
                decreases cnt - i,
            {
                let ghost before = hex_grid.cells@;
                let ti = low[i];
                let mut tc = hex_grid.cells[ti];
                let extra: u64 = if (i as u64) < rem { 1 } else { 0 };
                proof {
                    lemma_share_bounds(excess as int, cnt as int, i as int);
                    lemma_share_sum_nonneg(excess as int, cnt as int, i as int + 1);
                    assert(q + extra == share(excess as int, cnt as int, i as int));
                    assert(tc.nanite.transient_nanites + (q + extra) <= u64::MAX);
                }
                tc.nanite.add_transient_nanites(q + extra);
                hex_grid.cells[ti] = tc;
                proof {
                    assert(hex_grid.cells@ =~= before.update(
                        low@[i as int] as int,
                        add_pending_cell(
                            before[low@[i as int] as int],
                            share(excess as int, cnt as int, i as int),
                        ),
                    ));
                }
                i = i + 1;
            }
            proof {
                assert(hex_grid.cells@ == add_shares(gclip, low@, excess as int, 0));
            }
        }
    }
}

/// Diffusion pass: every full cell, in row-major order, spills its excess
/// above capacity evenly across the neighbors whose committed level is
/// strictly lower, as pending deltas. A full cell with no lower neighbor
/// keeps its excess this tick: the degenerate division is skipped by
/// design rather than reproduced.
pub fn nanite_dispersion(hex_grid: &mut HexGrid)
    requires
        old(hex_grid).wf(),
        old(hex_grid).size <= MAX_PASS_SIZE,
        cells_bounded(old(hex_grid).cells@),
    ensures
        final(hex_grid).wf(),
        final(hex_grid).size == old(hex_grid).size,
        final(hex_grid).cells@ == disperse_pass(
            old(hex_grid).cells@,
            old(hex_grid).size as int,
            (old(hex_grid).size * old(hex_grid).size) as nat,
        ),
        forall|j: int|
            0 <= j < old(hex_grid).cells@.len() ==> {
                let before = old(hex_grid).cells@[j];
                let after = (#[trigger] final(hex_grid).cells@[j]);
                &&& after.terrain == before.terrain
                &&& after.nanite.nanite_capacity == before.nanite.nanite_capacity
                &&& after.nanite.nanite_total <= before.nanite.nanite_total
                &&& after.nanite.transient_nanites >= before.nanite.transient_nanites
            },
{
    let n = hex_grid.size;
    let ghost g0 = hex_grid.cells@;
    proof {
        crate::hex_grid::lemma_flat_index_bounds(n as int, 0, 0);
        assert((n as int) * (n as int) <= 0x40000) by (nonlinear_arith)
            requires
                1 <= n <= 0x200,
        ;
    }
    let count: usize = n * n;
    let mut k: usize = 0;
    while k < count
        invariant
            hex_grid.wf(),
            hex_grid.size == n,
            1 <= n <= MAX_PASS_SIZE,
            count == n * n,
            count <= 0x40000,
            g0.len() == count,
            cells_bounded(g0),
            k <= count,
            hex_grid.cells@ == disperse_pass(g0, n as int, k as nat),
        decreases count - k,
    {
        proof {
            lemma_disperse_pass_props(g0, n as int, k as nat);
            assert(forall|j: int|
                0 <= j < hex_grid.cells@.len() ==> (#[trigger] hex_grid.cells@[j])
                    .nanite.transient_nanites <= CELL_LIMIT + 0x40000 * CELL_LIMIT);
        }
        disperse_one(hex_grid, k);
        k = k + 1;
    }
    proof {
        lemma_disperse_pass_props(g0, n as int, count as nat);
    }
}

/// Mass conservation for the whole diffusion pass: spills move substance
/// from committed levels into pending deltas, so the total the grid holds
/// never changes, over any prefix of the pass.
pub proof fn lemma_disperse_pass_mass(g0: Seq<Cell>, n: int, k: nat)
    requires
        1 <= n,
        n * n <= 0x40000,
        g0.len() == n * n,
        k <= n * n,
        cells_bounded(g0),
    ensures
        grid_mass(disperse_pass(g0, n, k)) == grid_mass(g0),
    decreases k,
{
    if k > 0 {
        let km = (k - 1) as nat;
        lemma_disperse_pass_mass(g0, n, km);
        lemma_disperse_pass_props(g0, n, km);
        let prev = disperse_pass(g0, n, km);
        assert(forall|j: int|
            0 <= j < prev.len() ==> (#[trigger] prev[j]).nanite.nanite_total <= CELL_LIMIT
                && prev[j].nanite.transient_nanites <= u64::MAX - 2 * CELL_LIMIT);
        lemma_disperse_cell_mass(prev, n, k - 1 as int);
    }
}

/// Below this much drawn substance the injection loop deposits the whole
/// remaining local pool on one edge cell instead of a random capacity
/// fraction: five units.
pub const INTRO_THRESHOLD: u64 = 5 * MILLI;

/// Injection pass: draw a random quantity from the reserve, then deposit
/// it on uniformly random cells of the leeward edge (the boundary the wind
/// blows away from, facing `direction + 180`), one random helping at a
/// time, until the drawn quantity is used up. Each helping is either the
/// remaining local pool (when small) or a random fraction of the chosen
/// cell's capacity; a fraction that rounds to nothing still deposits one
/// thousandth-unit, so the loop always makes progress. The last helping
/// may exceed the remaining pool, exactly as a drawn fraction may: the
/// pass can create slightly more pending substance than it drew, but never
/// more than one extra capacity.
///
/// Randomness keeps the exact outcome unpinned; what holds of every
/// outcome: nothing but pending deltas of leeward-edge cells changes, they
/// only grow, in total by at most the amount drawn plus one capacity, and
/// the reserve only shrinks, by exactly the amount drawn.
#[verifier::loop_isolation(false)]
pub fn nanite_introduction(
    hex_grid: &mut HexGrid,
    weather: &Weather,
    nanite_reserve: &mut NaniteReserve,
    rng: &mut rand::rngs::StdRng,
)
    requires
        old(hex_grid).wf(),
        weather.wind_direction < 360,
        forall|j: int|
            0 <= j < old(hex_grid).cells@.len() ==> (#[trigger] old(hex_grid).cells@[j])
                .nanite.transient_nanites + old(nanite_reserve).amount + CAPACITY_LIMIT
                <= u64::MAX,
    ensures
        final(hex_grid).wf(),
        final(hex_grid).size == old(hex_grid).size,
        final(nanite_reserve).amount <= old(nanite_reserve).amount,
        forall|j: int|
            0 <= j < old(hex_grid).cells@.len() ==> {
                let before = old(hex_grid).cells@[j];
                let after = (#[trigger] final(hex_grid).cells@[j]);
                &&& after.terrain == before.terrain
                &&& after.nanite.nanite_capacity == before.nanite.nanite_capacity
                &&& after.nanite.nanite_total == before.nanite.nanite_total
                &&& after.nanite.transient_nanites >= before.nanite.transient_nanites
                &&& after.nanite.transient_nanites <= before.nanite.transient_nanites + old(
                    nanite_reserve,
                ).amount + CAPACITY_LIMIT
            },
        forall|j: int|
            0 <= j < old(hex_grid).cells@.len() && (#[trigger] final(hex_grid).cells@[j])
                .nanite.transient_nanites != old(hex_grid).cells@[j].nanite.transient_nanites
                ==> crate::hex_grid::edge_list(
                old(hex_grid).size as int,
                (weather.wind_direction + 180) % 360,
            ).contains(
                gp(j / (old(hex_grid).size as int), j % (old(hex_grid).size as int)),
            ),
        pending_mass(final(hex_grid).cells@) + final(nanite_reserve).amount <= pending_mass(
            old(hex_grid).cells@,
        ) + old(nanite_reserve).amount + CAPACITY_LIMIT,
        amount_mass(final(hex_grid).cells@) == amount_mass(old(hex_grid).cells@),
        old(nanite_reserve).amount == 0 ==> final(hex_grid).cells@ == old(hex_grid).cells@
            && final(nanite_reserve).amount == 0,
{
    let n = hex_grid.size;
    let ghost nn = n as int;
    let ghost g0 = hex_grid.cells@;
    let ghost adir = ((weather.wind_direction + 180) % 360) as int;
    let edges = hex_grid.direction_edges(weather.wind_direction + 180);
    let mut pool = nanite_reserve.pull(rng);
    let ghost pool0 = pool;
    while pool > 0 && edges.len() > 0
        invariant
            hex_grid.wf(),
            hex_grid.size == n,
            hex_grid.cells@.len() == g0.len(),
            pool <= pool0,
            forall|j: int|
                0 <= j < g0.len() ==> {
                    let before = g0[j];
                    let after = (#[trigger] hex_grid.cells@[j]);
                    &&& after.terrain == before.terrain
                    &&& after.nanite.nanite_capacity == before.nanite.nanite_capacity
                    &&& after.nanite.nanite_total == before.nanite.nanite_total
                    &&& after.nanite.transient_nanites >= before.nanite.transient_nanites
                },
            forall|j: int|
                0 <= j < g0.len() && (#[trigger] hex_grid.cells@[j]).nanite.transient_nanites
                    != g0[j].nanite.transient_nanites ==> crate::hex_grid::edge_list(
                    nn,
                    adir,
                ).contains(gp(j / nn, j % nn)),
            ((pending_mass(hex_grid.cells@) + pool <= pending_mass(g0) + pool0 && forall|j: int|
                0 <= j < g0.len() ==> (#[trigger] hex_grid.cells@[j]).nanite.transient_nanites
                    + pool <= g0[j].nanite.transient_nanites + pool0) || (pool == 0 && pool0 > 0
                && pending_mass(hex_grid.cells@) <= pending_mass(g0) + pool0 + CAPACITY_LIMIT
                && forall|
                j: int,
            |
                0 <= j < g0.len() ==> (#[trigger] hex_grid.cells@[j]).nanite.transient_nanites
                    <= g0[j].nanite.transient_nanites + pool0 + CAPACITY_LIMIT)),
        decreases pool,
    {
        let idx = rng_below(rng, edges.len() as u64) as usize;
        let p = edges[idx];
        let ci = hex_grid.flat_index(&p);
        let cellv = hex_grid.cells[ci];
        let cap = cellv.nanite.nanite_capacity;
        let amount: u64 = if pool <= INTRO_THRESHOLD {
            pool
        } else {
            let f = rng_below(rng, 1000);
            proof {
                lemma_mul_upper_bound(cap as int, CAPACITY_LIMIT as int, f as int, 1000);
                lemma_mul_inequality(f as int, 1000, cap as int);
                assert(cap * f == f * cap) by (nonlinear_arith);
                assert(cap * 1000 == 1000 * cap) by (nonlinear_arith);
                vstd::arithmetic::div_mod::lemma_div_is_ordered(
                    cap * f,
                    cap * 1000,
                    1000,
                );
                vstd::arithmetic::div_mod::lemma_div_multiples_vanish(cap as int, 1000);
                vstd::arithmetic::div_mod::lemma_div_pos_is_pos(cap * f, 1000);
            }
            let a = (cap * f) / 1000;
            if a == 0 {
                1
            } else {
                a
            }
        };
        proof {
            assert(1 <= amount);
            assert(amount <= pool || amount <= cap);
            lemma_fundamental_div_mod_converse_div(
                p.pos.0 as int * nn + p.pos.1 as int,
                nn,
                p.pos.0 as int,
                p.pos.1 as int,
            );
            lemma_fundamental_div_mod_converse_mod(
                p.pos.0 as int * nn + p.pos.1 as int,
                nn,
                p.pos.0 as int,
                p.pos.1 as int,
            );
            assert(gp(ci as int / nn, ci as int % nn) == edges@[idx as int]);
            assert(crate::hex_grid::edge_list(nn, adir).contains(edges@[idx as int]));
        }
        let ghost before = hex_grid.cells@;
        let mut tc = cellv;
        tc.nanite.add_transient_nanites(amount);
        hex_grid.cells[ci] = tc;
        proof {
            lemma_mass_update(before, ci as int, tc);
            assert(hex_grid.cells@ =~= before.update(ci as int, tc));
        }
        let dec = if amount > pool {
            pool
        } else {
            amount
        };
        pool = pool - dec;
    }
    proof {
        crate::mass::lemma_amount_mass_pointwise(hex_grid.cells@, g0);
        if pool0 == 0 {
            assert(hex_grid.cells@ =~= g0);
        }
    }
}

/// One slow tick of the transport scheduler: advection, then overflow
/// diffusion, then edge injection, strictly in that order. The commit pass
/// is not part of it; it runs on its own, faster cadence.
///
/// The precondition that grid and reserve together hold at most
/// `CELL_LIMIT` of substance is the headroom under which all three passes
/// are overflow-free; a tick can grow the total held by at most one cell
/// capacity (the injection loop's final helping), so a caller re-checks
/// the bound before each tick.
pub fn slow_tick(
    hex_grid: &mut HexGrid,
    weather: &Weather,
    nanite_reserve: &mut NaniteReserve,
    rng: &mut rand::rngs::StdRng,
)
    requires
        old(hex_grid).wf(),
        old(hex_grid).size <= MAX_PASS_SIZE,
        weather.wind_direction < 360,
        grid_mass(old(hex_grid).cells@) + old(nanite_reserve).amount <= CELL_LIMIT,
    ensures
        final(hex_grid).wf(),
        final(hex_grid).size == old(hex_grid).size,
        ({
            let n = old(hex_grid).size as int;
            let w = wind_pass(
                old(hex_grid).cells@,
                n,
                weather.wind_direction as int,
                weather.wind_strength as int,
                old(nanite_reserve).amount as int,
                (n * n) as nat,
            );
            let d = disperse_pass(w.0, n, (n * n) as nat);
            &&& final(nanite_reserve).amount <= w.1
            &&& forall|j: int|
                0 <= j < d.len() ==> {
                    let after = (#[trigger] final(hex_grid).cells@[j]);
                    &&& after.terrain == d[j].terrain
                    &&& after.nanite.nanite_capacity == d[j].nanite.nanite_capacity
                    &&& after.nanite.nanite_total == d[j].nanite.nanite_total
                    &&& after.nanite.transient_nanites >= d[j].nanite.transient_nanites
                }
            &&& forall|j: int|
                0 <= j < d.len() && (#[trigger] final(hex_grid).cells@[j])
                    .nanite.transient_nanites != d[j].nanite.transient_nanites
                    ==> crate::hex_grid::edge_list(
                    n,
                    (weather.wind_direction + 180) % 360,
                ).contains(gp(j / n, j % n))
        }),
        grid_mass(final(hex_grid).cells@) + final(nanite_reserve).amount <= grid_mass(
            old(hex_grid).cells@,
        ) + old(nanite_reserve).amount + CAPACITY_LIMIT,
{
    let ghost g0 = hex_grid.cells@;
    let ghost n = hex_grid.size as int;
    let ghost res0 = nanite_reserve.amount as int;
    let ghost dir = weather.wind_direction as int;
    let ghost s = weather.wind_strength as int;
    let ghost count = (n * n) as nat;
    proof {
        assert(n * n <= 0x40000) by (nonlinear_arith)
            requires
                1 <= n <= 0x200,
        ;
        lemma_mass_nonneg(g0);
        assert forall|j: int| 0 <= j < g0.len() implies (#[trigger] g0[j]).nanite.nanite_total
            <= CELL_LIMIT && g0[j].nanite.transient_nanites <= CELL_LIMIT by {
            lemma_element_le_mass(g0, j);
        }
    }
    nanite_wind(hex_grid, weather, nanite_reserve);
    let ghost w = wind_pass(g0, n, dir, s, res0, count);
    proof {
        lemma_wind_pass_mass(g0, n, dir, s, res0, count);
        lemma_wind_pass_props(g0, n, dir, s, res0, count);
        lemma_mass_nonneg(w.0);
        assert forall|j: int| 0 <= j < w.0.len() implies (#[trigger] w.0[j]).nanite.nanite_total
            <= CELL_LIMIT && w.0[j].nanite.transient_nanites <= CELL_LIMIT by {
            lemma_element_le_mass(w.0, j);
        }
    }
    nanite_dispersion(hex_grid);
    let ghost d = disperse_pass(w.0, n, count);
    proof {
        lemma_disperse_pass_mass(w.0, n, count);
        lemma_disperse_pass_props(w.0, n, count);
        lemma_mass_nonneg(d);
        assert forall|j: int| 0 <= j < d.len() implies (#[trigger] d[j]).nanite.transient_nanites
            + nanite_reserve.amount + CAPACITY_LIMIT <= u64::MAX by {
            lemma_element_le_mass(d, j);
        }
    }
    nanite_introduction(hex_grid, weather, nanite_reserve, rng);
}

/// Commit pass: fold every cell's pending delta into its committed level
/// and clear the delta. Runs on its own (typically faster) cadence than the
/// transport passes, so observers always see whole committed values; a cell
/// with a zero delta is unchanged, which also makes a repeated commit a
/// no-op.
pub fn nanite_transient_apply(hex_grid: &mut HexGrid)
    requires
        old(hex_grid).wf(),
        forall|j: int|
            0 <= j < old(hex_grid).cells@.len() ==> (#[trigger] old(hex_grid).cells@[j])
                .nanite.nanite_total + old(hex_grid).cells@[j].nanite.transient_nanites
                <= u64::MAX,
    ensures
        final(hex_grid).wf(),
        final(hex_grid).size == old(hex_grid).size,
        final(hex_grid).cells@.len() == old(hex_grid).cells@.len(),
        forall|j: int|
            0 <= j < old(hex_grid).cells@.len() ==> {
                let before = old(hex_grid).cells@[j];
                let after = (#[trigger] final(hex_grid).cells@[j]);
                after.terrain == before.terrain && after.nanite == committed(before.nanite)
            },
{
    let ghost g0 = hex_grid.cells@;
    let count: usize = hex_grid.cells.len();
    let mut k: usize = 0;
    while k < count
        invariant
            hex_grid.wf(),
            hex_grid.size == old(hex_grid).size,
            g0 == old(hex_grid).cells@,
            g0.len() == count,
            hex_grid.cells@.len() == count,
            forall|j: int|
                0 <= j < g0.len() ==> (#[trigger] g0[j]).nanite.nanite_total
                    + g0[j].nanite.transient_nanites <= u64::MAX,
            k <= count,
            forall|j: int|
                k <= j < count ==> (#[trigger] hex_grid.cells@[j]) == g0[j],
            forall|j: int|
                0 <= j < k ==> {
                    let after = (#[trigger] hex_grid.cells@[j]);
                    after.terrain == g0[j].terrain && after.nanite == committed(g0[j].nanite)
                },
        decreases count - k,
    {
        let cell = hex_grid.cells[k];
        let mut nan = cell.nanite;
        nan.apply_transient_nanites();
        hex_grid.cells[k] = Cell { nanite: nan, ..cell };
        k = k + 1;
    }
}

/// Wind drift trigger: perturb the wind direction by a random delta.
pub fn adjust_wind(weather: &mut Weather, rng: &mut rand::rngs::StdRng)
    requires
        old(weather).wind_direction < 360,
    ensures
        final(weather).wind_direction < 360,
        final(weather).wind_strength == old(weather).wind_strength,
{
    weather.adjust_wind(rng);
}

} // verus!
