use nanite_hex::GridPos;
use nanite_hex::HexGrid;
use nanite_hex::NaniteReserve;
use nanite_hex::Weather;
use nanite_hex::nanite::MILLI;
use nanite_hex::systems::nanite_dispersion;
use nanite_hex::systems::nanite_introduction;
use nanite_hex::systems::nanite_transient_apply;
use nanite_hex::systems::nanite_wind;
use rand::SeedableRng;

fn rng() -> rand::rngs::StdRng {
    rand::rngs::StdRng::seed_from_u64(42)
}

fn pos(r: usize, c: usize) -> GridPos {
    GridPos { pos: (r, c) }
}

fn empty_grid(n: usize) -> HexGrid {
    let g = HexGrid::new(n, &mut rng());
    for cell in &g.cells {
        assert_eq!(cell.nanite.nanite_total, 0);
        assert_eq!(cell.nanite.transient_nanites, 0);
        assert_eq!(cell.nanite.nanite_capacity, 20 * MILLI);
    }
    g
}

#[test]
fn advection_moves_half_to_right_neighbor() {
    // Wind at 0 degrees, half strength, substance at (0,0): the right
    // neighbor's pending grows by the pulled half, its own level is not
    // touched until commit.
    let mut grid = empty_grid(2);
    grid.cells[0].nanite.nanite_total = 10 * MILLI;
    let weather = Weather { wind_strength: 500, wind_direction: 0 };
    let mut reserve = NaniteReserve { amount: 0 };
    nanite_wind(&mut grid, &weather, &mut reserve);
    assert_eq!(grid.amount(&pos(0, 0)), 5 * MILLI);
    assert_eq!(grid.cells[1].nanite.transient_nanites, 5 * MILLI);
    assert_eq!(grid.amount(&pos(0, 1)), 0);
    assert_eq!(reserve.amount, 0);
    nanite_transient_apply(&mut grid);
    assert_eq!(grid.amount(&pos(0, 1)), 5 * MILLI);
}

#[test]
fn advection_on_single_cell_routes_to_reserve() {
    // A one-by-one grid has no neighbor in any direction, so everything
    // the wind pulls lands in the reserve pool.
    let mut grid = empty_grid(1);
    grid.cells[0].nanite.nanite_total = 10 * MILLI;
    let weather = Weather { wind_strength: 1000, wind_direction: 123 };
    let mut reserve = NaniteReserve { amount: 3 * MILLI };
    nanite_wind(&mut grid, &weather, &mut reserve);
    assert_eq!(grid.amount(&pos(0, 0)), 0);
    assert_eq!(grid.cells[0].nanite.transient_nanites, 0);
    assert_eq!(reserve.amount, 13 * MILLI);
}

#[test]
fn advection_conserves_grid_and_reserve_mass() {
    let mut grid = empty_grid(3);
    grid.cells[0].nanite.nanite_total = 7 * MILLI;
    grid.cells[4].nanite.nanite_total = 11 * MILLI;
    grid.cells[8].nanite.nanite_total = 2 * MILLI;
    let before: u64 = grid.cells.iter().map(|c| c.nanite.nanite_total + c.nanite.transient_nanites).sum::<u64>();
    let weather = Weather { wind_strength: 700, wind_direction: 200 };
    let mut reserve = NaniteReserve { amount: 5 * MILLI };
    nanite_wind(&mut grid, &weather, &mut reserve);
    let after: u64 = grid.cells.iter().map(|c| c.nanite.nanite_total + c.nanite.transient_nanites).sum::<u64>();
    assert_eq!(before + 5 * MILLI, after + reserve.amount);
}

#[test]
fn dispersion_shares_excess_across_six_low_neighbors() {
    // The scenario: all cells empty with capacity 20, 25 injected at the
    // center of a 3 by 3 grid. The spill of 5 is split across six lower
    // neighbors: 5000 thousandths over six gives 833 each, with the two
    // first-visited neighbors (top-left, top-right) taking the remainder.
    let mut grid = empty_grid(3);
    grid.cells[4].nanite.add_transient_nanites(25 * MILLI);
    nanite_transient_apply(&mut grid);
    assert_eq!(grid.amount(&pos(1, 1)), 25 * MILLI);
    assert!(grid.amount(&pos(1, 1)) > grid.capacity(&pos(1, 1)));

    nanite_dispersion(&mut grid);
    assert_eq!(grid.amount(&pos(1, 1)), 20 * MILLI);
    // Pending shares, in visiting order TL, TR, L, R, BL, BR.
    assert_eq!(grid.cells[6].nanite.transient_nanites, 834); // (2,0) top-left
    assert_eq!(grid.cells[7].nanite.transient_nanites, 834); // (2,1) top-right
    assert_eq!(grid.cells[3].nanite.transient_nanites, 833); // (1,0) left
    assert_eq!(grid.cells[5].nanite.transient_nanites, 833); // (1,2) right
    assert_eq!(grid.cells[0].nanite.transient_nanites, 833); // (0,0) bottom-left
    assert_eq!(grid.cells[1].nanite.transient_nanites, 833); // (0,1) bottom-right
    let shared: u64 = grid.cells.iter().map(|c| c.nanite.transient_nanites).sum();
    assert_eq!(shared, 5 * MILLI);

    nanite_transient_apply(&mut grid);
    assert_eq!(grid.amount(&pos(1, 1)), 20 * MILLI);
    assert_eq!(grid.amount(&pos(2, 0)), 834);
    assert_eq!(grid.amount(&pos(2, 1)), 834);
    assert_eq!(grid.amount(&pos(1, 0)), 833);
    assert_eq!(grid.amount(&pos(1, 2)), 833);
    assert_eq!(grid.amount(&pos(0, 0)), 833);
    assert_eq!(grid.amount(&pos(0, 1)), 833);
}

#[test]
fn dispersion_skips_full_cell_without_lower_neighbor() {
    // Every cell equally overfull: no neighbor is strictly lower, so the
    // degenerate split is skipped and nothing moves.
    let mut grid = empty_grid(2);
    for cell in &mut grid.cells {
        cell.nanite.nanite_total = 30 * MILLI;
    }
    nanite_dispersion(&mut grid);
    for cell in &grid.cells {
        assert_eq!(cell.nanite.nanite_total, 30 * MILLI);
        assert_eq!(cell.nanite.transient_nanites, 0);
    }
}

#[test]
fn dispersion_ignores_cell_exactly_at_capacity() {
    let mut grid = empty_grid(2);
    grid.cells[0].nanite.nanite_total = 20 * MILLI;
    nanite_dispersion(&mut grid);
    assert_eq!(grid.amount(&pos(0, 0)), 20 * MILLI);
    for cell in &grid.cells {
        assert_eq!(cell.nanite.transient_nanites, 0);
    }
}

#[test]
fn introduction_with_empty_reserve_changes_nothing() {
    let mut grid = empty_grid(3);
    grid.cells[4].nanite.nanite_total = 9 * MILLI;
    let weather = Weather { wind_strength: 500, wind_direction: 90 };
    let mut reserve = NaniteReserve { amount: 0 };
    let mut r = rng();
    nanite_introduction(&mut grid, &weather, &mut reserve, &mut r);
    assert_eq!(reserve.amount, 0);
    for cell in &grid.cells {
        assert_eq!(cell.nanite.transient_nanites, 0);
    }
    assert_eq!(grid.amount(&pos(1, 1)), 9 * MILLI);
}

#[test]
fn introduction_feeds_only_the_leeward_edge() {
    // Wind toward 0 degrees: injection feeds the edge facing 180, the
    // leftmost column. Committed levels stay untouched; the reserve only
    // shrinks.
    let mut grid = empty_grid(3);
    let weather = Weather { wind_strength: 500, wind_direction: 0 };
    let mut reserve = NaniteReserve { amount: 100 * MILLI };
    let mut r = rng();
    nanite_introduction(&mut grid, &weather, &mut reserve, &mut r);
    assert!(reserve.amount <= 100 * MILLI);
    for (i, cell) in grid.cells.iter().enumerate() {
        assert_eq!(cell.nanite.nanite_total, 0);
        let col = i % 3;
        if col != 0 {
            assert_eq!(cell.nanite.transient_nanites, 0);
        }
    }
}

#[test]
fn introduction_small_pool_is_deposited_whole() {
    // With at most five units drawn, the loop deposits the entire local
    // pool in one helping, so the pending mass added equals exactly what
    // left the reserve.
    let mut grid = empty_grid(3);
    let weather = Weather { wind_strength: 500, wind_direction: 270 };
    let mut reserve = NaniteReserve { amount: 4 * MILLI };
    let mut r = rng();
    nanite_introduction(&mut grid, &weather, &mut reserve, &mut r);
    let pending_sum: u64 = grid.cells.iter().map(|c| c.nanite.transient_nanites).sum();
    assert_eq!(pending_sum + reserve.amount, 4 * MILLI);
}

#[test]
fn slow_tick_runs_phases_in_order() {
    // With an empty reserve the tick is wind then diffusion alone: the
    // overfull corner first loses half to the wind, and what remains
    // (still over capacity) spills to the strictly lower neighbors.
    let mut grid = empty_grid(2);
    grid.cells[0].nanite.nanite_total = 44 * MILLI;
    let weather = Weather { wind_strength: 500, wind_direction: 0 };
    let mut reserve = NaniteReserve { amount: 0 };
    let mut r = rng();
    nanite_hex::systems::slow_tick(&mut grid, &weather, &mut reserve, &mut r);
    // Wind: (0,0) halves to 22, the pulled 22 pends on (0,1).
    // Diffusion: (0,0) at 22 spills 2 across its three empty neighbors.
    assert_eq!(grid.amount(&pos(0, 0)), 20 * MILLI);
    assert_eq!(reserve.amount, 0);
    let pending_sum: u64 = grid.cells.iter().map(|c| c.nanite.transient_nanites).sum();
    assert_eq!(pending_sum, 24 * MILLI);
    nanite_transient_apply(&mut grid);
    let total_sum: u64 = grid.cells.iter().map(|c| c.nanite.nanite_total).sum();
    assert_eq!(total_sum, 44 * MILLI);
}

#[test]
fn slow_tick_sequence_keeps_levels_sane() {
    // A few full ticks in the documented order: advection, diffusion,
    // injection, then commit. Committed levels must stay non-negative and
    // no pending delta survives a commit.
    let mut grid = empty_grid(4);
    grid.cells[5].nanite.nanite_total = 18 * MILLI;
    let mut weather = Weather { wind_strength: 1000, wind_direction: 0 };
    let mut reserve = NaniteReserve { amount: 1000 * MILLI };
    let mut r = rng();
    for _ in 0..5 {
        nanite_wind(&mut grid, &weather, &mut reserve);
        nanite_dispersion(&mut grid);
        nanite_introduction(&mut grid, &weather, &mut reserve, &mut r);
        nanite_transient_apply(&mut grid);
        nanite_hex::systems::adjust_wind(&mut weather, &mut r);
        assert!(weather.wind_direction < 360);
        for cell in &grid.cells {
            assert_eq!(cell.nanite.transient_nanites, 0);
        }
    }
}
