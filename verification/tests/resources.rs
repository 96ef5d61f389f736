use nanite_hex::GameEntitiesClickable;
use nanite_hex::GridPos;
use nanite_hex::HexGrid;
use nanite_hex::NaniteReserve;
use nanite_hex::Team;
use nanite_hex::Terrain;
use nanite_hex::TickTimer;
use nanite_hex::Weather;
use nanite_hex::ClickSignal;
use nanite_hex::nanite::MILLI;
use rand::SeedableRng;

fn rng() -> rand::rngs::StdRng {
    rand::rngs::StdRng::seed_from_u64(42)
}

#[test]
fn grid_construction_shape_and_reads() {
    let mut r = rng();
    let g = HexGrid::new(16, &mut r);
    assert_eq!(g.size, 16);
    assert_eq!(g.cells.len(), 256);
    let p = GridPos { pos: (3, 14) };
    assert_eq!(g.amount(&p), 0);
    assert_eq!(g.capacity(&p), 20 * MILLI);
    let t = g.terrain(&p);
    assert!(t == Terrain::Land || t == Terrain::Water);
}

#[test]
fn terrain_text_names() {
    assert_eq!(Terrain::Land.to_text(), "Land");
    assert_eq!(Terrain::Water.to_text(), "Water");
}

#[test]
fn terrain_from_random_draws_both_kinds() {
    let mut r = rng();
    let mut land = 0;
    let mut water = 0;
    for _ in 0..200 {
        match Terrain::from_random(&mut r) {
            Terrain::Land => land += 1,
            Terrain::Water => water += 1,
        }
    }
    assert!(land > 0 && water > 0);
    assert_eq!(land + water, 200);
}

#[test]
fn reserve_add_and_partial_pull() {
    let mut r = rng();
    let mut pool = NaniteReserve { amount: 0 };
    pool.add_nanites(1000 * MILLI);
    assert_eq!(pool.amount, 1000 * MILLI);
    let drawn = pool.pull(&mut r);
    assert!(drawn <= 1000 * MILLI);
    assert_eq!(pool.amount, 1000 * MILLI - drawn);
}

#[test]
fn reserve_pull_from_empty_is_zero() {
    let mut r = rng();
    let mut pool = NaniteReserve { amount: 0 };
    assert_eq!(pool.pull(&mut r), 0);
    assert_eq!(pool.amount, 0);
}

#[test]
fn wind_drift_stays_normalized() {
    let mut r = rng();
    let mut w = Weather { wind_strength: 700, wind_direction: 350 };
    for _ in 0..200 {
        w.adjust_wind(&mut r);
        assert!(w.wind_direction < 360);
        assert_eq!(w.wind_strength, 700);
    }
}

#[test]
fn debug_wind_swings_forty_degrees_and_wraps() {
    let mut w = Weather { wind_strength: 500, wind_direction: 0 };
    w.debug_wind_adj(true);
    assert_eq!(w.wind_direction, 320);
    w.debug_wind_adj(false);
    assert_eq!(w.wind_direction, 0);
    let mut w2 = Weather { wind_strength: 500, wind_direction: 350 };
    w2.debug_wind_adj(false);
    assert_eq!(w2.wind_direction, 30);
    let mut w3 = Weather { wind_strength: 500, wind_direction: 320 };
    w3.debug_wind_adj(false);
    assert_eq!(w3.wind_direction, 0);
}

#[test]
fn tick_timer_fires_on_period() {
    let mut t = TickTimer::new(1000);
    assert!(!t.time_passed(400));
    assert!(!t.time_passed(400));
    assert!(t.time_passed(400));
    // The timer starts over from zero after firing.
    assert!(!t.time_passed(999));
    assert!(t.time_passed(1));
}

#[test]
fn interaction_defaults() {
    let clickable = GameEntitiesClickable::default();
    assert!(clickable.0);
    let s = ClickSignal::Hex;
    assert!(matches!(s, ClickSignal::Hex));
    assert!(matches!(ClickSignal::Macc, ClickSignal::Macc));
    assert!(matches!(Team::A, Team::A));
    assert!(matches!(Team::B, Team::B));
}
