use nanite_hex::Nanite;
use nanite_hex::nanite::DEFAULT_CAPACITY;
use nanite_hex::nanite::MILLI;
use rand::SeedableRng;

#[test]
fn new_empty_cell() {
    let n = Nanite::new_empty();
    assert_eq!(n.nanite_capacity, 20 * MILLI);
    assert_eq!(n.nanite_capacity, DEFAULT_CAPACITY);
    assert_eq!(n.nanite_total, 0);
    assert_eq!(n.transient_nanites, 0);
}

#[test]
fn new_rand_filled_stays_below_capacity() {
    let mut rng = rand::rngs::StdRng::seed_from_u64(7);
    for _ in 0..50 {
        let n = Nanite::new_rand_filled(&mut rng);
        assert_eq!(n.nanite_capacity, DEFAULT_CAPACITY);
        assert!(n.nanite_total < n.nanite_capacity);
        assert_eq!(n.transient_nanites, 0);
    }
}

#[test]
fn wind_pull_conserves_mass() {
    // Half strength on ten units pulls exactly five units.
    let mut n = Nanite::new_empty();
    n.nanite_total = 10 * MILLI;
    let pulled = n.wind_pull(500);
    assert_eq!(pulled, 5 * MILLI);
    assert_eq!(n.nanite_total, 5 * MILLI);
    assert_eq!(pulled + n.nanite_total, 10 * MILLI);
}

#[test]
fn wind_pull_clamps_strength() {
    let mut n = Nanite::new_empty();
    n.nanite_total = 4 * MILLI;
    // Anything above full strength acts as full strength.
    let pulled = n.wind_pull(5000);
    assert_eq!(pulled, 4 * MILLI);
    assert_eq!(n.nanite_total, 0);
}

#[test]
fn wind_pull_rounds_down() {
    let mut n = Nanite::new_empty();
    n.nanite_total = 3;
    let pulled = n.wind_pull(500);
    assert_eq!(pulled, 1);
    assert_eq!(n.nanite_total, 2);
}

#[test]
fn spill_returns_exact_excess() {
    let mut n = Nanite::new_empty();
    n.nanite_total = 25 * MILLI;
    let excess = n.spill();
    assert_eq!(excess, 5 * MILLI);
    assert_eq!(n.nanite_total, n.nanite_capacity);
}

#[test]
fn spill_under_capacity_is_zero() {
    let mut n = Nanite::new_empty();
    n.nanite_total = 19 * MILLI;
    assert_eq!(n.spill(), 0);
    assert_eq!(n.nanite_total, 19 * MILLI);
}

#[test]
fn is_full_is_strict() {
    let mut n = Nanite::new_empty();
    n.nanite_total = n.nanite_capacity;
    assert!(!n.is_full());
    n.nanite_total = n.nanite_capacity + 1;
    assert!(n.is_full());
}

#[test]
fn transient_accumulates_and_commit_applies() {
    let mut n = Nanite::new_empty();
    n.add_transient_nanites(3 * MILLI);
    n.add_transient_nanites(2 * MILLI);
    assert_eq!(n.transient_nanites, 5 * MILLI);
    assert_eq!(n.nanite_total, 0);
    n.apply_transient_nanites();
    assert_eq!(n.nanite_total, 5 * MILLI);
    assert_eq!(n.transient_nanites, 0);
}

#[test]
fn commit_twice_is_commit_once() {
    let mut n = Nanite::new_empty();
    n.add_transient_nanites(7 * MILLI);
    n.apply_transient_nanites();
    let after_once = n;
    n.apply_transient_nanites();
    assert_eq!(n, after_once);
}
