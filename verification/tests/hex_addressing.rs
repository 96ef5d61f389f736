use nanite_hex::GridPos;
use nanite_hex::HexDirection;
use nanite_hex::HexGrid;
use rand::SeedableRng;

fn rng() -> rand::rngs::StdRng {
    rand::rngs::StdRng::seed_from_u64(42)
}

fn pos(r: usize, c: usize) -> GridPos {
    GridPos { pos: (r, c) }
}

#[test]
fn grid_pos_parity_and_int() {
    assert!(pos(0, 5).row_is_even());
    assert!(!pos(3, 0).row_is_even());
    assert_eq!(pos(2, 7).to_int(), (2, 7));
}

#[test]
fn from_angle_covers_every_sector() {
    assert_eq!(HexDirection::from_angle(0), HexDirection::Right);
    assert_eq!(HexDirection::from_angle(29), HexDirection::Right);
    assert_eq!(HexDirection::from_angle(30), HexDirection::BottomRight);
    assert_eq!(HexDirection::from_angle(89), HexDirection::BottomRight);
    assert_eq!(HexDirection::from_angle(90), HexDirection::BottomLeft);
    assert_eq!(HexDirection::from_angle(149), HexDirection::BottomLeft);
    assert_eq!(HexDirection::from_angle(150), HexDirection::Left);
    assert_eq!(HexDirection::from_angle(209), HexDirection::Left);
    assert_eq!(HexDirection::from_angle(210), HexDirection::TopLeft);
    assert_eq!(HexDirection::from_angle(269), HexDirection::TopLeft);
    assert_eq!(HexDirection::from_angle(270), HexDirection::TopRight);
    assert_eq!(HexDirection::from_angle(329), HexDirection::TopRight);
    assert_eq!(HexDirection::from_angle(330), HexDirection::Right);
    assert_eq!(HexDirection::from_angle(359), HexDirection::Right);
}

#[test]
fn from_angle_reduces_full_turns() {
    assert_eq!(HexDirection::from_angle(360), HexDirection::Right);
    assert_eq!(HexDirection::from_angle(360 + 45), HexDirection::BottomRight);
    assert_eq!(HexDirection::from_angle(720 + 200), HexDirection::Left);
}

#[test]
fn every_angle_gets_a_sector() {
    for angle in 0..360u64 {
        // A total match: no angle escapes classification.
        let _ = HexDirection::from_angle(angle);
    }
}

#[test]
fn neighbors_even_row_corner() {
    let g = HexGrid::new(3, &mut rng());
    let n = g.get_neigbors(&pos(0, 0));
    assert_eq!(n.top_left, Some(pos(1, 0)));
    assert_eq!(n.top_right, Some(pos(1, 1)));
    assert_eq!(n.right, Some(pos(0, 1)));
    assert_eq!(n.bottom_left, None);
    assert_eq!(n.bottom_right, None);
    assert_eq!(n.left, None);
}

#[test]
fn neighbors_odd_row_center() {
    let g = HexGrid::new(3, &mut rng());
    let n = g.get_neigbors(&pos(1, 1));
    assert_eq!(n.top_left, Some(pos(2, 0)));
    assert_eq!(n.top_right, Some(pos(2, 1)));
    assert_eq!(n.left, Some(pos(1, 0)));
    assert_eq!(n.right, Some(pos(1, 2)));
    assert_eq!(n.bottom_left, Some(pos(0, 0)));
    assert_eq!(n.bottom_right, Some(pos(0, 1)));
}

#[test]
fn neighbor_symmetry_sample() {
    // (1,1)'s top-left neighbor is (2,0); (2,0)'s bottom-right is (1,1).
    let g = HexGrid::new(3, &mut rng());
    assert_eq!(g.get_neigbors(&pos(1, 1)).top_left, Some(pos(2, 0)));
    assert_eq!(g.get_neigbors(&pos(2, 0)).bottom_right, Some(pos(1, 1)));
    // And along the rows: (1,1) right is (1,2); (1,2) left is (1,1).
    assert_eq!(g.get_neigbors(&pos(1, 1)).right, Some(pos(1, 2)));
    assert_eq!(g.get_neigbors(&pos(1, 2)).left, Some(pos(1, 1)));
}

#[test]
fn single_cell_grid_has_no_neighbors() {
    let g = HexGrid::new(1, &mut rng());
    let n = g.get_neigbors(&pos(0, 0));
    assert_eq!(n.top_left, None);
    assert_eq!(n.top_right, None);
    assert_eq!(n.left, None);
    assert_eq!(n.right, None);
    assert_eq!(n.bottom_left, None);
    assert_eq!(n.bottom_right, None);
    assert!(n.some_neighbors().is_empty());
}

#[test]
fn some_neighbors_keeps_order_and_drops_absent() {
    let g = HexGrid::new(3, &mut rng());
    let n = g.get_neigbors(&pos(0, 0));
    let present = n.some_neighbors();
    assert_eq!(present, vec![pos(1, 0), pos(1, 1), pos(0, 1)]);
}

#[test]
fn wind_neighbor_follows_sector() {
    let g = HexGrid::new(3, &mut rng());
    // Wind toward 0 degrees pushes to the right neighbor.
    assert_eq!(g.get_wind_neighors_new(&pos(1, 1), 0), Some(pos(1, 2)));
    // Wind toward 180 degrees pushes to the left neighbor.
    assert_eq!(g.get_wind_neighors_new(&pos(1, 1), 180), Some(pos(1, 0)));
    // From the right edge, wind toward 0 points off the grid.
    assert_eq!(g.get_wind_neighors_new(&pos(1, 2), 0), None);
}

#[test]
fn direction_edges_cardinal_sectors() {
    let g = HexGrid::new(3, &mut rng());
    let right_col = vec![pos(0, 2), pos(1, 2), pos(2, 2)];
    let left_col = vec![pos(0, 0), pos(1, 0), pos(2, 0)];
    let bottom_row = vec![pos(0, 0), pos(0, 1), pos(0, 2)];
    let top_row = vec![pos(2, 0), pos(2, 1), pos(2, 2)];
    assert_eq!(g.direction_edges(0), right_col);
    assert_eq!(g.direction_edges(22), right_col);
    assert_eq!(g.direction_edges(338), right_col);
    assert_eq!(g.direction_edges(90), bottom_row);
    assert_eq!(g.direction_edges(68), bottom_row);
    assert_eq!(g.direction_edges(112), bottom_row);
    assert_eq!(g.direction_edges(180), left_col);
    assert_eq!(g.direction_edges(158), left_col);
    assert_eq!(g.direction_edges(202), left_col);
    assert_eq!(g.direction_edges(270), top_row);
    assert_eq!(g.direction_edges(248), top_row);
    assert_eq!(g.direction_edges(292), top_row);
}

#[test]
fn direction_edges_diagonal_sectors_concatenate_and_keep_corners() {
    let g = HexGrid::new(3, &mut rng());
    // Bottom-right: rightmost column then bottom row; (0,2) appears twice.
    let br = g.direction_edges(45);
    assert_eq!(
        br,
        vec![pos(0, 2), pos(1, 2), pos(2, 2), pos(0, 0), pos(0, 1), pos(0, 2)]
    );
    // Bottom-left: leftmost column then bottom row.
    let bl = g.direction_edges(135);
    assert_eq!(
        bl,
        vec![pos(0, 0), pos(1, 0), pos(2, 0), pos(0, 0), pos(0, 1), pos(0, 2)]
    );
    // Top-left: leftmost column then top row.
    let tl = g.direction_edges(225);
    assert_eq!(
        tl,
        vec![pos(0, 0), pos(1, 0), pos(2, 0), pos(2, 0), pos(2, 1), pos(2, 2)]
    );
    // Top-right: rightmost column then top row.
    let tr = g.direction_edges(315);
    assert_eq!(
        tr,
        vec![pos(0, 2), pos(1, 2), pos(2, 2), pos(2, 0), pos(2, 1), pos(2, 2)]
    );
}

#[test]
fn direction_edges_single_cell() {
    let g = HexGrid::new(1, &mut rng());
    for angle in [0u64, 45, 90, 135, 180, 225, 270, 315] {
        let e = g.direction_edges(angle);
        assert!(!e.is_empty());
        for p in e {
            assert_eq!(p, pos(0, 0));
        }
    }
}
