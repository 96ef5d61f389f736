//! Hex addressing and the grid itself.
//!
//! The grid is square, `size` rows by `size` columns, stored row-major with
//! row 0 at the bottom edge. Hexagonal rows are staggered, so even rows and
//! odd rows use different column offsets for the same compass direction;
//! the two offset tables below are the only place that staggering appears.
//!
//! Angles use two different sector schemes on purpose: a single cell's
//! downwind neighbor is one of six 60-degree sectors (`from_angle`), while a
//! whole grid edge facing the wind is one of eight 45-degree sectors
//! (`direction_edges`), because an edge can also face a corner diagonally.

use vstd::prelude::*;
use crate::grid_pos::GridPos;
use crate::nanite::Nanite;
use crate::nanite::DEFAULT_CAPACITY;
use crate::terrain::Terrain;

verus! {

/// Upper bound on any cell's capacity, so scheduler arithmetic has headroom.
pub const CAPACITY_LIMIT: u64 = 0x1_0000_0000;

/// Largest supported grid side, so signed row/column arithmetic fits `i32`.
pub const MAX_GRID_SIZE: usize = 0x7fff;

#[derive(Clone, Copy, PartialEq, Eq, Structural, Debug)]
pub enum HexDirection {
    TopLeft,
    TopRight,
    Right,
    BottomRight,
    BottomLeft,
    Left,
}

/// The six 60-degree wind sectors, for an angle already reduced into
/// `[0, 360)`. Right owns the split range `[330, 360) | [0, 30)`.
pub open spec fn sector_of(a: int) -> HexDirection {
    if a < 30 {
        HexDirection::Right
    } else if a < 90 {
        HexDirection::BottomRight
    } else if a < 150 {
        HexDirection::BottomLeft
    } else if a < 210 {
        HexDirection::Left
    } else if a < 270 {
        HexDirection::TopLeft
    } else if a < 330 {
        HexDirection::TopRight
    } else {
        HexDirection::Right
    }
}

/// The `(row, col)` offset of a neighbor, selected by the row's parity.
pub open spec fn mask_spec(even: bool, d: HexDirection) -> (int, int) {
    if even {
        match d {
            HexDirection::TopLeft => (1int, 0int),
            HexDirection::TopRight => (1int, 1int),
            HexDirection::Right => (0int, 1int),
            HexDirection::BottomRight => (-1int, 1int),
            HexDirection::BottomLeft => (-1int, 0int),
            HexDirection::Left => (0int, -1int),
        }
    } else {
        match d {
            HexDirection::TopLeft => (1int, -1int),
            HexDirection::TopRight => (1int, 0int),
            HexDirection::Right => (0int, 1int),
            HexDirection::BottomRight => (-1int, 0int),
            HexDirection::BottomLeft => (-1int, -1int),
            HexDirection::Left => (0int, -1int),
        }
    }
}

/// The direction that points back along `d`.
pub open spec fn opposite(d: HexDirection) -> HexDirection {
    match d {
        HexDirection::TopLeft => HexDirection::BottomRight,
        HexDirection::TopRight => HexDirection::BottomLeft,
        HexDirection::Right => HexDirection::Left,
        HexDirection::BottomRight => HexDirection::TopLeft,
        HexDirection::BottomLeft => HexDirection::TopRight,
        HexDirection::Left => HexDirection::Right,
    }
}

pub open spec fn in_bounds(size: int, r: int, c: int) -> bool {
    0 <= r < size && 0 <= c < size
}

/// The neighbor coordinate of `(r, c)` in direction `d`, absent when it
/// falls off the grid (no wraparound).
pub open spec fn neighbor_coord(size: int, r: int, c: int, d: HexDirection) -> Option<(int, int)> {
    let off = mask_spec(r % 2 == 0, d);
    if in_bounds(size, r + off.0, c + off.1) {
        Some((r + off.0, c + off.1))
    } else {
        None
    }
}

pub open spec fn gp(r: int, c: int) -> GridPos {
    GridPos { pos: (r as usize, c as usize) }
}

pub open spec fn neighbor_gp(size: int, r: int, c: int, d: HexDirection) -> Option<GridPos> {
    match neighbor_coord(size, r, c, d) {
        Some(rc) => Some(gp(rc.0, rc.1)),
        None => None,
    }
}

/// Where wind blowing toward `direction` carries this cell's substance.
pub open spec fn wind_target_gp(size: int, r: int, c: int, direction: int) -> Option<GridPos> {
    neighbor_gp(size, r, c, sector_of(direction % 360))
}

impl HexDirection {
    /// Classify a compass angle (whole degrees) into its 60-degree sector.
    /// Every angle lands in a sector; the final arm doubles as the Right
    /// sector's upper half and as a defensive default.
    pub fn from_angle(angle: u64) -> (r: HexDirection)
        ensures
            r == sector_of((angle % 360) as int),
    {
        let a = angle % 360;
        if a < 30 {
            HexDirection::Right
        } else if a < 90 {
            HexDirection::BottomRight
        } else if a < 150 {
            HexDirection::BottomLeft
        } else if a < 210 {
            HexDirection::Left
        } else if a < 270 {
            HexDirection::TopLeft
        } else if a < 330 {
            HexDirection::TopRight
        } else {
            HexDirection::Right
        }
    }
}

/// One grid position: its immutable terrain and its substance state.
#[derive(Clone, Copy, PartialEq, Eq, Structural, Debug)]
pub struct Cell {
    pub terrain: Terrain,
    pub nanite: Nanite,
}

/// The square hex grid, stored row-major: `(r, c)` lives at `r * size + c`.
#[derive(Clone, Debug)]
pub struct HexGrid {
    pub size: usize,
    pub cells: Vec<Cell>,
}

/// Up to six neighbors of one cell; a field is absent when that neighbor
/// would fall off the grid.
#[derive(Clone, Copy, Debug)]
pub struct HexNeighbors {
    pub top_left: Option<GridPos>,
    pub top_right: Option<GridPos>,
    pub left: Option<GridPos>,
    pub right: Option<GridPos>,
    pub bottom_left: Option<GridPos>,
    pub bottom_right: Option<GridPos>,
}

pub open spec fn opt_seq(o: Option<GridPos>) -> Seq<GridPos> {
    match o {
        Some(p) => seq![p],
        None => Seq::empty(),
    }
}

/// The present neighbors, in the fixed order top-left, top-right, left,
/// right, bottom-left, bottom-right.
pub open spec fn some_list(n: HexNeighbors) -> Seq<GridPos> {
    opt_seq(n.top_left) + opt_seq(n.top_right) + opt_seq(n.left) + opt_seq(n.right) + opt_seq(
        n.bottom_left,
    ) + opt_seq(n.bottom_right)
}

impl HexNeighbors {
    /// The neighbors that exist, in the fixed field order.
    pub fn some_neighbors(&self) -> (v: Vec<GridPos>)
        ensures
            v@ == some_list(*self),
    {
        let mut v: Vec<GridPos> = Vec::new();
        if let Some(p) = self.top_left {
            v.push(p);
        }
        if let Some(p) = self.top_right {
            v.push(p);
        }
        if let Some(p) = self.left {
            v.push(p);
        }
        if let Some(p) = self.right {
            v.push(p);
        }
        if let Some(p) = self.bottom_left {
            v.push(p);
        }
        if let Some(p) = self.bottom_right {
            v.push(p);
        }
        proof {
            assert(v@ =~= some_list(*self));
        }
        v
    }
}

/// The column `c`, bottom row first.
pub open spec fn col_list(n: int, c: int) -> Seq<GridPos> {
    Seq::new(n as nat, |i: int| gp(i, c))
}

/// The row `r`, leftmost column first.
pub open spec fn row_list(n: int, r: int) -> Seq<GridPos> {
    Seq::new(n as nat, |i: int| gp(r, i))
}

/// The boundary cells facing a wind angle `a` in `[0, 360)`, using eight
/// 45-degree sectors: a cardinal sector is one whole edge row or column, a
/// diagonal sector is the concatenation of an edge column and an edge row
/// (corner cells may then appear twice; that is accepted). Sector cutoffs
/// sit on half degrees, so the comparison doubles the angle.
pub open spec fn edge_list(n: int, a: int) -> Seq<GridPos> {
    let h = 2 * a;
    if h < 45 {
        col_list(n, n - 1)
    } else if h < 135 {
        col_list(n, n - 1) + row_list(n, 0)
    } else if h < 225 {
        row_list(n, 0)
    } else if h < 315 {
        col_list(n, 0) + row_list(n, 0)
    } else if h < 405 {
        col_list(n, 0)
    } else if h < 495 {
        col_list(n, 0) + row_list(n, n - 1)
    } else if h < 585 {
        row_list(n, n - 1)
    } else if h < 675 {
        col_list(n, n - 1) + row_list(n, n - 1)
    } else {
        col_list(n, n - 1)
    }
}

impl HexGrid {
    /// Shape and capacity invariant: a non-empty square grid whose flat cell
    /// array matches `size * size`, with every capacity positive and small
    /// enough that scheduler arithmetic cannot overflow.
    pub open spec fn wf(&self) -> bool {
        &&& 1 <= self.size <= MAX_GRID_SIZE
        &&& self.cells@.len() == self.size * self.size
        &&& forall|k: int|
            0 <= k < self.cells@.len() ==> 1 <= (#[trigger] self.cells@[k]).nanite.nanite_capacity
                <= CAPACITY_LIMIT
    }

    /// The cell at `(r, c)` in the flat row-major array.
    pub open spec fn cell_spec(&self, r: int, c: int) -> Cell {
        self.cells@[r * self.size + c]
    }

    /// Build a `size` by `size` grid of empty cells with random terrain.
    pub fn new(size: usize, rng: &mut rand::rngs::StdRng) -> (g: HexGrid)
        requires
            1 <= size <= MAX_GRID_SIZE,
        ensures
            g.wf(),
            g.size == size,
            forall|k: int|
                0 <= k < g.cells@.len() ==> {
                    let n = (#[trigger] g.cells@[k]).nanite;
                    n.nanite_capacity == DEFAULT_CAPACITY && n.nanite_total == 0
                        && n.transient_nanites == 0
                },
    {
        proof {
            assert(size * size <= MAX_GRID_SIZE * MAX_GRID_SIZE) by (nonlinear_arith)
                requires
                    1 <= size <= MAX_GRID_SIZE,
            ;
        }
        let count: usize = size * size;
        let mut cells: Vec<Cell> = Vec::new();
        let mut k: usize = 0;
        while k < count
            invariant
                k <= count,
                cells@.len() == k,
                forall|j: int|
                    0 <= j < k ==> {
                        let n = (#[trigger] cells@[j]).nanite;
                        n.nanite_capacity == DEFAULT_CAPACITY && n.nanite_total == 0
                            && n.transient_nanites == 0
                    },
            decreases count - k,
        {
            cells.push(Cell { terrain: Terrain::from_random(rng), nanite: Nanite::new_empty() });
            k = k + 1;
        }
        HexGrid { size, cells }
    }

    /// The committed substance level at a position.
    pub fn amount(&self, grid_pos: &GridPos) -> (r: u64)
        requires
            self.wf(),
            grid_pos.pos.0 < self.size,
            grid_pos.pos.1 < self.size,
        ensures
            r == self.cell_spec(grid_pos.pos.0 as int, grid_pos.pos.1 as int).nanite.nanite_total,
    {
        let k = self.flat_index(grid_pos);
        self.cells[k].nanite.nanite_total
    }

    /// The capacity at a position.
    pub fn capacity(&self, grid_pos: &GridPos) -> (r: u64)
        requires
            self.wf(),
            grid_pos.pos.0 < self.size,
            grid_pos.pos.1 < self.size,
        ensures
            r == self.cell_spec(
                grid_pos.pos.0 as int,
                grid_pos.pos.1 as int,
            ).nanite.nanite_capacity,
    {
        let k = self.flat_index(grid_pos);
        self.cells[k].nanite.nanite_capacity
    }

    /// The terrain at a position.
    pub fn terrain(&self, grid_pos: &GridPos) -> (r: Terrain)
        requires
            self.wf(),
            grid_pos.pos.0 < self.size,
            grid_pos.pos.1 < self.size,
        ensures
            r == self.cell_spec(grid_pos.pos.0 as int, grid_pos.pos.1 as int).terrain,
    {
        let k = self.flat_index(grid_pos);
        self.cells[k].terrain
    }

    /// Flat row-major index of a position.
    pub fn flat_index(&self, grid_pos: &GridPos) -> (k: usize)
        requires
            self.wf(),
            grid_pos.pos.0 < self.size,
            grid_pos.pos.1 < self.size,
        ensures
            k == grid_pos.pos.0 * self.size + grid_pos.pos.1,
            k < self.cells@.len(),
    {
        proof {
            lemma_flat_index_bounds(
                self.size as int,
                grid_pos.pos.0 as int,
                grid_pos.pos.1 as int,
            );
        }
        grid_pos.pos.0 * self.size + grid_pos.pos.1
    }

    /// All six neighbor lookups of one position, by the parity table.
    pub fn get_neigbors(&self, grid_pos: &GridPos) -> (r: HexNeighbors)
        requires
            self.wf(),
            grid_pos.pos.0 < self.size,
            grid_pos.pos.1 < self.size,
        ensures
            ({
                let row = grid_pos.pos.0 as int;
                let col = grid_pos.pos.1 as int;
                let n = self.size as int;
                &&& r.top_left == neighbor_gp(n, row, col, HexDirection::TopLeft)
                &&& r.top_right == neighbor_gp(n, row, col, HexDirection::TopRight)
                &&& r.left == neighbor_gp(n, row, col, HexDirection::Left)
                &&& r.right == neighbor_gp(n, row, col, HexDirection::Right)
                &&& r.bottom_left == neighbor_gp(n, row, col, HexDirection::BottomLeft)
                &&& r.bottom_right == neighbor_gp(n, row, col, HexDirection::BottomRight)
            }),
    {
        let pos = grid_pos.to_int();
        let even = grid_pos.row_is_even();
        HexNeighbors {
            top_left: self.get_entity_offset(pos, mask_for(even, HexDirection::TopLeft)),
            top_right: self.get_entity_offset(pos, mask_for(even, HexDirection::TopRight)),
            left: self.get_entity_offset(pos, mask_for(even, HexDirection::Left)),
            right: self.get_entity_offset(pos, mask_for(even, HexDirection::Right)),
            bottom_left: self.get_entity_offset(pos, mask_for(even, HexDirection::BottomLeft)),
            bottom_right: self.get_entity_offset(pos, mask_for(even, HexDirection::BottomRight)),
        }
    }

    /// The single downwind neighbor for a wind angle, or absent when the
    /// wind points off the grid at this position.
    pub fn get_wind_neighors_new(&self, grid_pos: &GridPos, direction: u64) -> (r: Option<GridPos>)
        requires
            self.wf(),
            grid_pos.pos.0 < self.size,
            grid_pos.pos.1 < self.size,
        ensures
            r == wind_target_gp(
                self.size as int,
                grid_pos.pos.0 as int,
                grid_pos.pos.1 as int,
                direction as int,
            ),
    {
        let pos = grid_pos.to_int();
        let even = grid_pos.row_is_even();
        let sector = HexDirection::from_angle(direction);
        self.get_entity_offset(pos, mask_for(even, sector))
    }

    /// The boundary cells facing wind angle `angle`; see `edge_list`.
    pub fn direction_edges(&self, angle: u64) -> (r: Vec<GridPos>)
        requires
            self.wf(),
        ensures
            r@ == edge_list(self.size as int, (angle % 360) as int),
            self.size <= r@.len() <= 2 * self.size,
            forall|i: int|
                0 <= i < r@.len() ==> (#[trigger] r@[i]).pos.0 < self.size && r@[i].pos.1
                    < self.size,
    {
        let a = angle % 360;
        let h = 2 * a;
        let last = self.size - 1;
        if h < 45 {
            self.edge_col(last)
        } else if h < 135 {
            let mut v = self.edge_col(last);
            let mut b = self.edge_row(0);
            v.append(&mut b);
            v
        } else if h < 225 {
            self.edge_row(0)
        } else if h < 315 {
            let mut v = self.edge_col(0);
            let mut b = self.edge_row(0);
            v.append(&mut b);
            v
        } else if h < 405 {
            self.edge_col(0)
        } else if h < 495 {
            let mut v = self.edge_col(0);
            let mut b = self.edge_row(last);
            v.append(&mut b);
            v
        } else if h < 585 {
            self.edge_row(last)
        } else if h < 675 {
            let mut v = self.edge_col(last);
            let mut b = self.edge_row(last);
            v.append(&mut b);
            v
        } else {
            self.edge_col(last)
        }
    }

    /// One full column of positions, bottom row first.
    fn edge_col(&self, c: usize) -> (v: Vec<GridPos>)
        requires
            self.wf(),
            c < self.size,
        ensures
            v@ == col_list(self.size as int, c as int),
    {
        let mut v: Vec<GridPos> = Vec::new();
        let mut i: usize = 0;
        while i < self.size
            invariant
                i <= self.size,
                v@.len() == i,
                forall|j: int| 0 <= j < i ==> v@[j] == gp(j, c as int),
            decreases self.size - i,
        {
            v.push(GridPos { pos: (i, c) });
            i = i + 1;
        }
        proof {
            assert(v@ =~= col_list(self.size as int, c as int));
        }
        v
    }

    /// One full row of positions, leftmost column first.
    fn edge_row(&self, r: usize) -> (v: Vec<GridPos>)
        requires
            self.wf(),
            r < self.size,
        ensures
            v@ == row_list(self.size as int, r as int),
    {
        let mut v: Vec<GridPos> = Vec::new();
        let mut i: usize = 0;
        while i < self.size
            invariant
                i <= self.size,
                v@.len() == i,
                forall|j: int| 0 <= j < i ==> v@[j] == gp(r as int, j),
            decreases self.size - i,
        {
            v.push(GridPos { pos: (r, i) });
            i = i + 1;
        }
        proof {
            assert(v@ =~= row_list(self.size as int, r as int));
        }
        v
    }

    /// Offset lookup shared by the neighbor queries: add a signed offset to
    /// a position and bounds-check the result.
    fn get_entity_offset(&self, pos: (i32, i32), offset: (i32, i32)) -> (r: Option<GridPos>)
        requires
            self.wf(),
            0 <= pos.0 < self.size,
            0 <= pos.1 < self.size,
            -1 <= offset.0 <= 1,
            -1 <= offset.1 <= 1,
        ensures
            r == ({
                let nr = pos.0 + offset.0;
                let nc = pos.1 + offset.1;
                if in_bounds(self.size as int, nr, nc) {
                    Some(gp(nr, nc))
                } else {
                    None
                }
            }),
    {
        let nr = pos.0 + offset.0;
        let nc = pos.1 + offset.1;
        let n = self.size as i32;
        if 0 <= nr && nr < n && 0 <= nc && nc < n {
            Some(GridPos { pos: (nr as usize, nc as usize) })
        } else {
            None
        }
    }
}

/// The `(row, col)` offset for one direction, by row parity.
fn mask_for(even: bool, d: HexDirection) -> (m: (i32, i32))
    ensures
        m.0 == mask_spec(even, d).0,
        m.1 == mask_spec(even, d).1,
{
    if even {
        match d {
            HexDirection::TopLeft => (1, 0),
            HexDirection::TopRight => (1, 1),
            HexDirection::Right => (0, 1),
            HexDirection::BottomRight => (-1, 1),
            HexDirection::BottomLeft => (-1, 0),
            HexDirection::Left => (0, -1),
        }
    } else {
        match d {
            HexDirection::TopLeft => (1, -1),
            HexDirection::TopRight => (1, 0),
            HexDirection::Right => (0, 1),
            HexDirection::BottomRight => (-1, 0),
            HexDirection::BottomLeft => (-1, -1),
            HexDirection::Left => (0, -1),
        }
    }
}

/// Row-major flattening keeps indices inside the cell array.
pub proof fn lemma_flat_index_bounds(size: int, r: int, c: int)
    requires
        1 <= size <= MAX_GRID_SIZE,
        0 <= r < size,
        0 <= c < size,
    ensures
        0 <= r * size + c < size * size,
        size * size <= 0x4000_0000,
{
    assert(0 <= r * size + c < size * size && size * size <= 0x4000_0000) by (nonlinear_arith)
        requires
            1 <= size <= 0x7fff,
            0 <= r < size,
            0 <= c < size,
    ;
}

/// Row-major flattening keeps indices inside the cell array, for any grid
/// side (no machine bound needed at the ghost level).
pub proof fn lemma_flat_index_bounds_wide(size: int, r: int, c: int)
    requires
        1 <= size,
        0 <= r < size,
        0 <= c < size,
    ensures
        0 <= r * size + c < size * size,
{
    assert(0 <= r * size + c < size * size) by (nonlinear_arith)
        requires
            1 <= size,
            0 <= r < size,
            0 <= c < size,
    ;
}

/// The neighbor relation is symmetric: whenever `(r, c)` has a neighbor `b`
/// in direction `d`, then `b` has `(r, c)` as its neighbor in the opposite
/// direction. Both positions are in bounds, so no interiority is needed.
pub proof fn lemma_neighbor_symmetry(size: int, r: int, c: int, d: HexDirection)
    requires
        0 <= r < size,
        0 <= c < size,
    ensures
        neighbor_coord(size, r, c, d) matches Some(b) ==> neighbor_coord(
            size,
            b.0,
            b.1,
            opposite(d),
        ) == Some((r, c)),
{
    if neighbor_coord(size, r, c, d) is Some {
        let off = mask_spec(r % 2 == 0, d);
        let nr = r + off.0;
        let nc = c + off.1;
        assert(nr % 2 == (if r % 2 == 0 { off.0 % 2 } else { (1 + off.0) % 2 }));
        let back = mask_spec(nr % 2 == 0, opposite(d));
        assert(nr + back.0 == r && nc + back.1 == c);
    }
}

/// Sector coverage: the six 60-degree sectors tile the whole circle of
/// angles `[0, 360)`, each angle falling in exactly the sector its bounds
/// describe; the defensive fallback arm of `from_angle` is never the only
/// classification for any in-range angle.
pub proof fn lemma_sector_coverage(a: int)
    requires
        0 <= a < 360,
    ensures
        sector_of(a) == HexDirection::Right <==> (0 <= a < 30 || 330 <= a < 360),
        sector_of(a) == HexDirection::BottomRight <==> 30 <= a < 90,
        sector_of(a) == HexDirection::BottomLeft <==> 90 <= a < 150,
        sector_of(a) == HexDirection::Left <==> 150 <= a < 210,
        sector_of(a) == HexDirection::TopLeft <==> 210 <= a < 270,
        sector_of(a) == HexDirection::TopRight <==> 270 <= a < 330,
{
}

/// On a one-by-one grid the single cell has no neighbor in any direction:
/// every offset leads off the grid.
pub proof fn lemma_single_cell_has_no_neighbors(d: HexDirection)
    ensures
        neighbor_coord(1, 0, 0, d) is None,
{
}

} // verus!
