//! Grid coordinates: `(row, col)`, 0-indexed, row 0 at the bottom edge.

use vstd::prelude::*;

verus! {

/// A cell's position on the grid. Rows are staggered: whether `pos.0` is even
/// or odd decides which neighbor offset table applies to the cell.
#[derive(Clone, Copy, PartialEq, Eq, Debug)]
pub struct GridPos {
    pub pos: (usize, usize),
}

impl GridPos {
    /// Even rows and odd rows use different column offsets for the same
    /// compass direction.
    pub fn row_is_even(&self) -> (r: bool)
        ensures
            r == (self.pos.0 % 2 == 0),
    {
        self.pos.0 % 2 == 0
    }

    /// The coordinate as a signed pair, so neighbor offsets (which may be
    /// negative) can be added without underflow at the grid edge.
    pub fn to_int(&self) -> (r: (i32, i32))
        requires
            self.pos.0 <= i32::MAX,
            self.pos.1 <= i32::MAX,
        ensures
            r.0 == self.pos.0,
            r.1 == self.pos.1,
    {
        (self.pos.0 as i32, self.pos.1 as i32)
    }
}

} // verus!
