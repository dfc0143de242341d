//! Plain data that entities carry.

use vstd::prelude::*;

verus! {

/// A cell of the grid, by column and row.
#[derive(Clone, Copy, Debug, PartialEq, Eq, Structural)]
pub struct Position {
    pub x: i32,
    pub y: i32,
}

/// Whether column `x` and row `y` name a cell of a grid `width` wide and
/// `height` high.
pub open spec fn in_bounds(x: int, y: int, width: int, height: int) -> bool {
    0 <= x < width && 0 <= y < height
}

impl Position {
    /// Whether the position names a cell of a grid `width` wide and `height`
    /// high.
    pub open spec fn within(self, width: int, height: int) -> bool {
        in_bounds(self.x as int, self.y as int, width, height)
    }
}

} // verus!
