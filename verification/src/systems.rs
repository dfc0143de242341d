//! Movement that entities make by themselves, tick by tick.

use crate::components::Position;
use vstd::prelude::*;

verus! {

/// Where one tick of drifting left takes a position: one column to the
/// left, and from column 0, or from left of it, to the last column. The row
/// stays.
pub open spec fn drifted_left(pos: Position, width: int) -> Position {
    Position { x: (if pos.x - 1 < 0 {
        width - 1
    } else {
        pos.x - 1
    }) as i32, y: pos.y }
}

/// One tick of drifting left: one column to the left, wrapping from column
/// 0 to the last column.
pub fn left_walk(pos: Position, width: i32) -> (next: Position)
    requires
        width >= 1,
    ensures
        next == drifted_left(pos, width as int),
        pos.x == 0 ==> next.x == width - 1,
        pos.x > 0 ==> next.x == pos.x - 1,
        0 <= pos.x < width ==> 0 <= next.x < width,
        next.y == pos.y,
{
    if pos.x <= 0 {
        Position { x: width - 1, y: pos.y }
    } else {
        Position { x: pos.x - 1, y: pos.y }
    }
}

} // verus!
