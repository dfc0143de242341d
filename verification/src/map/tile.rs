//! The tile grid: a row-major sequence of tiles and the mapping between
//! coordinates and indices.

use crate::components::{in_bounds, Position};
use vstd::arithmetic::div_mod::{
    lemma_fundamental_div_mod, lemma_fundamental_div_mod_converse_div,
    lemma_fundamental_div_mod_converse_mod,
};
use vstd::prelude::*;

verus! {

/// What a cell of the grid holds.
#[derive(Clone, Copy, Debug, PartialEq, Eq, Structural)]
pub enum TileType {
    Wall,
    Floor,
}

/// A cell as it is drawn: where, and what it holds.
#[derive(Clone, Copy, Debug, PartialEq, Eq, Structural)]
pub struct Cell {
    pub x: i32,
    pub y: i32,
    pub tile: TileType,
}

/// The index of column `x`, row `y` in a row-major grid `width` wide.
pub open spec fn index_of(x: int, y: int, width: int) -> int {
    y * width + x
}

/// Whether the cell at column `x`, row `y` lies on the rim of the grid.
pub open spec fn on_border(x: int, y: int, width: int, height: int) -> bool {
    x == 0 || x == width - 1 || y == 0 || y == height - 1
}

/// Whether `tiles` is a grid `width` wide and `height` high: one tile for
/// each cell, and at least one cell.
pub open spec fn is_grid(tiles: Seq<TileType>, width: int, height: int) -> bool {
    width >= 1 && height >= 1 && tiles.len() == width * height
}

/// The tile at column `x`, row `y`.
pub open spec fn tile_at(tiles: Seq<TileType>, x: int, y: int, width: int) -> TileType {
    tiles[index_of(x, y, width)]
}

/// The cell that stands at index `i` of a grid `width` wide, as it is
/// drawn.
pub open spec fn cell_of(tiles: Seq<TileType>, i: int, width: int) -> Cell {
    Cell { x: (i % width) as i32, y: (i / width) as i32, tile: tiles[i] }
}

/// A cell's index lies inside the grid.
pub proof fn lemma_index_in_grid(x: int, y: int, width: int, height: int)
    requires
        in_bounds(x, y, width, height),
    ensures
        0 <= index_of(x, y, width) < width * height,
{
    assert(0 <= y * width && y * width + width <= height * width && height * width == width
        * height) by (nonlinear_arith)
        requires
            0 <= y < height,
            0 < width,
    ;
}

/// Decoding a cell's index by remainder and quotient gives the cell back.
pub proof fn lemma_index_decodes(x: int, y: int, width: int)
    requires
        0 <= x < width,
    ensures
        index_of(x, y, width) % width == x,
        index_of(x, y, width) / width == y,
{
    lemma_fundamental_div_mod_converse_mod(index_of(x, y, width), width, y, x);
    lemma_fundamental_div_mod_converse_div(index_of(x, y, width), width, y, x);
}

/// Every index of the grid is the index of the cell that it decodes to, and
/// that cell lies in the grid.
pub proof fn lemma_decoded_index(i: int, width: int, height: int)
    requires
        width >= 1,
        0 <= i < width * height,
    ensures
        in_bounds(i % width, i / width, width, height),
        index_of(i % width, i / width, width) == i,
{
    lemma_fundamental_div_mod(i, width);
    assert(width * (i / width) == (i / width) * width) by (nonlinear_arith);
    let q = i / width;
    let r = i % width;
    assert(0 <= q < height) by (nonlinear_arith)
        requires
            0 <= r < width,
            0 <= q * width + r < width * height,
    ;
}

/// Two cells of the same width of grid that share an index are the same
/// cell.
pub proof fn lemma_index_injective(x1: int, y1: int, x2: int, y2: int, width: int)
    requires
        0 <= x1 < width,
        0 <= x2 < width,
        index_of(x1, y1, width) == index_of(x2, y2, width),
    ensures
        x1 == x2,
        y1 == y2,
{
    lemma_index_decodes(x1, y1, width);
    lemma_index_decodes(x2, y2, width);
}

/// The index of the cell at column `x`, row `y` of a grid `width` wide.
pub fn xy_idx(x: i32, y: i32, width: i32) -> (idx: usize)
    requires
        0 <= x < width,
        0 <= y,
        index_of(x as int, y as int, width as int) <= usize::MAX,
    ensures
        idx == index_of(x as int, y as int, width as int),
{
    assert(0 <= y * width <= y * width + x) by (nonlinear_arith)
        requires
            0 <= x < width,
            0 <= y,
    ;
    (y as usize) * (width as usize) + (x as usize)
}

/// The cell that index `idx` stands for in a grid `width` wide: its column is
/// the remainder, its row the quotient.
pub fn idx_xy(idx: usize, width: i32) -> (pos: Position)
    requires
        width >= 1,
        idx <= i32::MAX,
    ensures
        pos.x == idx as int % width as int,
        pos.y == idx as int / width as int,
        0 <= pos.x < width,
        0 <= pos.y,
        index_of(pos.x as int, pos.y as int, width as int) == idx,
{
    let w: usize = width as usize;
    proof {
        lemma_fundamental_div_mod(idx as int, width as int);
        assert(0 <= idx as int / width as int <= idx as int) by (nonlinear_arith)
            requires
                0 <= idx as int,
                width as int >= 1,
        ;
        assert(width as int * (idx as int / width as int) == (idx as int / width as int)
            * width as int) by (nonlinear_arith);
    }
    Position { x: (idx % w) as i32, y: (idx / w) as i32 }
}

/// The tile at column `x`, row `y` of the grid.
pub fn get_tile(map: &Vec<TileType>, x: i32, y: i32, width: i32, height: i32) -> (tile: TileType)
    requires
        is_grid(map@, width as int, height as int),
        in_bounds(x as int, y as int, width as int, height as int),
    ensures
        tile == tile_at(map@, x as int, y as int, width as int),
{
    proof {
        lemma_index_in_grid(x as int, y as int, width as int, height as int);
        assert(map@.len() == map.len() <= usize::MAX);
    }
    map[xy_idx(x, y, width)]
}

/// Lays the grid out for drawing: one cell for each tile, in the order of
/// the tiles, with the column and row at which it is drawn. The walk goes
/// along each row and steps to the next row after the last column.
pub fn draw_map(map: &[TileType], width: i32) -> (cells: Vec<Cell>)
    requires
        width >= 1,
        map@.len() <= i32::MAX,
    ensures
        cells@.len() == map@.len(),
        forall|i: int| 0 <= i < map@.len() ==> #[trigger] cells@[i] == cell_of(map@, i, width as int),
        forall|i: int|
            0 <= i < map@.len() ==> 0 <= (#[trigger] cells@[i]).x < width && index_of(
                cells@[i].x as int,
                cells@[i].y as int,
                width as int,
            ) == i,
{
    let mut cells: Vec<Cell> = Vec::new();
    let mut x: i32 = 0;
    let mut y: i32 = 0;
    let mut i: usize = 0;
    while i < map.len()
        invariant
            width >= 1,
            map@.len() <= i32::MAX,
            i <= map@.len(),
            0 <= x < width,
            0 <= y,
            i == index_of(x as int, y as int, width as int),
            cells@.len() == i,
            forall|k: int| 0 <= k < i ==> #[trigger] cells@[k] == cell_of(map@, k, width as int),
            forall|k: int|
                0 <= k < i ==> 0 <= (#[trigger] cells@[k]).x < width && index_of(
                    cells@[k].x as int,
                    cells@[k].y as int,
                    width as int,
                ) == k,
        decreases map@.len() - i,
    {
        proof {
            lemma_index_decodes(x as int, y as int, width as int);
            assert(y as int <= (y as int) * (width as int)) by (nonlinear_arith)
                requires
                    0 <= y as int,
                    width as int >= 1,
            ;
            assert((y as int + 1) * (width as int) == (y as int) * (width as int) + width as int)
                by (nonlinear_arith);
        }
        cells.push(Cell { x, y, tile: map[i] });
        x = x + 1;
        if x > width - 1 {
            x = 0;
            y = y + 1;
        }
        i = i + 1;
    }
    cells
}

} // verus!
