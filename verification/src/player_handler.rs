//! Player movement: from a key to a direction, and from a direction to the
//! next position, held back by walls and by the grid's edge.

use crate::components::{in_bounds, Position};
use crate::map::generator::enclosed;
use crate::map::tile::{get_tile, is_grid, on_border, tile_at, TileType};
use vstd::prelude::*;

verus! {

/// The keys that the player's movement reads. Every other key is `Other`.
#[derive(Clone, Copy, Debug, PartialEq, Eq, Structural)]
pub enum Key {
    A,
    D,
    W,
    S,
    H,
    J,
    K,
    L,
    Left,
    Right,
    Up,
    Down,
    Other,
}

/// One step along an axis.
#[derive(Clone, Copy, Debug, PartialEq, Eq, Structural)]
pub enum Direction {
    Left,
    Right,
    Up,
    Down,
}

impl Direction {
    /// The change of column that one step makes.
    pub open spec fn dx(self) -> int {
        match self {
            Direction::Left => -1,
            Direction::Right => 1,
            Direction::Up => 0,
            Direction::Down => 0,
        }
    }

    /// The change of row that one step makes. Rows count downwards.
    pub open spec fn dy(self) -> int {
        match self {
            Direction::Left => 0,
            Direction::Right => 0,
            Direction::Up => -1,
            Direction::Down => 1,
        }
    }

    /// The change of column and of row that one step makes.
    pub fn delta(self) -> (d: (i32, i32))
        ensures
            d.0 == self.dx(),
            d.1 == self.dy(),
    {
        match self {
            Direction::Left => (-1, 0),
            Direction::Right => (1, 0),
            Direction::Up => (0, -1),
            Direction::Down => (0, 1),
        }
    }
}

/// The direction that a key stands for, if any: the arrow keys, and `A D W S`
/// and `H L K J` for left, right, up and down.
pub open spec fn key_intent(key: Key) -> Option<Direction> {
    match key {
        Key::A | Key::Left | Key::H => Some(Direction::Left),
        Key::D | Key::Right | Key::L => Some(Direction::Right),
        Key::W | Key::Up | Key::K => Some(Direction::Up),
        Key::S | Key::Down | Key::J => Some(Direction::Down),
        Key::Other => None,
    }
}

/// The direction that a key stands for, if any.
pub fn key_direction(key: Key) -> (intent: Option<Direction>)
    ensures
        intent == key_intent(key),
{
    match key {
        Key::A | Key::Left | Key::H => Some(Direction::Left),
        Key::D | Key::Right | Key::L => Some(Direction::Right),
        Key::W | Key::Up | Key::K => Some(Direction::Up),
        Key::S | Key::Down | Key::J => Some(Direction::Down),
        Key::Other => None,
    }
}

/// `v` held to the range from `lo` to `hi`.
pub open spec fn clamped(v: int, lo: int, hi: int) -> int {
    if v < lo {
        lo
    } else if v > hi {
        hi
    } else {
        v
    }
}

/// Where a move by `d_x` columns and `d_y` rows ends when only the grid's
/// edge holds it back: each coordinate is held to the grid by itself.
pub open spec fn clamped_move(pos: Position, d_x: int, d_y: int, width: int, height: int) -> Position {
    Position {
        x: clamped(pos.x + d_x, 0, width - 1) as i32,
        y: clamped(pos.y + d_y, 0, height - 1) as i32,
    }
}

/// Whether the cell that the move aims at lies in the grid and is a wall.
pub open spec fn blocked(
    tiles: Seq<TileType>,
    pos: Position,
    d_x: int,
    d_y: int,
    width: int,
    height: int,
) -> bool {
    in_bounds(pos.x + d_x, pos.y + d_y, width, height) && tile_at(
        tiles,
        pos.x + d_x,
        pos.y + d_y,
        width,
    ) == TileType::Wall
}

/// Where a move by `d_x` columns and `d_y` rows ends on the grid: where it
/// began if the cell aimed at is a wall, else at the cell aimed at, held to
/// the grid.
pub open spec fn moved(
    tiles: Seq<TileType>,
    pos: Position,
    d_x: int,
    d_y: int,
    width: int,
    height: int,
) -> Position {
    if blocked(tiles, pos, d_x, d_y, width, height) {
        pos
    } else {
        clamped_move(pos, d_x, d_y, width, height)
    }
}

/// `v` held to the range from 0 to `limit - 1`.
fn clamp_to(v: i64, limit: i32) -> (r: i32)
    requires
        limit >= 1,
    ensures
        r == clamped(v as int, 0, limit - 1),
{
    if v < 0 {
        0
    } else if v > (limit - 1) as i64 {
        limit - 1
    } else {
        v as i32
    }
}

/// Moves by `d_x` columns and `d_y` rows with no grid to look at: only the
/// edge of the grid holds the move back.
pub fn clamp_move_player(d_x: i32, d_y: i32, pos: Position, width: i32, height: i32) -> (next: Position)
    requires
        width >= 1,
        height >= 1,
    ensures
        next == clamped_move(pos, d_x as int, d_y as int, width as int, height as int),
        next.within(width as int, height as int),
{
    Position {
        x: clamp_to(pos.x as i64 + d_x as i64, width),
        y: clamp_to(pos.y as i64 + d_y as i64, height),
    }
}

/// Moves by `d_x` columns and `d_y` rows on the grid. A wall at the cell
/// aimed at rejects the move and the position stays; else the position is
/// the cell aimed at, held to the grid.
pub fn try_move_player(
    d_x: i32,
    d_y: i32,
    pos: Position,
    map: &Vec<TileType>,
    width: i32,
    height: i32,
) -> (next: Position)
    requires
        is_grid(map@, width as int, height as int),
    ensures
        next == moved(map@, pos, d_x as int, d_y as int, width as int, height as int),
        pos.within(width as int, height as int) ==> next.within(width as int, height as int),
{
    let to_x: i64 = pos.x as i64 + d_x as i64;
    let to_y: i64 = pos.y as i64 + d_y as i64;
    if 0 <= to_x && to_x < width as i64 && 0 <= to_y && to_y < height as i64 {
        if get_tile(map, to_x as i32, to_y as i32, width, height) == TileType::Wall {
            return pos;
        }
    }
    clamp_move_player(d_x, d_y, pos, width, height)
}

/// What one tick's input does to the player's position: no key, or a key
/// that stands for no direction, leaves it; a direction moves one step on
/// the grid.
pub fn get_player_input(
    key: Option<Key>,
    pos: Position,
    map: &Vec<TileType>,
    width: i32,
    height: i32,
) -> (next: Position)
    requires
        is_grid(map@, width as int, height as int),
    ensures
        next == (match key {
            Some(k) => match key_intent(k) {
                Some(dir) => moved(map@, pos, dir.dx(), dir.dy(), width as int, height as int),
                None => pos,
            },
            None => pos,
        }),
        pos.within(width as int, height as int) ==> next.within(width as int, height as int),
{
    match key {
        None => pos,
        Some(k) => match key_direction(k) {
            None => pos,
            Some(dir) => {
                let d = dir.delta();
                try_move_player(d.0, d.1, pos, map, width, height)
            },
        },
    }
}

/// A wall at the cell aimed at rejects the move: the position stays.
pub proof fn lemma_wall_rejects(
    tiles: Seq<TileType>,
    pos: Position,
    dir: Direction,
    width: i32,
    height: i32,
)
    requires
        is_grid(tiles, width as int, height as int),
        in_bounds(pos.x + dir.dx(), pos.y + dir.dy(), width as int, height as int),
        tile_at(tiles, pos.x + dir.dx(), pos.y + dir.dy(), width as int) == TileType::Wall,
    ensures
        moved(tiles, pos, dir.dx(), dir.dy(), width as int, height as int) == pos,
{
}

/// A floor at the cell aimed at accepts the move: the position becomes that
/// cell, so one coordinate changes by one and the other stays.
pub proof fn lemma_floor_accepts(
    tiles: Seq<TileType>,
    pos: Position,
    dir: Direction,
    width: i32,
    height: i32,
)
    requires
        is_grid(tiles, width as int, height as int),
        in_bounds(pos.x + dir.dx(), pos.y + dir.dy(), width as int, height as int),
        tile_at(tiles, pos.x + dir.dx(), pos.y + dir.dy(), width as int) == TileType::Floor,
    ensures
        moved(tiles, pos, dir.dx(), dir.dy(), width as int, height as int).x == pos.x + dir.dx(),
        moved(tiles, pos, dir.dx(), dir.dy(), width as int, height as int).y == pos.y + dir.dy(),
{
}

/// A step that would leave the grid leaves the position as it is, with a
/// grid to look at or without.
pub proof fn lemma_edge_holds(
    tiles: Seq<TileType>,
    pos: Position,
    dir: Direction,
    width: i32,
    height: i32,
)
    requires
        is_grid(tiles, width as int, height as int),
        pos.within(width as int, height as int),
        !in_bounds(pos.x + dir.dx(), pos.y + dir.dy(), width as int, height as int),
    ensures
        clamped_move(pos, dir.dx(), dir.dy(), width as int, height as int) == pos,
        moved(tiles, pos, dir.dx(), dir.dy(), width as int, height as int) == pos,
{
}

/// On an enclosed grid a step from a cell of the grid never needs the edge:
/// the position stays or becomes the cell aimed at, and it stays a cell of
/// the grid. From a cell that is not a wall it ends on a cell that is not a
/// wall.
pub proof fn lemma_step_on_enclosed(
    tiles: Seq<TileType>,
    pos: Position,
    dir: Direction,
    width: i32,
    height: i32,
)
    requires
        is_grid(tiles, width as int, height as int),
        enclosed(tiles, width as int, height as int),
        pos.within(width as int, height as int),
    ensures
        moved(tiles, pos, dir.dx(), dir.dy(), width as int, height as int).within(width as int, height as int),
        moved(tiles, pos, dir.dx(), dir.dy(), width as int, height as int) == pos || moved(
            tiles,
            pos,
            dir.dx(),
            dir.dy(),
            width as int,
            height as int,
        ) == (Position { x: (pos.x + dir.dx()) as i32, y: (pos.y + dir.dy()) as i32 }),
        tile_at(tiles, pos.x as int, pos.y as int, width as int) != TileType::Wall ==> tile_at(
            tiles,
            moved(tiles, pos, dir.dx(), dir.dy(), width as int, height as int).x as int,
            moved(tiles, pos, dir.dx(), dir.dy(), width as int, height as int).y as int,
            width as int,
        ) != TileType::Wall,
{
    if !in_bounds(pos.x + dir.dx(), pos.y + dir.dy(), width as int, height as int) {
        assert(on_border(pos.x as int, pos.y as int, width as int, height as int));
        assert(tile_at(tiles, pos.x as int, pos.y as int, width as int) == TileType::Wall);
    }
}

} // verus!
