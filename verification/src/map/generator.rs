//! The generator: a grid enclosed in walls, with more walls scattered inside
//! it by the dice, and never one on the spawn cell.

use crate::components::{in_bounds, Position};
use crate::map::tile::{
    index_of, is_grid, lemma_decoded_index, lemma_index_in_grid, lemma_index_injective, on_border,
    tile_at, xy_idx, TileType,
};
use vstd::prelude::*;
use vstd::set_lib::{lemma_int_range, lemma_len_subset, set_int_range};

verus! {

/// How many wall placements the generator tries.
pub const WALL_TRIALS: u32 = 400;

/// Whether every cell on the rim of the grid is a wall.
pub open spec fn enclosed(tiles: Seq<TileType>, width: int, height: int) -> bool {
    forall|x: int, y: int|
        in_bounds(x, y, width, height) && on_border(x, y, width, height) ==> #[trigger] tile_at(
            tiles,
            x,
            y,
            width,
        ) == TileType::Wall
}

/// Whether the grid is as it stands before any wall is scattered: walls on
/// the rim, floor everywhere else.
pub open spec fn bare(tiles: Seq<TileType>, width: int, height: int) -> bool {
    forall|x: int, y: int|
        in_bounds(x, y, width, height) ==> #[trigger] tile_at(tiles, x, y, width) == (if on_border(
            x,
            y,
            width,
            height,
        ) {
            TileType::Wall
        } else {
            TileType::Floor
        })
}

/// The grid after one wall placement at column `x`, row `y`: the cell
/// becomes a wall, unless it is the spawn cell, which is left alone.
pub open spec fn placed(
    tiles: Seq<TileType>,
    x: int,
    y: int,
    width: int,
    spawn: Position,
) -> Seq<TileType> {
    if x == spawn.x && y == spawn.y {
        tiles
    } else {
        tiles.update(index_of(x, y, width), TileType::Wall)
    }
}

/// Whether each roll is a pair of dice throws for a grid `width` wide and
/// `height` high: a column from 1 to `width - 1` and a row from 1 to
/// `height - 1`.
pub open spec fn rolls_in_range(rolls: Seq<(int, int)>, width: int, height: int) -> bool {
    forall|k: int|
        0 <= k < rolls.len() ==> 1 <= (#[trigger] rolls[k]).0 <= width - 1 && 1 <= rolls[k].1
            <= height - 1
}

/// The grid after one wall placement for each roll, in order.
pub open spec fn scatter(
    tiles: Seq<TileType>,
    rolls: Seq<(int, int)>,
    width: int,
    spawn: Position,
) -> Seq<TileType>
    decreases rolls.len(),
{
    if rolls.len() == 0 {
        tiles
    } else {
        placed(
            scatter(tiles, rolls.drop_last(), width, spawn),
            rolls.last().0,
            rolls.last().1,
            width,
            spawn,
        )
    }
}

/// Whether `after` is what some run of the generator's trials makes of
/// `before`: there are rolls, one pair for each trial and each in range, that
/// scatter `before` into `after`.
pub open spec fn generated_from(
    before: Seq<TileType>,
    after: Seq<TileType>,
    width: int,
    height: int,
    spawn: Position,
) -> bool {
    exists|rolls: Seq<(int, int)>|
        #![trigger scatter(before, rolls, width, spawn)]
        rolls.len() == WALL_TRIALS && rolls_in_range(rolls, width, height) && after == scatter(
            before,
            rolls,
            width,
            spawn,
        )
}

/// Whether `after` can come of `before` by scattering walls: the size is
/// kept, every wall stays a wall, and the spawn cell is not touched.
pub open spec fn scattered(
    before: Seq<TileType>,
    after: Seq<TileType>,
    width: int,
    height: int,
    spawn: Position,
) -> bool {
    &&& after.len() == before.len()
    &&& forall|i: int|
        0 <= i < before.len() && before[i] == TileType::Wall ==> #[trigger] after[i]
            == TileType::Wall
    &&& spawn.within(width, height) ==> tile_at(after, spawn.x as int, spawn.y as int, width)
        == tile_at(before, spawn.x as int, spawn.y as int, width)
}

/// The indices of the walls that stand inside the rim.
pub open spec fn inner_walls(tiles: Seq<TileType>, width: int, height: int) -> Set<int> {
    Set::new(
        |i: int|
            0 <= i < tiles.len() && tiles[i] == TileType::Wall && !on_border(
                i % width,
                i / width,
                width,
                height,
            ),
    )
}

/// The cell in the middle of the grid, where the player starts.
pub fn spawn_cell(width: i32, height: i32) -> (spawn: Position)
    requires
        width >= 1,
        height >= 1,
    ensures
        spawn.x == width as int / 2,
        spawn.y == height as int / 2,
        spawn.within(width as int, height as int),
{
    Position { x: width / 2, y: height / 2 }
}

/// A grid `width` wide and `height` high with walls on its rim and floor
/// everywhere else.
pub fn border_map(width: i32, height: i32) -> (map: Vec<TileType>)
    requires
        width >= 1,
        height >= 1,
        width * height <= i32::MAX,
    ensures
        is_grid(map@, width as int, height as int),
        bare(map@, width as int, height as int),
{
    let mut map: Vec<TileType> = vec![TileType::Floor; (width * height) as usize];
    assert forall|a: int, b: int|
        in_bounds(a, b, width as int, height as int) implies #[trigger] tile_at(
        map@,
        a,
        b,
        width as int,
    ) == TileType::Floor by {
        lemma_index_in_grid(a, b, width as int, height as int);
    }
    let mut x: i32 = 0;
    while x < width
        invariant
            0 <= x <= width,
            height >= 1,
            is_grid(map@, width as int, height as int),
            forall|a: int, b: int|
                in_bounds(a, b, width as int, height as int) ==> #[trigger] tile_at(
                    map@,
                    a,
                    b,
                    width as int,
                ) == (if a < x && (b == 0 || b == height - 1) {
                    TileType::Wall
                } else {
                    TileType::Floor
                }),
        decreases width - x,
    {
        set_wall(&mut map, x, 0, width, height);
        set_wall(&mut map, x, height - 1, width, height);
        x = x + 1;
    }
    let mut y: i32 = 0;
    while y < height
        invariant
            0 <= y <= height,
            width >= 1,
            is_grid(map@, width as int, height as int),
            forall|a: int, b: int|
                in_bounds(a, b, width as int, height as int) ==> #[trigger] tile_at(
                    map@,
                    a,
                    b,
                    width as int,
                ) == (if b == 0 || b == height - 1 || (b < y && (a == 0 || a == width - 1)) {
                    TileType::Wall
                } else {
                    TileType::Floor
                }),
        decreases height - y,
    {
        set_wall(&mut map, 0, y, width, height);
        set_wall(&mut map, width - 1, y, width, height);
        y = y + 1;
    }
    map
}

/// Makes the cell at column `x`, row `y` a wall. No other cell changes.
fn set_wall(map: &mut Vec<TileType>, x: i32, y: i32, width: i32, height: i32)
    requires
        is_grid(old(map)@, width as int, height as int),
        in_bounds(x as int, y as int, width as int, height as int),
    ensures
        final(map)@ == old(map)@.update(
            index_of(x as int, y as int, width as int),
            TileType::Wall,
        ),
        is_grid(final(map)@, width as int, height as int),
        forall|a: int, b: int|
            in_bounds(a, b, width as int, height as int) ==> #[trigger] tile_at(
                final(map)@,
                a,
                b,
                width as int,
            ) == (if a == x && b == y {
                TileType::Wall
            } else {
                tile_at(old(map)@, a, b, width as int)
            }),
{
    proof {
        lemma_index_in_grid(x as int, y as int, width as int, height as int);
        assert(map@.len() == map.len() <= usize::MAX);
    }
    let idx: usize = xy_idx(x, y, width);
    map[idx] = TileType::Wall;
    proof {
        assert forall|a: int, b: int|
            in_bounds(a, b, width as int, height as int) implies #[trigger] tile_at(
            map@,
            a,
            b,
            width as int,
        ) == (if a == x && b == y {
            TileType::Wall
        } else {
            tile_at(old(map)@, a, b, width as int)
        }) by {
            lemma_index_in_grid(a, b, width as int, height as int);
            if index_of(a, b, width as int) == index_of(x as int, y as int, width as int) {
                lemma_index_injective(a, b, x as int, y as int, width as int);
            }
        }
    }
}

/// One trial of the generator: makes the cell at column `x`, row `y` a wall,
/// unless it is the spawn cell, in which case nothing changes.
pub fn place_wall(
    map: &mut Vec<TileType>,
    x: i32,
    y: i32,
    width: i32,
    height: i32,
    spawn: Position,
)
    requires
        is_grid(old(map)@, width as int, height as int),
        in_bounds(x as int, y as int, width as int, height as int),
    ensures
        final(map)@ == placed(old(map)@, x as int, y as int, width as int, spawn),
        is_grid(final(map)@, width as int, height as int),
{
    if !(x == spawn.x && y == spawn.y) {
        set_wall(map, x, y, width, height);
    }
}

/// Runs the generator's trials on the grid: each rolls a column from 1 to
/// `width - 1` and a row from 1 to `height - 1` and places a wall there,
/// unless the cell is the spawn cell.
pub fn generate_random_walls(
    map: &mut Vec<TileType>,
    rng: &mut rltk::RandomNumberGenerator,
    width: i32,
    height: i32,
    spawn: Position,
)
    requires
        width >= 2,
        height >= 2,
        is_grid(old(map)@, width as int, height as int),
    ensures
        generated_from(old(map)@, final(map)@, width as int, height as int, spawn),
        scattered(old(map)@, final(map)@, width as int, height as int, spawn),
        is_grid(final(map)@, width as int, height as int),
        inner_walls(final(map)@, width as int, height as int).len() <= inner_walls(
            old(map)@,
            width as int,
            height as int,
        ).len() + WALL_TRIALS,
{
    let ghost rolls: Seq<(int, int)> = Seq::empty();
    let mut trial: u32 = 0;
    while trial < WALL_TRIALS
        invariant
            width >= 2,
            height >= 2,
            trial <= WALL_TRIALS,
            rolls.len() == trial,
            rolls_in_range(rolls, width as int, height as int),
            is_grid(old(map)@, width as int, height as int),
            is_grid(map@, width as int, height as int),
            map@ == scatter(old(map)@, rolls, width as int, spawn),
        decreases WALL_TRIALS - trial,
    {
        let x: i32 = rng.roll_dice(1, width - 1);
        let y: i32 = rng.roll_dice(1, height - 1);
        place_wall(map, x, y, width, height, spawn);
        proof {
            let longer = rolls.push((x as int, y as int));
            assert(longer.drop_last() =~= rolls);
            rolls = longer;
        }
        trial = trial + 1;
    }
    proof {
        lemma_scatter_keeps(old(map)@, rolls, width as int, height as int, spawn);
        lemma_scatter_adds_few(old(map)@, rolls, width as int, height as int, spawn);
    }
}

/// Generates a grid with the given generator: a bare grid, then the
/// generator's trials on it. The rim is all wall, and a spawn cell inside the
/// rim is floor.
pub fn new_map_with_rng(
    width: i32,
    height: i32,
    spawn: Position,
    rng: &mut rltk::RandomNumberGenerator,
) -> (map: Vec<TileType>)
    requires
        width >= 2,
        height >= 2,
        width * height <= i32::MAX,
    ensures
        is_grid(map@, width as int, height as int),
        enclosed(map@, width as int, height as int),
        spawn.within(width as int, height as int) && !on_border(
            spawn.x as int,
            spawn.y as int,
            width as int,
            height as int,
        ) ==> tile_at(map@, spawn.x as int, spawn.y as int, width as int) == TileType::Floor,
        exists|base: Seq<TileType>|
            #![trigger bare(base, width as int, height as int)]
            is_grid(base, width as int, height as int) && bare(base, width as int, height as int)
                && generated_from(base, map@, width as int, height as int, spawn),
        inner_walls(map@, width as int, height as int).len() <= WALL_TRIALS,
{
    let mut map = border_map(width, height);
    let ghost base = map@;
    generate_random_walls(&mut map, rng, width, height, spawn);
    proof {
        lemma_scattered_bare(base, map@, width as int, height as int, spawn);
        lemma_bare_has_no_inner_walls(base, width as int, height as int);
        assert(bare(base, width as int, height as int));
    }
    map
}

/// Generates a grid with a generator seeded by the machine.
pub fn new_map(width: i32, height: i32, spawn: Position) -> (map: Vec<TileType>)
    requires
        width >= 2,
        height >= 2,
        width * height <= i32::MAX,
    ensures
        is_grid(map@, width as int, height as int),
        enclosed(map@, width as int, height as int),
        spawn.within(width as int, height as int) && !on_border(
            spawn.x as int,
            spawn.y as int,
            width as int,
            height as int,
        ) ==> tile_at(map@, spawn.x as int, spawn.y as int, width as int) == TileType::Floor,
        exists|base: Seq<TileType>|
            #![trigger bare(base, width as int, height as int)]
            is_grid(base, width as int, height as int) && bare(base, width as int, height as int)
                && generated_from(base, map@, width as int, height as int, spawn),
        inner_walls(map@, width as int, height as int).len() <= WALL_TRIALS,
{
    let mut rng = rltk::RandomNumberGenerator::new();
    new_map_with_rng(width, height, spawn, &mut rng)
}

/// Scattering keeps the grid's size and its walls, and leaves the spawn cell
/// as it was, whatever the rolls.
pub proof fn lemma_scatter_keeps(
    tiles: Seq<TileType>,
    rolls: Seq<(int, int)>,
    width: int,
    height: int,
    spawn: Position,
)
    requires
        is_grid(tiles, width, height),
        rolls_in_range(rolls, width, height),
    ensures
        scattered(tiles, scatter(tiles, rolls, width, spawn), width, height, spawn),
    decreases rolls.len(),
{
    if rolls.len() > 0 {
        let front = rolls.drop_last();
        lemma_scatter_keeps(tiles, front, width, height, spawn);
        let x = rolls.last().0;
        let y = rolls.last().1;
        assert(rolls[rolls.len() - 1] == rolls.last());
        lemma_index_in_grid(x, y, width, height);
        if spawn.within(width, height) && !(x == spawn.x && y == spawn.y) {
            lemma_index_in_grid(spawn.x as int, spawn.y as int, width, height);
            if index_of(x, y, width) == index_of(spawn.x as int, spawn.y as int, width) {
                lemma_index_injective(x, y, spawn.x as int, spawn.y as int, width);
            }
        }
    } else if spawn.within(width, height) {
        lemma_index_in_grid(spawn.x as int, spawn.y as int, width, height);
    }
}

/// A bare grid stays enclosed, and an inner spawn cell stays floor, whatever
/// is scattered on it.
pub proof fn lemma_scattered_bare(
    before: Seq<TileType>,
    after: Seq<TileType>,
    width: int,
    height: int,
    spawn: Position,
)
    requires
        is_grid(before, width, height),
        bare(before, width, height),
        scattered(before, after, width, height, spawn),
    ensures
        enclosed(after, width, height),
        spawn.within(width, height) && !on_border(spawn.x as int, spawn.y as int, width, height)
            ==> tile_at(after, spawn.x as int, spawn.y as int, width) == TileType::Floor,
{
    assert forall|x: int, y: int|
        in_bounds(x, y, width, height) && on_border(x, y, width, height) implies #[trigger] tile_at(
        after,
        x,
        y,
        width,
    ) == TileType::Wall by {
        lemma_index_in_grid(x, y, width, height);
        assert(tile_at(before, x, y, width) == TileType::Wall);
    }
    if spawn.within(width, height) {
        assert(tile_at(before, spawn.x as int, spawn.y as int, width) == (if on_border(
            spawn.x as int,
            spawn.y as int,
            width,
            height,
        ) {
            TileType::Wall
        } else {
            TileType::Floor
        }));
    }
}

/// Whatever the rolls, and however many there are, a bare grid that they are
/// scattered on stays enclosed, and a spawn cell inside the rim stays floor.
pub proof fn lemma_scatter_encloses(
    base: Seq<TileType>,
    rolls: Seq<(int, int)>,
    width: int,
    height: int,
    spawn: Position,
)
    requires
        is_grid(base, width, height),
        bare(base, width, height),
        rolls_in_range(rolls, width, height),
    ensures
        enclosed(scatter(base, rolls, width, spawn), width, height),
        spawn.within(width, height) && !on_border(spawn.x as int, spawn.y as int, width, height)
            ==> tile_at(scatter(base, rolls, width, spawn), spawn.x as int, spawn.y as int, width)
            == TileType::Floor,
{
    lemma_scatter_keeps(base, rolls, width, height, spawn);
    lemma_scattered_bare(base, scatter(base, rolls, width, spawn), width, height, spawn);
}

/// A grid has finitely many walls inside its rim, no more than it has
/// tiles.
pub proof fn lemma_inner_walls_finite(tiles: Seq<TileType>, width: int, height: int)
    ensures
        inner_walls(tiles, width, height).finite(),
        inner_walls(tiles, width, height).len() <= tiles.len(),
{
    lemma_int_range(0, tiles.len() as int);
    lemma_len_subset(inner_walls(tiles, width, height), set_int_range(0, tiles.len() as int));
}

/// Scattering adds at most one wall for each roll.
pub proof fn lemma_scatter_adds_few(
    tiles: Seq<TileType>,
    rolls: Seq<(int, int)>,
    width: int,
    height: int,
    spawn: Position,
)
    requires
        is_grid(tiles, width, height),
        rolls_in_range(rolls, width, height),
    ensures
        inner_walls(scatter(tiles, rolls, width, spawn), width, height).len() <= inner_walls(
            tiles,
            width,
            height,
        ).len() + rolls.len(),
    decreases rolls.len(),
{
    if rolls.len() > 0 {
        let front = rolls.drop_last();
        lemma_scatter_adds_few(tiles, front, width, height, spawn);
        lemma_scatter_keeps(tiles, front, width, height, spawn);
        let before = scatter(tiles, front, width, spawn);
        let after = scatter(tiles, rolls, width, spawn);
        let x = rolls.last().0;
        let y = rolls.last().1;
        assert(rolls[rolls.len() - 1] == rolls.last());
        lemma_index_in_grid(x, y, width, height);
        let grown = inner_walls(before, width, height).insert(index_of(x, y, width));
        lemma_inner_walls_finite(before, width, height);
        assert(inner_walls(after, width, height).subset_of(grown));
        lemma_len_subset(inner_walls(after, width, height), grown);
    }
}

/// A bare grid has no wall inside its rim.
pub proof fn lemma_bare_has_no_inner_walls(tiles: Seq<TileType>, width: int, height: int)
    requires
        is_grid(tiles, width, height),
        bare(tiles, width, height),
    ensures
        inner_walls(tiles, width, height) == Set::<int>::empty(),
{
    assert forall|i: int| !inner_walls(tiles, width, height).contains(i) by {
        if 0 <= i < tiles.len() {
            lemma_decoded_index(i, width, height);
            assert(tile_at(tiles, i % width, i / width, width) == tiles[i]);
        }
    }
    assert(inner_walls(tiles, width, height) =~= Set::<int>::empty());
}

} // verus!
