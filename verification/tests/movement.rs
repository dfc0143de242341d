use rltk_app::components::Position;
use rltk_app::map::generator::{border_map, new_map};
use rltk_app::map::tile::{get_tile, xy_idx, TileType};
use rltk_app::player_handler::{
    clamp_move_player, get_player_input, key_direction, try_move_player, Direction, Key,
};
use rltk_app::systems::left_walk;

fn at(x: i32, y: i32) -> Position {
    Position { x, y }
}

#[test]
fn wall_to_the_right_rejects_the_move() {
    let mut map = border_map(5, 5);
    map[xy_idx(3, 2, 5)] = TileType::Wall;
    assert_eq!(try_move_player(1, 0, at(2, 2), &map, 5, 5), at(2, 2));
    assert_eq!(get_player_input(Some(Key::Right), at(2, 2), &map, 5, 5), at(2, 2));
}

#[test]
fn floor_above_accepts_the_move() {
    let map = border_map(5, 5);
    assert_eq!(try_move_player(0, -1, at(2, 2), &map, 5, 5), at(2, 1));
    assert_eq!(get_player_input(Some(Key::Up), at(2, 2), &map, 5, 5), at(2, 1));
}

#[test]
fn each_direction_moves_one_step() {
    let map = border_map(7, 7);
    assert_eq!(try_move_player(-1, 0, at(3, 3), &map, 7, 7), at(2, 3));
    assert_eq!(try_move_player(1, 0, at(3, 3), &map, 7, 7), at(4, 3));
    assert_eq!(try_move_player(0, -1, at(3, 3), &map, 7, 7), at(3, 2));
    assert_eq!(try_move_player(0, 1, at(3, 3), &map, 7, 7), at(3, 4));
    assert_eq!(try_move_player(0, 0, at(3, 3), &map, 7, 7), at(3, 3));
}

#[test]
fn border_wall_holds_the_player_in() {
    let map = border_map(5, 5);
    assert_eq!(try_move_player(-1, 0, at(1, 1), &map, 5, 5), at(1, 1));
    assert_eq!(try_move_player(0, -1, at(1, 1), &map, 5, 5), at(1, 1));
    assert_eq!(try_move_player(1, 0, at(3, 3), &map, 5, 5), at(3, 3));
    assert_eq!(try_move_player(0, 1, at(3, 3), &map, 5, 5), at(3, 3));
}

#[test]
fn edge_holds_the_move_on_an_open_grid() {
    let map = vec![TileType::Floor; 12];
    assert_eq!(try_move_player(-1, 0, at(0, 1), &map, 4, 3), at(0, 1));
    assert_eq!(try_move_player(1, 0, at(3, 1), &map, 4, 3), at(3, 1));
    assert_eq!(try_move_player(0, -1, at(2, 0), &map, 4, 3), at(2, 0));
    assert_eq!(try_move_player(0, 1, at(2, 2), &map, 4, 3), at(2, 2));
}

#[test]
fn long_move_is_held_to_the_grid() {
    let map = vec![TileType::Floor; 12];
    assert_eq!(try_move_player(10, 0, at(1, 1), &map, 4, 3), at(3, 1));
    assert_eq!(try_move_player(-10, 7, at(1, 1), &map, 4, 3), at(0, 2));
    assert_eq!(try_move_player(i32::MAX, i32::MIN, at(3, 2), &map, 4, 3), at(3, 0));
    assert_eq!(try_move_player(2, 1, at(1, 1), &map, 4, 3), at(3, 2));
}

#[test]
fn long_move_onto_a_wall_is_rejected() {
    let mut map = vec![TileType::Floor; 12];
    map[xy_idx(3, 2, 4)] = TileType::Wall;
    assert_eq!(try_move_player(2, 1, at(1, 1), &map, 4, 3), at(1, 1));
    assert_eq!(try_move_player(3, 1, at(1, 1), &map, 4, 3), at(3, 2));
}

#[test]
fn clamp_only_move_knows_no_walls() {
    assert_eq!(clamp_move_player(-1, 0, at(0, 10), 80, 50), at(0, 10));
    assert_eq!(clamp_move_player(1, 0, at(79, 10), 80, 50), at(79, 10));
    assert_eq!(clamp_move_player(0, -1, at(5, 0), 80, 50), at(5, 0));
    assert_eq!(clamp_move_player(0, 1, at(5, 49), 80, 50), at(5, 49));
    assert_eq!(clamp_move_player(1, 1, at(5, 5), 80, 50), at(6, 6));
    assert_eq!(clamp_move_player(-3, 100, at(5, 5), 80, 50), at(2, 49));
    assert_eq!(clamp_move_player(i32::MIN, i32::MAX, at(5, 5), 80, 50), at(0, 49));
}

#[test]
fn keys_stand_for_directions() {
    for key in [Key::A, Key::Left, Key::H] {
        assert_eq!(key_direction(key), Some(Direction::Left));
    }
    for key in [Key::D, Key::Right, Key::L] {
        assert_eq!(key_direction(key), Some(Direction::Right));
    }
    for key in [Key::W, Key::Up, Key::K] {
        assert_eq!(key_direction(key), Some(Direction::Up));
    }
    for key in [Key::S, Key::Down, Key::J] {
        assert_eq!(key_direction(key), Some(Direction::Down));
    }
    assert_eq!(key_direction(Key::Other), None);
}

#[test]
fn directions_have_unit_deltas() {
    assert_eq!(Direction::Left.delta(), (-1, 0));
    assert_eq!(Direction::Right.delta(), (1, 0));
    assert_eq!(Direction::Up.delta(), (0, -1));
    assert_eq!(Direction::Down.delta(), (0, 1));
}

#[test]
fn no_key_is_no_move() {
    let map = border_map(5, 5);
    assert_eq!(get_player_input(None, at(2, 2), &map, 5, 5), at(2, 2));
    assert_eq!(get_player_input(Some(Key::Other), at(2, 2), &map, 5, 5), at(2, 2));
}

#[test]
fn input_moves_one_step() {
    let map = border_map(7, 7);
    assert_eq!(get_player_input(Some(Key::H), at(3, 3), &map, 7, 7), at(2, 3));
    assert_eq!(get_player_input(Some(Key::D), at(3, 3), &map, 7, 7), at(4, 3));
    assert_eq!(get_player_input(Some(Key::W), at(3, 3), &map, 7, 7), at(3, 2));
    assert_eq!(get_player_input(Some(Key::J), at(3, 3), &map, 7, 7), at(3, 4));
}

#[test]
fn drift_left_wraps_at_column_zero() {
    assert_eq!(left_walk(at(0, 20), 80), at(79, 20));
    assert_eq!(left_walk(at(1, 20), 80), at(0, 20));
    assert_eq!(left_walk(at(63, 20), 80), at(62, 20));
    assert_eq!(left_walk(at(0, 0), 1), at(0, 0));
    assert_eq!(left_walk(at(-5, 3), 80), at(79, 3));
    assert_eq!(left_walk(at(i32::MIN, 3), 80), at(79, 3));
}

#[test]
fn drift_left_comes_round() {
    let mut pos = at(7, 20);
    for _ in 0..80 {
        pos = left_walk(pos, 80);
        assert!(0 <= pos.x && pos.x < 80);
    }
    assert_eq!(pos, at(7, 20));
}

#[test]
fn end_to_end_left_move() {
    let map = new_map(80, 50, at(40, 25));
    assert_eq!(get_tile(&map, 40, 25, 80, 50), TileType::Floor);
    assert_eq!(get_tile(&map, 0, 0, 80, 50), TileType::Wall);
    assert_eq!(get_tile(&map, 79, 49, 80, 50), TileType::Wall);
    let next = get_player_input(Some(Key::Left), at(40, 25), &map, 80, 50);
    let want = if get_tile(&map, 39, 25, 80, 50) == TileType::Floor { 39 } else { 40 };
    assert_eq!(next, at(want, 25));
}

#[test]
fn walk_on_a_generated_grid_stays_inside() {
    let map = new_map(20, 10, at(10, 5));
    let mut pos = at(10, 5);
    let keys = [Key::Left, Key::Up, Key::Left, Key::Down, Key::Right, Key::Up];
    for round in 0..200 {
        pos = get_player_input(Some(keys[round % keys.len()]), pos, &map, 20, 10);
        assert!(0 <= pos.x && pos.x < 20 && 0 <= pos.y && pos.y < 10);
        assert_eq!(get_tile(&map, pos.x, pos.y, 20, 10), TileType::Floor);
    }
}
