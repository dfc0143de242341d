//! The core of a small roguelike: a tile grid enclosed by walls, a generator
//! that scatters walls at random, and movement that walls and the grid's edge
//! hold back.

pub mod components;
pub mod dice;
pub mod map;
pub mod player_handler;
pub mod systems;
