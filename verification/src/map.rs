//! The grid of tiles and its generator.

pub mod generator;
pub mod tile;
