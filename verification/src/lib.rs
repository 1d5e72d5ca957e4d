//! A bounded, hard-edged Game of Life grid and the mapping from its cells
//! to drawable screen-space tiles.

pub mod grid;
pub mod rng;
pub mod tiles;
