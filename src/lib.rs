//! Conway's Game of Life on a fixed 64 x 64 toroidal grid, stored one bit
//! per cell, with its step function, pattern seeding and text rendering
//! proved against a mathematical model of the grid.

mod bitset;
pub mod laws;
pub mod life;
pub mod universe;

pub use universe::{Cell, InitType, Universe};
