//! A single marker on a bounded grid, moved one cell at a time in the four
//! cardinal directions and clamped at the edges.

pub mod instructions;
pub mod laws;
pub mod render;
pub mod walker;

pub use walker::{Direction, GridError, Position, Size, Wearhouse};
