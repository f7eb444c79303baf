//! A toroidal Game of Life board: the rule applied synchronously, single
//! cell toggles, reset, and the run/pause flag and rate that pace it.
pub mod grid;
pub mod input;
pub mod laws;

pub use grid::{Board, State, GRID_HEIGHT, GRID_WIDTH};
pub use input::{cell_origin, Key, CELL_SIZE};
