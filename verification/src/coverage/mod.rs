//! Search coverage on a grid of tiles.

pub mod addressing;
pub mod grid;

pub use grid::{Cell, CellModel, Grid, CONFIDENCE_FULL};
