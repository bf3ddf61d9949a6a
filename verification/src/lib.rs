//! Conway's Game of Life on a bounded rectangular grid.
//!
//! Cells beyond the edge of the grid are dead and stay dead: the grid does not wrap.
//! [`model`] defines a generation and its successor as mathematical values,
//! [`simulation`] holds the executable grid and the game that advances it, [`laws`]
//! proves what holds of every generation, [`patterns`] what becomes of a few small
//! patterns, and [`raster`] places cells on a pixel surface.

pub mod error;
pub mod laws;
pub mod model;
pub mod patterns;
pub mod raster;
pub mod simulation;

pub use error::OutOfBounds;
pub use simulation::{step, Board, Game, Grid};
