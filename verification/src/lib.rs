//! A verified engine for Conway's Game of Life on an unbounded integer grid.
//!
//! The engine keeps a sparse set of live cells, advances it one generation at
//! a time under the B3/S23 rule, converts between Cartesian, matrix and pixel
//! coordinates, fits and moves a square camera over the world, and projects
//! the visible live cells into pixel rectangles for drawing.

pub mod app;
pub mod cartesian_plane;
pub mod cell;
pub mod coordinate;
pub mod decimal;
pub mod neighbor;
pub mod preset;
pub mod rect;
pub mod render;
pub mod universe;
