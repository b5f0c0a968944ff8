//! Conway's Game of Life on a bounded rectangular grid.
//!
//! The engine owns a matrix of boolean cells and an arbitrary-precision
//! generation counter, and advances the grid one generation at a time using
//! the classic birth/survival rule with non-wrapping edges: a cell on the
//! boundary simply has fewer neighbors.

pub mod bigcount;
pub mod conway;
pub mod laws;
pub mod render;
pub mod rules;

pub use crate::conway::Conway;
pub use crate::conway::ConwayError;
pub use crate::render::FrameFormat;
