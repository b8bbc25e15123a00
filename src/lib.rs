//! Conway's Game of Life on a fixed rectangular grid whose border cells have
//! fewer neighbours (no wrap-around).
//!
//! Every cell is classified once, by its index, into a position class; the
//! class alone selects the neighbour offsets that the generation step reads.

pub mod grid;
pub mod patterns;
pub mod rules;
pub mod text;
pub mod board;

pub use board::{Board, HEIGHT, WIDTH};
pub use grid::{classify, neighbor_indices, Pos};
