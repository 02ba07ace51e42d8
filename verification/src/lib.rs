//! Falling sand simulation engine.
//!
//! A deterministic cellular automaton on a fixed grid: sand, water, fire and
//! smoke follow local per-cell rules, and specter groups drift across the
//! grid as rigid shapes.

pub mod api;
pub mod cell;
pub mod census;
pub mod elements;
pub mod eyes;
pub mod grid;
pub mod laws;
pub mod mover;
pub mod tick;
pub mod universe;

pub use crate::grid::Grid;
pub use crate::universe::Universe;
