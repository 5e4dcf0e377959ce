//! Grid ray casting on an occupancy map.
//!
//! A ray cast walks from cell to cell across a rectangular grid until it
//! enters an occupied cell or leaves the grid. Which grid line the ray crosses
//! next is a question of real-valued geometry and is left to the caller; this
//! crate owns the grid and everything that is decided on it: where each
//! crossing leads, whether that cell exists, whether it is a wall, and when
//! the walk is over.

pub mod grid;
pub mod walk;
pub mod path;
pub mod guarantees;

pub use grid::RayCastEngine;
pub use walk::{Axis, Facing, Status, Walk};
