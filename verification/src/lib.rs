//! A verified Game of Life engine on a fixed-size toroidal grid.
//!
//! The grid owns a row-major vector of cells together with its width and
//! height. Neighbor counting wraps around both edges, so every cell has
//! exactly eight neighbor slots; a generation advance (`tick`) applies the
//! classic birth/survival rules to every cell simultaneously, always reading
//! the pre-tick state.

pub mod cell;
pub mod grid;
pub mod laws;
pub mod neighbors;
pub mod render;
pub mod tick;

pub use cell::Cell;
pub use grid::AddressingError;
pub use grid::Universe;
