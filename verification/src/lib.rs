//! Conway's Game of Life on a toroidal grid.
//!
//! The grid (`Universe`) owns its dimensions and a flat, row-major cell
//! sequence whose length always equals `width * height`. It offers the
//! generation step (the standard B3/S23 rule, computed from a snapshot of
//! the current generation), direct cell mutation (toggle, set-alive,
//! batch set, randomize from host-supplied bits, resize-with-reset), and
//! read-only queries including a textual dump and the pixel geometry that
//! a renderer needs to draw the grid onto a 2D surface.
//!
//! The host environment supplies randomness and owns the drawing surface;
//! this crate contains only the simulation and geometry logic.

mod universe;
mod layout;
mod laws;

pub use universe::Cell;
pub use universe::Universe;
pub use layout::CELL_SIZE;
