//! Conway's Game of Life on a toroidal grid: the simulation engine, the
//! layout of the grid on a pixel canvas, and the play/pause session that a
//! host frame loop drives.
pub mod canvas;
pub mod patterns;
pub mod session;
pub mod universe;

pub use canvas::{canvas_extent, pixel_offset, CELL_SIZE};
pub use session::Session;
pub use universe::{Cell, Universe};
