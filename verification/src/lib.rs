//! Rules engine of a two-player, gravity-drop grid game of the
//! connect-four family.

pub mod cell;
pub mod board;
pub mod grid;
pub mod gravity;
pub mod indexing;
pub mod laws;
pub mod runs;
pub mod targets;

pub use board::{Board, HEIGHT, WIDTH};
pub use cell::{Cell, Result};
pub use grid::{Grid, Line, Move};
