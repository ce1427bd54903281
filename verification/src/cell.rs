//! The values a cell of the board can hold and the answers a move can get.

use vstd::prelude::*;

verus! {

/// What one cell of the grid holds: nothing, or the disc of one of the two
/// players.
#[derive(Clone, Copy, Debug, PartialEq, Eq, Structural)]
pub enum Cell {
    Yellow,
    Red,
    Empty,
}

/// The answer to one move.
#[derive(Clone, Copy, Debug, PartialEq, Eq, Structural)]
pub enum Result {
    /// The move completed a line of four or more.
    Win,
    /// The move filled the board without completing a line.
    Draw,
    /// The move was applied and the game goes on.
    Unfinished,
    /// The move was refused; the grid is as it was.
    InvalidMove,
}

} // verus!
