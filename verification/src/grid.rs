//! The mathematical model of the board.
//!
//! A [`Grid`] is a rectangle of cells stored row by row. Row 0 is the top
//! row and rows grow downward; column 0 is the left column. Everything the
//! engine promises is stated over this model.

use vstd::prelude::*;
use crate::cell::{Cell, Result};

verus! {

/// One of the four lines through a cell along which a win is looked for.
///
/// Each line has a forward direction, given by [`Line::dr`] and
/// [`Line::dc`]; the backward direction is its opposite.
pub enum Line {
    /// Along the row; forward is to the right.
    Horizontal,
    /// Along the column; forward is downward.
    Vertical,
    /// The diagonal "/"; forward is up and to the right.
    Rising,
    /// The diagonal "\"; forward is down and to the right.
    Falling,
}

impl Line {
    /// Change of row with one step forward.
    pub open spec fn dr(self) -> int {
        match self {
            Line::Horizontal => 0,
            Line::Vertical => 1,
            Line::Rising => -1,
            Line::Falling => 1,
        }
    }

    /// Change of column with one step forward.
    pub open spec fn dc(self) -> int {
        match self {
            Line::Horizontal => 1,
            Line::Vertical => 0,
            Line::Rising => 1,
            Line::Falling => 1,
        }
    }
}

/// Whether `(dr, dc)` moves from a cell to one of its eight neighbours.
pub open spec fn is_step(dr: int, dc: int) -> bool {
    &&& -1 <= dr <= 1
    &&& -1 <= dc <= 1
    &&& (dr != 0 || dc != 0)
}

/// The coordinate reached from `x` after `k` steps of `d`, where `d` is
/// -1, 0 or 1. A negative `k` walks the other way.
pub open spec fn shift(x: int, d: int, k: int) -> int {
    if d > 0 {
        x + k
    } else if d < 0 {
        x - k
    } else {
        x
    }
}

/// One call of `play`, as data: the value to write and the cell aimed at.
pub struct Move {
    pub cell: Cell,
    pub row: int,
    pub col: int,
}

/// A rectangle of `width` by `height` cells in row-major order.
pub struct Grid {
    pub width: int,
    pub height: int,
    pub cells: Seq<Cell>,
}

impl Grid {
    /// The grid of the given size with nothing on it.
    pub open spec fn empty(width: int, height: int) -> Grid {
        Grid { width, height, cells: Seq::new((width * height) as nat, |i: int| Cell::Empty) }
    }

    /// Both dimensions are positive and there is one cell per position.
    pub open spec fn wf(self) -> bool {
        &&& 0 < self.width
        &&& 0 < self.height
        &&& self.cells.len() == self.width * self.height
    }

    /// Whether `(row, col)` is a position of the grid.
    pub open spec fn in_bounds(self, row: int, col: int) -> bool {
        0 <= row < self.height && 0 <= col < self.width
    }

    /// Where the cell at `(row, col)` stands in `cells`.
    pub open spec fn index(self, row: int, col: int) -> int {
        row * self.width + col
    }

    /// The value at `(row, col)`.
    pub open spec fn at(self, row: int, col: int) -> Cell {
        self.cells[self.index(row, col)]
    }

    /// Whether `(row, col)` is a position of the grid that holds `p`.
    pub open spec fn holds(self, row: int, col: int, p: Cell) -> bool {
        self.in_bounds(row, col) && self.at(row, col) == p
    }

    /// Nothing floats: under a cell that is not empty, no cell of the same
    /// column is empty.
    pub open spec fn settled(self) -> bool {
        forall|row: int, below: int, col: int|
            #![trigger self.at(row, col), self.at(below, col)]
            0 <= row < below < self.height && 0 <= col < self.width && self.at(row, col)
                != Cell::Empty ==> self.at(below, col) != Cell::Empty
    }

    /// Whether `(row, col)` is where a disc dropped into column `col`
    /// comes to rest: the bottom-most empty cell of that column.
    pub open spec fn is_drop_target(self, row: int, col: int) -> bool {
        &&& self.in_bounds(row, col)
        &&& self.at(row, col) == Cell::Empty
        &&& forall|below: int|
            row < below < self.height ==> #[trigger] self.at(below, col) != Cell::Empty
    }

    /// Whether any column still takes a disc.
    pub open spec fn has_move(self) -> bool {
        exists|row: int, col: int| self.is_drop_target(row, col)
    }

    /// The row of the bottom-most empty cell among rows `0..=row` of column
    /// `col`, or -1 if none of them is empty.
    pub open spec fn lowest_empty(self, col: int, row: int) -> int
        decreases row + 1,
    {
        if row < 0 {
            -1
        } else if self.at(row, col) == Cell::Empty {
            row
        } else {
            self.lowest_empty(col, row - 1)
        }
    }

    /// The row on which a disc dropped into column `col` comes to rest, or
    /// -1 if the column is full.
    pub open spec fn landing_row(self, col: int) -> int {
        self.lowest_empty(col, self.height - 1)
    }

    /// The indices of the drop targets of columns `0..n`, in column order.
    /// A full column contributes nothing.
    pub open spec fn targets_before(self, n: int) -> Seq<int>
        decreases n,
    {
        if n <= 0 {
            Seq::empty()
        } else {
            let rest = self.targets_before(n - 1);
            let row = self.landing_row(n - 1);
            if row >= 0 {
                rest.push(self.index(row, n - 1))
            } else {
                rest
            }
        }
    }

    /// The indices of all drop targets, in column order.
    pub open spec fn drop_targets(self) -> Seq<int> {
        self.targets_before(self.width)
    }

    /// The grid with `cell` written at `(row, col)`.
    pub open spec fn place(self, cell: Cell, row: int, col: int) -> Grid {
        Grid {
            width: self.width,
            height: self.height,
            cells: self.cells.update(self.index(row, col), cell),
        }
    }

    /// How far a walk from `(row, col)` by steps of `(dr, dc)` is from
    /// leaving the grid, counted along the coordinate that decides it.
    pub open spec fn margin(self, row: int, col: int, dr: int, dc: int) -> int {
        if dc > 0 {
            self.width - col
        } else if dc < 0 {
            col + 1
        } else if dr > 0 {
            self.height - row
        } else {
            row + 1
        }
    }

    /// The number of cells holding `p` that a walk meets before anything
    /// else, when it starts on `(row, col)` and goes by steps of `(dr, dc)`.
    /// The walk ends at the first cell that holds another value and at the
    /// edge of the grid. Where `(dr, dc)` is no step, the count is 0.
    pub open spec fn run(self, row: int, col: int, dr: int, dc: int, p: Cell) -> nat
        decreases self.margin(row, col, dr, dc),
    {
        if self.holds(row, col, p) && is_step(dr, dc) {
            1 + self.run(row + dr, col + dc, dr, dc, p)
        } else {
            0
        }
    }

    /// The length of the longest unbroken stretch of cells on `line` that
    /// contains `(row, col)` and holds its value throughout: the run
    /// backward from the neighbour plus the run forward from the cell.
    pub open spec fn line_len(self, row: int, col: int, line: Line) -> nat {
        let p = self.at(row, col);
        self.run(row - line.dr(), col - line.dc(), -line.dr(), -line.dc(), p) + self.run(
            row,
            col,
            line.dr(),
            line.dc(),
            p,
        )
    }

    /// Whether `(row, col)` lies in a stretch of four or more equal cells on
    /// one of the four lines through it.
    pub open spec fn wins(self, row: int, col: int) -> bool {
        ||| self.line_len(row, col, Line::Vertical) >= 4
        ||| self.line_len(row, col, Line::Horizontal) >= 4
        ||| self.line_len(row, col, Line::Rising) >= 4
        ||| self.line_len(row, col, Line::Falling) >= 4
    }

    /// The state of the game on this grid when the last disc came to rest on
    /// `(row, col)`. A win goes before a draw.
    pub open spec fn outcome(self, row: int, col: int) -> Result {
        if self.wins(row, col) {
            Result::Win
        } else if !self.has_move() {
            Result::Draw
        } else {
            Result::Unfinished
        }
    }

    /// The grid that a call of `play` leaves behind.
    pub open spec fn after_play(self, cell: Cell, row: int, col: int) -> Grid {
        if self.is_drop_target(row, col) {
            self.place(cell, row, col)
        } else {
            self
        }
    }

    /// The answer that a call of `play` gives.
    pub open spec fn play_result(self, cell: Cell, row: int, col: int) -> Result {
        if self.is_drop_target(row, col) {
            self.place(cell, row, col).outcome(row, col)
        } else {
            Result::InvalidMove
        }
    }

    /// Whether the cell `k` steps forward of `(row, col)` on `line` lies on
    /// the grid and holds the same value as `(row, col)`.
    pub open spec fn same_at(self, row: int, col: int, line: Line, k: int) -> bool {
        self.holds(shift(row, line.dr(), k), shift(col, line.dc(), k), self.at(row, col))
    }

    /// Whether the four cells from `lo` to `lo + 3` steps forward of
    /// `(row, col)` on `line` all hold the value of `(row, col)`.
    pub open spec fn four_in_line(self, row: int, col: int, line: Line, lo: int) -> bool {
        forall|k: int| lo <= k <= lo + 3 ==> self.same_at(row, col, line, k)
    }
}

} // verus!
