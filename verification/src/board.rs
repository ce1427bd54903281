//! The board: the grid as it is held in memory, and the moves on it.

use vstd::prelude::*;
use crate::cell::{Cell, Result};
use crate::grid::{is_step, Grid, Line};
use crate::gravity::{lemma_empty_settled, lemma_place_keeps_settled};
use crate::indexing::lemma_index_in_range;
use crate::targets::lemma_drop_targets;

verus! {

/// Number of columns of a new board.
pub const WIDTH: i8 = 7;

/// Number of rows of a new board.
pub const HEIGHT: i8 = 6;

/// A board of the game. Its size is fixed when it is made; its cells change
/// through [`Board::play`] alone, so that every board a caller can hold is
/// well formed and settled.
pub struct Board {
    width: i8,
    height: i8,
    cells: Vec<Cell>,
}

impl View for Board {
    type V = Grid;

    closed spec fn view(&self) -> Grid {
        Grid { width: self.width as int, height: self.height as int, cells: self.cells@ }
    }
}

impl Board {
    #[verifier::type_invariant]
    spec fn inv(self) -> bool {
        self@.wf() && self@.settled()
    }

    /// A board of `WIDTH` columns and `HEIGHT` rows with nothing on it.
    pub fn new() -> (board: Board)
        ensures
            board@ == Grid::empty(WIDTH as int, HEIGHT as int),
            board@.wf(),
            board@.settled(),
    {
        let size: usize = (WIDTH as usize) * (HEIGHT as usize);
        let mut cells: Vec<Cell> = Vec::new();
        while cells.len() < size
            invariant
                size == WIDTH * HEIGHT,
                cells@.len() <= size,
                forall|i: int| 0 <= i < cells@.len() ==> cells@[i] == Cell::Empty,
            decreases size - cells@.len(),
        {
            cells.push(Cell::Empty);
        }
        proof {
            lemma_empty_settled(WIDTH as int, HEIGHT as int);
            assert(cells@ =~= Grid::empty(WIDTH as int, HEIGHT as int).cells);
        }
        Board { width: WIDTH, height: HEIGHT, cells }
    }

    /// Number of columns.
    pub fn width(&self) -> (w: i8)
        ensures
            w == self@.width,
            self@.wf(),
    {
        proof {
            use_type_invariant(self);
        }
        self.width
    }

    /// Number of rows.
    pub fn height(&self) -> (h: i8)
        ensures
            h == self@.height,
            self@.wf(),
    {
        proof {
            use_type_invariant(self);
        }
        self.height
    }

    /// The cells as they are, row by row from the top. The slice borrows
    /// the board, so it cannot outlive it nor be read across a move.
    pub fn cells(&self) -> (cells: &[Cell])
        ensures
            cells@ == self@.cells,
            self@.wf(),
            self@.settled(),
    {
        proof {
            use_type_invariant(self);
        }
        self.cells.as_slice()
    }

    /// Index of the cell at `(row, col)`.
    fn get_index(&self, row: i8, col: i8) -> (idx: usize)
        requires
            self@.in_bounds(row as int, col as int),
        ensures
            idx == self@.index(row as int, col as int),
            idx < self@.cells.len(),
    {
        proof {
            use_type_invariant(self);
            lemma_index_in_range(self@, row as int, col as int);
            assert(0 <= row * self.width <= 127 * 127) by (nonlinear_arith)
                requires
                    0 <= row <= 127,
                    0 <= self.width <= 127,
            ;
        }
        (row as usize) * (self.width as usize) + (col as usize)
    }

    /// The indices of the cells that a move may aim at: for each column
    /// that is not full, from left to right, its bottom-most empty cell.
    fn valid_moves(&self) -> (moves: Vec<usize>)
        ensures
            moves@.map_values(|i: usize| i as int) == self@.drop_targets(),
            forall|row: int, col: int|
                self@.in_bounds(row, col) ==> (moves@.contains(
                    #[trigger] self@.index(row, col) as usize,
                ) <==> self@.is_drop_target(row, col)),
            moves@.len() == 0 <==> !self@.has_move(),
    {
        proof {
            use_type_invariant(self);
        }
        let mut moves: Vec<usize> = Vec::new();
        let mut col: i8 = 0;
        while col < self.width
            invariant
                self@.wf(),
                0 <= col <= self@.width,
                moves@.map_values(|i: usize| i as int) == self@.targets_before(col as int),
            decreases self@.width - col,
        {
            let mut row: i8 = self.height - 1;
            while row >= 0 && self.cells[self.get_index(row, col)] != Cell::Empty
                invariant
                    self@.wf(),
                    0 <= col < self@.width,
                    -1 <= row < self@.height,
                    self@.lowest_empty(col as int, row as int) == self@.landing_row(col as int),
                decreases row + 1,
            {
                row -= 1;
            }
            let ghost before = moves@;
            if row >= 0 {
                moves.push(self.get_index(row, col));
            }
            assert(moves@.map_values(|i: usize| i as int) =~= self@.targets_before(col + 1)) by {
                if row >= 0 {
                    assert(moves@ == before.push(self@.index(row as int, col as int) as usize));
                }
            }
            col += 1;
        }
        proof {
            let targets = self@.drop_targets();
            let listed = moves@.map_values(|i: usize| i as int);
            lemma_drop_targets(self@);
            assert forall|row: int, col: int| self@.in_bounds(row, col) implies (moves@.contains(
                #[trigger] self@.index(row, col) as usize,
            ) <==> self@.is_drop_target(row, col)) by {
                let idx = self@.index(row, col);
                lemma_index_in_range(self@, row, col);
                assert(self@.cells.len() == self.cells.len());
                if moves@.contains(idx as usize) {
                    let i = choose|i: int| 0 <= i < moves@.len() && moves@[i] == idx as usize;
                    assert(listed[i] == idx);
                }
                if targets.contains(idx) {
                    let i = choose|i: int| 0 <= i < targets.len() && targets[i] == idx;
                    assert(listed[i] == idx);
                    assert(moves@[i] == idx as usize);
                }
            }
        }
        moves
    }

    /// Whether `idx` is one of `moves`.
    fn is_listed(moves: &Vec<usize>, idx: usize) -> (listed: bool)
        ensures
            listed == moves@.contains(idx),
    {
        let mut i: usize = 0;
        while i < moves.len()
            invariant
                i <= moves@.len(),
                forall|k: int| 0 <= k < i ==> moves@[k] != idx,
            decreases moves@.len() - i,
        {
            if moves[i] == idx {
                return true;
            }
            i += 1;
        }
        false
    }

    /// Puts `cell` on `(row, col)` if that is the bottom-most empty cell of
    /// column `col`, and says how the game stands then. Any other aim,
    /// off the board or on it, is answered with `InvalidMove` and changes
    /// nothing.
    ///
    /// The engine does not ask whose turn it is, nor whether the game is
    /// over: that is left to the caller.
    pub fn play(&mut self, cell: Cell, row: i8, col: i8) -> (result: Result)
        ensures
            final(self)@ == old(self)@.after_play(cell, row as int, col as int),
            result == old(self)@.play_result(cell, row as int, col as int),
            result == Result::InvalidMove <==> !old(self)@.is_drop_target(row as int, col as int),
            result == Result::InvalidMove ==> final(self)@ == old(self)@,
            final(self)@.wf(),
            final(self)@.settled(),
    {
        proof {
            use_type_invariant(&*self);
        }
        if row < 0 || row >= self.height || col < 0 || col >= self.width {
            return Result::InvalidMove;
        }
        let idx = self.get_index(row, col);
        let possible_moves = self.valid_moves();
        if Self::is_listed(&possible_moves, idx) {
            proof {
                let before = self@;
                assert forall|c: Cell|
                    (Grid {
                        width: before.width,
                        height: before.height,
                        cells: #[trigger] before.cells.update(idx as int, c),
                    }).settled() by {
                    lemma_place_keeps_settled(before, c, row as int, col as int);
                }
            }
            self.cells[idx] = cell;
            let moves = self.valid_moves();
            self.game_status(row, col, moves)
        } else {
            Result::InvalidMove
        }
    }

    /// How the game stands after a disc came to rest on `(row, col)`, given
    /// the moves that are left: won if the disc lies in a line of four or
    /// more, else drawn if no move is left, else unfinished.
    fn game_status(&self, row: i8, col: i8, moves: Vec<usize>) -> (result: Result)
        requires
            self@.in_bounds(row as int, col as int),
        ensures
            result == if self@.wins(row as int, col as int) {
                Result::Win
            } else if moves@.len() == 0 {
                Result::Draw
            } else {
                Result::Unfinished
            },
    {
        if self.four_v(row, col) || self.four_h(row, col) || self.four_dl(row, col)
            || self.four_dr(row, col) {
            Result::Win
        } else if moves.len() == 0 {
            Result::Draw
        } else {
            Result::Unfinished
        }
    }

    /// Counts the cells holding `p` from `(row, col)` on, by steps of
    /// `(dr, dc)`, up to the first cell that holds another value or the edge
    /// of the board. The start may lie one step off the board.
    fn count_run(&self, row: i8, col: i8, dr: i8, dc: i8, p: Cell) -> (n: u32)
        requires
            is_step(dr as int, dc as int),
            -1 <= row <= self@.height,
            -1 <= col <= self@.width,
        ensures
            n == self@.run(row as int, col as int, dr as int, dc as int, p),
            n <= 128,
    {
        proof {
            use_type_invariant(self);
        }
        let mut i = row;
        let mut j = col;
        let mut n: u32 = 0;
        while 0 <= i && i < self.height && 0 <= j && j < self.width && self.cells[self.get_index(
            i,
            j,
        )] == p
            invariant
                self@.wf(),
                is_step(dr as int, dc as int),
                -1 <= i <= self@.height,
                -1 <= j <= self@.width,
                -1 <= row <= self@.height,
                -1 <= col <= self@.width,
                n + self@.margin(i as int, j as int, dr as int, dc as int) == self@.margin(
                    row as int,
                    col as int,
                    dr as int,
                    dc as int,
                ),
                n + self@.run(i as int, j as int, dr as int, dc as int, p) == self@.run(
                    row as int,
                    col as int,
                    dr as int,
                    dc as int,
                    p,
                ),
            decreases self@.margin(i as int, j as int, dr as int, dc as int),
        {
            n += 1;
            i += dr;
            j += dc;
        }
        n
    }

    /// Whether the cell at `(row, col)` lies in a row of four or more.
    fn four_h(&self, row: i8, col: i8) -> (four: bool)
        requires
            self@.in_bounds(row as int, col as int),
        ensures
            four == (self@.line_len(row as int, col as int, Line::Horizontal) >= 4),
    {
        let p = self.cells[self.get_index(row, col)];
        let left = self.count_run(row, col - 1, 0, -1, p);
        let right = self.count_run(row, col, 0, 1, p);
        left + right >= 4
    }

    /// Whether the cell at `(row, col)` lies in a column of four or more.
    fn four_v(&self, row: i8, col: i8) -> (four: bool)
        requires
            self@.in_bounds(row as int, col as int),
        ensures
            four == (self@.line_len(row as int, col as int, Line::Vertical) >= 4),
    {
        let p = self.cells[self.get_index(row, col)];
        let up = self.count_run(row - 1, col, -1, 0, p);
        let down = self.count_run(row, col, 1, 0, p);
        up + down >= 4
    }

    /// Whether the cell at `(row, col)` lies in a stretch of four or more on
    /// the diagonal that rises from left to right.
    fn four_dl(&self, row: i8, col: i8) -> (four: bool)
        requires
            self@.in_bounds(row as int, col as int),
        ensures
            four == (self@.line_len(row as int, col as int, Line::Rising) >= 4),
    {
        let p = self.cells[self.get_index(row, col)];
        let down_left = self.count_run(row + 1, col - 1, 1, -1, p);
        let up_right = self.count_run(row, col, -1, 1, p);
        down_left + up_right >= 4
    }

    /// Whether the cell at `(row, col)` lies in a stretch of four or more on
    /// the diagonal that falls from left to right.
    fn four_dr(&self, row: i8, col: i8) -> (four: bool)
        requires
            self@.in_bounds(row as int, col as int),
        ensures
            four == (self@.line_len(row as int, col as int, Line::Falling) >= 4),
    {
        let p = self.cells[self.get_index(row, col)];
        let up_left = self.count_run(row - 1, col - 1, -1, -1, p);
        let down_right = self.count_run(row, col, 1, 1, p);
        up_left + down_right >= 4
    }
}

} // verus!
