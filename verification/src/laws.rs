//! What holds of every game: the laws of the engine, each proved from the
//! model that the contracts of [`crate::Board`] are stated over.

use vstd::prelude::*;
use crate::cell::{Cell, Result};
use crate::gravity::lemma_place_keeps_settled;
use crate::grid::{Grid, Line, Move};
use crate::indexing::lemma_place;
use crate::runs::lemma_line_cells;
use crate::targets::lemma_has_move_iff_empty_cell;

verus! {

/// Whether `grids` and `results` are the record of a game played with
/// `moves`: the game starts on `grids[0]`, and move `i` turns `grids[i]`
/// into `grids[i + 1]` and is answered with `results[i]`, as `play`
/// promises.
pub open spec fn records(moves: Seq<Move>, grids: Seq<Grid>, results: Seq<Result>) -> bool {
    &&& grids.len() == moves.len() + 1
    &&& results.len() == moves.len()
    &&& forall|i: int|
        0 <= i < moves.len() ==> {
            &&& #[trigger] grids[i + 1] == grids[i].after_play(
                moves[i].cell,
                moves[i].row,
                moves[i].col,
            )
            &&& results[i] == grids[i].play_result(moves[i].cell, moves[i].row, moves[i].col)
        }
}

/// In two records of the same moves from the same grid, the grids agree up
/// to position `n`.
proof fn lemma_same_grids(
    moves: Seq<Move>,
    grids1: Seq<Grid>,
    results1: Seq<Result>,
    grids2: Seq<Grid>,
    results2: Seq<Result>,
    n: int,
)
    requires
        records(moves, grids1, results1),
        records(moves, grids2, results2),
        grids1[0] == grids2[0],
        0 <= n <= moves.len(),
    ensures
        grids1[n] == grids2[n],
    decreases n,
{
    if n > 0 {
        lemma_same_grids(moves, grids1, results1, grids2, results2, n - 1);
        assert(grids1[n - 1 + 1] == grids1[n]);
        assert(grids2[n - 1 + 1] == grids2[n]);
    }
}

/// A game is decided by the grid it starts on and its moves: two records
/// of the same moves from the same grid show the same grid after every
/// move and the same answer to every move.
pub proof fn lemma_game_is_determined(
    moves: Seq<Move>,
    grids1: Seq<Grid>,
    results1: Seq<Result>,
    grids2: Seq<Grid>,
    results2: Seq<Result>,
)
    requires
        records(moves, grids1, results1),
        records(moves, grids2, results2),
        grids1[0] == grids2[0],
    ensures
        grids1 == grids2,
        results1 == results2,
{
    assert forall|i: int| 0 <= i < grids1.len() implies grids1[i] == grids2[i] by {
        lemma_same_grids(moves, grids1, results1, grids2, results2, i);
    }
    assert(grids1 =~= grids2);
    assert forall|i: int| 0 <= i < results1.len() implies results1[i] == results2[i] by {
        assert(grids1[i + 1] == grids1[i].after_play(moves[i].cell, moves[i].row, moves[i].col));
        assert(grids2[i + 1] == grids2[i].after_play(moves[i].cell, moves[i].row, moves[i].col));
    }
    assert(results1 =~= results2);
}

/// A column has one drop target at most.
pub proof fn lemma_one_target_per_column(g: Grid, row1: int, row2: int, col: int)
    requires
        g.is_drop_target(row1, col),
        g.is_drop_target(row2, col),
    ensures
        row1 == row2,
{
}

/// A refused move changes nothing, and only a refused move is answered
/// with `InvalidMove`.
pub proof fn lemma_invalid_move_is_pure(g: Grid, cell: Cell, row: int, col: int)
    ensures
        g.play_result(cell, row, col) == Result::InvalidMove <==> !g.is_drop_target(row, col),
        g.play_result(cell, row, col) == Result::InvalidMove ==> g.after_play(cell, row, col) == g,
{
}

/// A disc stays where it is: no call of `play` changes a cell that is not
/// empty.
pub proof fn lemma_discs_stay(g: Grid, cell: Cell, row: int, col: int)
    requires
        g.wf(),
    ensures
        forall|r: int, c: int|
            g.in_bounds(r, c) && g.at(r, c) != Cell::Empty ==> #[trigger] g.after_play(
                cell,
                row,
                col,
            ).at(r, c) == g.at(r, c),
{
    if g.is_drop_target(row, col) {
        lemma_place(g, cell, row, col);
    }
}

/// On a settled grid the empty cells of a column lie on top: every cell
/// above an empty cell is empty.
pub proof fn lemma_empty_cells_lie_on_top(g: Grid, row: int, above: int, col: int)
    requires
        g.settled(),
        g.in_bounds(row, col),
        0 <= above < row,
        g.at(row, col) == Cell::Empty,
    ensures
        g.at(above, col) == Cell::Empty,
{
}

/// One call of `play`, whatever it is given, keeps a grid well formed and
/// settled.
pub proof fn lemma_play_keeps_settled(g: Grid, cell: Cell, row: int, col: int)
    requires
        g.wf(),
        g.settled(),
    ensures
        g.after_play(cell, row, col).wf(),
        g.after_play(cell, row, col).settled(),
{
    if g.is_drop_target(row, col) {
        lemma_place_keeps_settled(g, cell, row, col);
    }
}

/// In a game that starts on a settled grid, such as the empty one, the
/// grid is settled after every move: no disc ever has an empty cell under
/// it.
pub proof fn lemma_game_stays_settled(
    moves: Seq<Move>,
    grids: Seq<Grid>,
    results: Seq<Result>,
    n: int,
)
    requires
        records(moves, grids, results),
        grids[0].wf(),
        grids[0].settled(),
        0 <= n <= moves.len(),
    ensures
        grids[n].wf(),
        grids[n].settled(),
    decreases n,
{
    if n > 0 {
        lemma_game_stays_settled(moves, grids, results, n - 1);
        assert(grids[n - 1 + 1] == grids[n]);
        lemma_play_keeps_settled(
            grids[n - 1],
            moves[n - 1].cell,
            moves[n - 1].row,
            moves[n - 1].col,
        );
    }
}

/// The length of a line is the length of the stretch it lies in: where
/// the cells from `lo` to `hi` steps forward of `(row, col)` hold its
/// value and the cells next to both ends do not, be it for another value
/// or for the edge of the grid, the line's length is `hi - lo + 1`.
pub proof fn lemma_line_len_of_stretch(g: Grid, row: int, col: int, line: Line, lo: int, hi: int)
    requires
        g.in_bounds(row, col),
        lo <= 0 <= hi,
        forall|k: int| lo <= k <= hi ==> #[trigger] g.same_at(row, col, line, k),
        !g.same_at(row, col, line, lo - 1),
        !g.same_at(row, col, line, hi + 1),
    ensures
        g.line_len(row, col, line) == hi - lo + 1,
{
    let p = g.at(row, col);
    let dr = line.dr();
    let dc = line.dc();
    lemma_line_cells(g, row, col, line);
    let back = g.run(row - dr, col - dc, -dr, -dc, p) as int;
    let ahead = g.run(row, col, dr, dc, p) as int;
    if ahead > hi + 1 {
        assert(g.same_at(row, col, line, hi + 1));
    }
    if ahead < hi + 1 {
        assert(g.same_at(row, col, line, ahead));
    }
    if -back < lo {
        assert(g.same_at(row, col, line, lo - 1));
    }
    if -back > lo {
        assert(g.same_at(row, col, line, -back - 1));
    }
}

/// A line has length four or more exactly when four cells in a row on it,
/// the cell `(row, col)` among them, hold the value of `(row, col)`.
pub proof fn lemma_line_of_four(g: Grid, row: int, col: int, line: Line)
    requires
        g.in_bounds(row, col),
    ensures
        g.line_len(row, col, line) >= 4 <==> exists|lo: int|
            -3 <= lo <= 0 && #[trigger] g.four_in_line(row, col, line, lo),
{
    let p = g.at(row, col);
    let dr = line.dr();
    let dc = line.dc();
    let back = g.run(row - dr, col - dc, -dr, -dc, p) as int;
    let ahead = g.run(row, col, dr, dc, p) as int;
    lemma_line_cells(g, row, col, line);
    if g.line_len(row, col, line) >= 4 {
        let lo = if back >= 3 {
            -3
        } else {
            -back
        };
        assert(g.four_in_line(row, col, line, lo));
    }
    if exists|lo: int| -3 <= lo <= 0 && #[trigger] g.four_in_line(row, col, line, lo) {
        let lo = choose|lo: int| -3 <= lo <= 0 && #[trigger] g.four_in_line(row, col, line, lo);
        if ahead < lo + 4 {
            assert(g.same_at(row, col, line, ahead));
        }
        if back < -lo {
            assert(g.same_at(row, col, line, -back - 1));
        }
    }
}

/// A disc wins exactly when it lies among four cells in a row, on one of
/// the four lines through it, that all hold its value. Three in a row,
/// closed at both ends, do not win; four do.
pub proof fn lemma_wins_iff_four_in_line(g: Grid, row: int, col: int)
    requires
        g.in_bounds(row, col),
    ensures
        g.wins(row, col) <==> exists|line: Line, lo: int|
            -3 <= lo <= 0 && #[trigger] g.four_in_line(row, col, line, lo),
{
    lemma_line_of_four(g, row, col, Line::Horizontal);
    lemma_line_of_four(g, row, col, Line::Vertical);
    lemma_line_of_four(g, row, col, Line::Rising);
    lemma_line_of_four(g, row, col, Line::Falling);
    if exists|line: Line, lo: int| -3 <= lo <= 0 && #[trigger] g.four_in_line(row, col, line, lo) {
        let (line, lo) = choose|line: Line, lo: int|
            -3 <= lo <= 0 && #[trigger] g.four_in_line(row, col, line, lo);
        lemma_line_of_four(g, row, col, line);
    }
}

/// A move is answered with `Win` exactly when the disc it puts down lies
/// among four cells in a row holding its value.
pub proof fn lemma_win_is_four_in_line(g: Grid, cell: Cell, row: int, col: int)
    requires
        g.wf(),
        g.is_drop_target(row, col),
    ensures
        g.play_result(cell, row, col) == Result::Win <==> exists|line: Line, lo: int|
            -3 <= lo <= 0 && #[trigger] g.place(cell, row, col).four_in_line(row, col, line, lo),
{
    lemma_wins_iff_four_in_line(g.place(cell, row, col), row, col);
}

/// A disc put on the one empty cell that is left, without completing four
/// in a row, is a legal move and draws the game.
pub proof fn lemma_last_move_draws(g: Grid, cell: Cell, row: int, col: int)
    requires
        g.wf(),
        g.holds(row, col, Cell::Empty),
        forall|r: int, c: int|
            g.in_bounds(r, c) && (r != row || c != col) ==> #[trigger] g.at(r, c) != Cell::Empty,
        cell != Cell::Empty,
        !g.place(cell, row, col).wins(row, col),
    ensures
        g.is_drop_target(row, col),
        g.play_result(cell, row, col) == Result::Draw,
{
    let after = g.place(cell, row, col);
    lemma_place(g, cell, row, col);
    lemma_has_move_iff_empty_cell(after);
    assert forall|r: int, c: int| !after.holds(r, c, Cell::Empty) by {
        if after.in_bounds(r, c) && (r != row || c != col) {
            assert(after.at(r, c) == g.at(r, c));
        }
    }
}

/// A move is answered with `Draw` only when it leaves no empty cell and
/// completes no line of four.
pub proof fn lemma_draw_means_full(g: Grid, cell: Cell, row: int, col: int)
    requires
        g.wf(),
        g.play_result(cell, row, col) == Result::Draw,
    ensures
        forall|r: int, c: int|
            g.in_bounds(r, c) ==> #[trigger] g.after_play(cell, row, col).at(r, c) != Cell::Empty,
        !g.after_play(cell, row, col).wins(row, col),
{
    let after = g.place(cell, row, col);
    lemma_place(g, cell, row, col);
    lemma_has_move_iff_empty_cell(after);
    assert forall|r: int, c: int| g.in_bounds(r, c) implies #[trigger] after.at(r, c)
        != Cell::Empty by {
        if after.at(r, c) == Cell::Empty {
            assert(after.holds(r, c, Cell::Empty));
        }
    }
}

} // verus!
