//! Gravity: a disc that lands on a drop target leaves nothing floating.

use vstd::prelude::*;
use crate::cell::Cell;
use crate::grid::Grid;
use crate::indexing::{lemma_index_in_range, lemma_place};

verus! {

/// On a grid with nothing on it, nothing floats.
pub proof fn lemma_empty_settled(width: int, height: int)
    requires
        0 < width,
        0 < height,
    ensures
        Grid::empty(width, height).wf(),
        Grid::empty(width, height).settled(),
        forall|row: int, col: int|
            Grid::empty(width, height).in_bounds(row, col) ==> #[trigger] Grid::empty(
                width,
                height,
            ).at(row, col) == Cell::Empty,
{
    let g = Grid::empty(width, height);
    assert(0 < width * height) by (nonlinear_arith)
        requires
            0 < width,
            0 < height,
    ;
    assert forall|row: int, col: int| g.in_bounds(row, col) implies #[trigger] g.at(row, col)
        == Cell::Empty by {
        lemma_index_in_range(g, row, col);
    }
}

/// Writing any value onto a drop target of a settled grid leaves the grid
/// settled.
pub proof fn lemma_place_keeps_settled(g: Grid, cell: Cell, row: int, col: int)
    requires
        g.wf(),
        g.settled(),
        g.is_drop_target(row, col),
    ensures
        g.place(cell, row, col).wf(),
        g.place(cell, row, col).settled(),
{
    let after = g.place(cell, row, col);
    lemma_place(g, cell, row, col);
    assert forall|r: int, below: int, c: int|
        #![trigger after.at(r, c), after.at(below, c)]
        0 <= r < below < after.height && 0 <= c < after.width && after.at(r, c)
            != Cell::Empty implies after.at(below, c) != Cell::Empty by {
        assert(g.in_bounds(r, c) && g.in_bounds(below, c));
        if c == col && below == row {
            // Cannot be: on a settled grid no disc lies above an empty cell.
            assert(after.at(r, c) == g.at(r, c));
            assert(g.at(below, c) == Cell::Empty);
        } else if c == col && r == row {
            assert(after.at(below, c) == g.at(below, c));
        } else {
            assert(after.at(below, c) == g.at(below, c));
            assert(after.at(r, c) == g.at(r, c));
        }
    }
}

} // verus!
