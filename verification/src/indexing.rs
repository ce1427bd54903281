//! Facts about row-major indexing and about writing one cell.

use vstd::prelude::*;
use crate::cell::Cell;
use crate::grid::Grid;

verus! {

/// A position of the grid has an index inside `cells`.
pub proof fn lemma_index_in_range(g: Grid, row: int, col: int)
    requires
        g.wf(),
        g.in_bounds(row, col),
    ensures
        0 <= g.index(row, col) < g.cells.len(),
{
    let w = g.width;
    let h = g.height;
    assert(0 <= row * w && row * w + w <= h * w) by (nonlinear_arith)
        requires
            0 <= row < h,
            0 < w,
    ;
}

/// Two positions of the grid with one index are one position.
pub proof fn lemma_index_injective(g: Grid, r1: int, c1: int, r2: int, c2: int)
    requires
        g.wf(),
        g.in_bounds(r1, c1),
        g.in_bounds(r2, c2),
        g.index(r1, c1) == g.index(r2, c2),
    ensures
        r1 == r2,
        c1 == c2,
{
    let w = g.width;
    assert(r1 == r2) by (nonlinear_arith)
        requires
            0 <= c1 < w,
            0 <= c2 < w,
            r1 * w + c1 == r2 * w + c2,
    ;
}

/// Writing one cell changes that cell and no other.
pub proof fn lemma_place(g: Grid, cell: Cell, row: int, col: int)
    requires
        g.wf(),
        g.in_bounds(row, col),
    ensures
        g.place(cell, row, col).wf(),
        g.place(cell, row, col).at(row, col) == cell,
        forall|r: int, c: int|
            g.in_bounds(r, c) && (r != row || c != col) ==> #[trigger] g.place(cell, row, col).at(
                r,
                c,
            ) == g.at(r, c),
{
    let after = g.place(cell, row, col);
    lemma_index_in_range(g, row, col);
    assert forall|r: int, c: int| g.in_bounds(r, c) && (r != row || c != col) implies #[trigger]
        after.at(r, c) == g.at(r, c) by {
        lemma_index_in_range(g, r, c);
        if g.index(r, c) == g.index(row, col) {
            lemma_index_injective(g, r, c, row, col);
        }
    }
}

} // verus!
