//! Facts about runs: how the count of a walk relates to the cells it
//! passes.

use vstd::prelude::*;
use crate::cell::Cell;
use crate::grid::{is_step, shift, Grid, Line};

verus! {

/// A run covers cells that hold `p` and ends before one that does not.
pub proof fn lemma_run_cells(g: Grid, row: int, col: int, dr: int, dc: int, p: Cell)
    requires
        is_step(dr, dc),
    ensures
        forall|k: int|
            0 <= k < g.run(row, col, dr, dc, p) ==> g.holds(
                #[trigger] shift(row, dr, k),
                shift(col, dc, k),
                p,
            ),
        !g.holds(
            shift(row, dr, g.run(row, col, dr, dc, p) as int),
            shift(col, dc, g.run(row, col, dr, dc, p) as int),
            p,
        ),
    decreases g.run(row, col, dr, dc, p),
{
    if g.holds(row, col, p) {
        lemma_run_cells(g, row + dr, col + dc, dr, dc, p);
        let n = g.run(row, col, dr, dc, p) as int;
        assert forall|k: int| 0 <= k < n implies g.holds(
            #[trigger] shift(row, dr, k),
            shift(col, dc, k),
            p,
        ) by {
            if k > 0 {
                assert(shift(row, dr, k) == shift(row + dr, dr, k - 1));
                assert(shift(col, dc, k) == shift(col + dc, dc, k - 1));
            }
        }
        assert(shift(row, dr, n) == shift(row + dr, dr, n - 1));
        assert(shift(col, dc, n) == shift(col + dc, dc, n - 1));
    }
}

/// The two runs that make up a line's length, read as cells of the line:
/// the cells from `-back` to `ahead - 1` steps forward of `(row, col)`
/// hold its value, and the cells beyond both ends do not.
pub proof fn lemma_line_cells(g: Grid, row: int, col: int, line: Line)
    requires
        g.in_bounds(row, col),
    ensures
        ({
            let p = g.at(row, col);
            let back = g.run(row - line.dr(), col - line.dc(), -line.dr(), -line.dc(), p) as int;
            let ahead = g.run(row, col, line.dr(), line.dc(), p) as int;
            &&& ahead >= 1
            &&& forall|k: int| -back <= k < ahead ==> #[trigger] g.same_at(row, col, line, k)
            &&& !g.same_at(row, col, line, -back - 1)
            &&& !g.same_at(row, col, line, ahead)
        }),
{
    let p = g.at(row, col);
    let dr = line.dr();
    let dc = line.dc();
    let back = g.run(row - dr, col - dc, -dr, -dc, p) as int;
    let ahead = g.run(row, col, dr, dc, p) as int;
    lemma_run_cells(g, row - dr, col - dc, -dr, -dc, p);
    lemma_run_cells(g, row, col, dr, dc, p);
    assert forall|k: int| -back <= k < ahead implies #[trigger] g.same_at(row, col, line, k) by {
        if k >= 0 {
            assert(g.holds(shift(row, dr, k), shift(col, dc, k), p));
        } else {
            assert(g.holds(shift(row - dr, -dr, -k - 1), shift(col - dc, -dc, -k - 1), p));
            assert(shift(row - dr, -dr, -k - 1) == shift(row, dr, k));
            assert(shift(col - dc, -dc, -k - 1) == shift(col, dc, k));
        }
    }
    assert(shift(row - dr, -dr, back) == shift(row, dr, -back - 1));
    assert(shift(col - dc, -dc, back) == shift(col, dc, -back - 1));
}

} // verus!
