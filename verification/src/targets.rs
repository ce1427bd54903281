//! Facts about drop targets: where a disc lands in a column, and which
//! cells a move may aim at.

use vstd::prelude::*;
use crate::cell::Cell;
use crate::grid::Grid;
use crate::indexing::{lemma_index_in_range, lemma_index_injective};

verus! {

/// What `lowest_empty` finds: an empty cell with no empty cell between it
/// and `row`, or nothing where rows `0..=row` hold no empty cell.
pub proof fn lemma_lowest_empty(g: Grid, col: int, row: int)
    requires
        -1 <= row,
    ensures
        -1 <= g.lowest_empty(col, row) <= row,
        g.lowest_empty(col, row) >= 0 ==> g.at(g.lowest_empty(col, row), col) == Cell::Empty,
        forall|r: int|
            g.lowest_empty(col, row) < r <= row ==> #[trigger] g.at(r, col) != Cell::Empty,
    decreases row + 1,
{
    if row >= 0 && g.at(row, col) != Cell::Empty {
        lemma_lowest_empty(g, col, row - 1);
    }
}

/// The landing row of a column is its one drop target, and a column
/// without a landing row holds no empty cell.
pub proof fn lemma_landing_row(g: Grid, col: int)
    requires
        g.wf(),
        0 <= col < g.width,
    ensures
        -1 <= g.landing_row(col) < g.height,
        g.landing_row(col) >= 0 ==> g.is_drop_target(g.landing_row(col), col),
        forall|row: int| #[trigger] g.is_drop_target(row, col) ==> row == g.landing_row(col),
        g.landing_row(col) < 0 ==> forall|row: int|
            0 <= row < g.height ==> #[trigger] g.at(row, col) != Cell::Empty,
{
    lemma_lowest_empty(g, col, g.height - 1);
}

/// The targets of columns `0..n`: one for each column that has a landing
/// row, and each the index of a drop target.
pub proof fn lemma_targets_before(g: Grid, n: int)
    requires
        g.wf(),
        0 <= n <= g.width,
    ensures
        g.targets_before(n).len() <= n,
        forall|i: int|
            0 <= i < g.targets_before(n).len() ==> 0 <= #[trigger] g.targets_before(n)[i]
                < g.cells.len(),
        forall|row: int, col: int|
            g.in_bounds(row, col) ==> (g.targets_before(n).contains(#[trigger] g.index(row, col))
                <==> col < n && g.is_drop_target(row, col)),
        g.targets_before(n).len() == 0 <==> forall|col: int|
            0 <= col < n ==> #[trigger] g.landing_row(col) < 0,
    decreases n,
{
    if n > 0 {
        let rest = g.targets_before(n - 1);
        let all = g.targets_before(n);
        let land = g.landing_row(n - 1);
        lemma_targets_before(g, n - 1);
        lemma_landing_row(g, n - 1);
        if land >= 0 {
            lemma_index_in_range(g, land, n - 1);
            assert(all[all.len() - 1] == g.index(land, n - 1));
        }
        assert forall|row: int, col: int| g.in_bounds(row, col) implies (all.contains(
            #[trigger] g.index(row, col),
        ) <==> col < n && g.is_drop_target(row, col)) by {
            let idx = g.index(row, col);
            if all.contains(idx) {
                let i = choose|i: int| 0 <= i < all.len() && all[i] == idx;
                if i < rest.len() {
                    assert(rest[i] == idx);
                    assert(rest.contains(idx));
                } else {
                    lemma_index_injective(g, row, col, land, n - 1);
                }
            }
            if col < n && g.is_drop_target(row, col) {
                if col == n - 1 {
                    assert(all[all.len() - 1] == idx);
                } else {
                    assert(rest.contains(idx));
                    let i = choose|i: int| 0 <= i < rest.len() && rest[i] == idx;
                    assert(all[i] == idx);
                }
            }
        }
    }
}

/// The drop targets are the indices of the cells a move may aim at, and
/// there are none exactly when no column takes a disc.
pub proof fn lemma_drop_targets(g: Grid)
    requires
        g.wf(),
    ensures
        g.drop_targets().len() <= g.width,
        forall|i: int|
            0 <= i < g.drop_targets().len() ==> 0 <= #[trigger] g.drop_targets()[i]
                < g.cells.len(),
        forall|row: int, col: int|
            g.in_bounds(row, col) ==> (g.drop_targets().contains(#[trigger] g.index(row, col))
                <==> g.is_drop_target(row, col)),
        g.drop_targets().len() == 0 <==> !g.has_move(),
{
    lemma_targets_before(g, g.width);
    if g.has_move() {
        let (row, col) = choose|row: int, col: int| g.is_drop_target(row, col);
        lemma_landing_row(g, col);
    }
    if g.drop_targets().len() != 0 {
        let col = choose|col: int| 0 <= col < g.width && g.landing_row(col) >= 0;
        lemma_landing_row(g, col);
    }
}

/// A grid has a move left exactly when one of its cells is empty.
pub proof fn lemma_has_move_iff_empty_cell(g: Grid)
    requires
        g.wf(),
    ensures
        g.has_move() <==> exists|row: int, col: int| g.holds(row, col, Cell::Empty),
{
    if exists|row: int, col: int| g.holds(row, col, Cell::Empty) {
        let (row, col) = choose|row: int, col: int| g.holds(row, col, Cell::Empty);
        lemma_landing_row(g, col);
        if g.landing_row(col) < 0 {
            assert(g.at(row, col) != Cell::Empty);
        }
    }
    if g.has_move() {
        let (row, col) = choose|row: int, col: int| g.is_drop_target(row, col);
        assert(g.holds(row, col, Cell::Empty));
    }
}

} // verus!
