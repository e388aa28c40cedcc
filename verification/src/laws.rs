//! What holds of every grid: reading wraps, writing is idempotent, and the
//! list of changes that a step returns is complete and exact.

use vstd::prelude::*;
use crate::arith::{
    lemma_offset_in_bounds, lemma_offset_join, lemma_offset_split, lemma_wrap_period,
    lemma_wrap_shift,
};
use crate::game::Cell;
use crate::model::Grid;

verus! {

/// Row-major position of a change on a grid that is `width` cells wide.
pub open spec fn position(width: int, e: (u32, u32, Cell)) -> int {
    e.1 * width + e.0
}

/// Whether a list of changes has an entry for the cell `(x, y)`.
pub open spec fn lists(d: Seq<(u32, u32, Cell)>, x: int, y: int) -> bool {
    exists|k: int| 0 <= k < d.len() && (#[trigger] d[k]).0 == x && d[k].1 == y
}

/// Whether `e` records a real change of `g` at a cell that lies before the
/// linear offset `n`.
pub open spec fn records_flip(g: Grid, e: (u32, u32, Cell), n: int) -> bool {
    &&& 0 <= e.0 < g.width
    &&& 0 <= e.1 < g.height
    &&& position(g.width, e) < n
    &&& g.flips(e.0 as int, e.1 as int)
    &&& e.2 == g.next_cell(e.0 as int, e.1 as int)
}

/// Reading a cell wraps: every coordinate hits a cell of the buffer.
pub proof fn lemma_cell_in_bounds(g: Grid, x: int, y: int)
    requires
        g.wf(),
    ensures
        0 <= g.index(x, y) < g.cells.len(),
{
    lemma_offset_in_bounds(g.width, g.height, x, y);
}

/// Coordinates are periodic: moving by any whole number of widths along a
/// row, or of heights along a column, reads the same cell.
pub proof fn lemma_cell_periodic(g: Grid, x: int, y: int, k: int, l: int)
    requires
        g.wf(),
    ensures
        g.cell(x + k * g.width, y) == g.cell(x, y),
        g.cell(x, y + l * g.height) == g.cell(x, y),
        g.cell(x + k * g.width, y + l * g.height) == g.cell(x, y),
{
    lemma_wrap_period(x, k, g.width as int);
    lemma_wrap_period(y, l, g.height as int);
}

/// A write is idempotent: after `set(x, y, s)` the cell holds `s`, so the
/// same write again finds nothing to change and leaves the grid as it is.
pub proof fn lemma_set_twice(g: Grid, x: int, y: int, s: Cell)
    requires
        g.wf(),
    ensures
        g.set(x, y, s).wf(),
        g.set(x, y, s).cell(x, y) == s,
        g.set(x, y, s).set(x, y, s) == g.set(x, y, s),
{
    lemma_cell_in_bounds(g, x, y);
    assert(g.set(x, y, s).set(x, y, s).cells =~= g.set(x, y, s).cells);
}

/// A write touches one cell: every coordinate that wraps to another cell
/// reads what it read before.
pub proof fn lemma_set_elsewhere(g: Grid, x: int, y: int, s: Cell, a: int, b: int)
    requires
        g.wf(),
        g.index(a, b) != g.index(x, y),
    ensures
        g.set(x, y, s).cell(a, b) == g.cell(a, b),
{
    lemma_cell_in_bounds(g, x, y);
    lemma_cell_in_bounds(g, a, b);
}

/// The next state of a cell depends on its wrapped coordinate alone.
pub proof fn lemma_next_cell_wraps(g: Grid, x: int, y: int)
    requires
        g.wf(),
    ensures
        g.next_cell(x % g.width, y % g.height) == g.next_cell(x, y),
        g.neighbours(x % g.width, y % g.height) == g.neighbours(x, y),
{
    let w = g.width;
    let h = g.height;
    lemma_wrap_shift(x, -1, w);
    lemma_wrap_shift(x, 0, w);
    lemma_wrap_shift(x, 1, w);
    lemma_wrap_shift(y, -1, h);
    lemma_wrap_shift(y, 0, h);
    lemma_wrap_shift(y, 1, h);
}

/// After a step every coordinate reads the next state of the cell it wraps to.
pub proof fn lemma_next_reads_next_cell(g: Grid, x: int, y: int)
    requires
        g.wf(),
    ensures
        g.next().wf(),
        g.next().cell(x, y) == g.next_cell(x, y),
{
    let w = g.width;
    let h = g.height;
    lemma_offset_in_bounds(w, h, x, y);
    lemma_offset_join(w, h, x % w, y % h);
    lemma_next_cell_wraps(g, x, y);
}

/// What the first `n` cells contribute to the list of changes: every entry
/// records a real change before `n`, the entries stand in row-major order,
/// and every cell before `n` that flips has its entry.
pub proof fn lemma_changes(g: Grid, n: int)
    requires
        g.wf(),
        0 <= n <= g.cells.len(),
    ensures
        forall|k: int| 0 <= k < g.changes(n).len() ==> records_flip(g, #[trigger] g.changes(n)[k], n),
        forall|j: int, k: int|
            0 <= j < k < g.changes(n).len() ==> position(g.width, #[trigger] g.changes(n)[j])
                < position(g.width, #[trigger] g.changes(n)[k]),
        forall|x: int, y: int|
            0 <= x < g.width && 0 <= y < g.height && y * g.width + x < n && #[trigger] g.flips(x, y)
                ==> lists(g.changes(n), x, y),
    decreases n,
{
    if n > 0 {
        let w = g.width;
        let i = n - 1;
        let x0 = i % w;
        let y0 = i / w;
        let before = g.changes(i);
        let now = g.changes(n);
        lemma_changes(g, i);
        lemma_offset_split(w, g.height, i);
        assert forall|x: int, y: int|
            0 <= x < w && 0 <= y < g.height && y * w + x < n && #[trigger] g.flips(x, y)
            implies lists(now, x, y) by {
            lemma_offset_join(w, g.height, x, y);
            if y * w + x < i {
                let k = choose|k: int| 0 <= k < before.len() && (#[trigger] before[k]).0 == x && before[k].1 == y;
                assert(now[k] == before[k]);
            } else {
                assert(x == x0 && y == y0);
                assert(now[before.len() as int].0 == x);
            }
        }
        assert forall|k: int| 0 <= k < now.len() implies records_flip(g, #[trigger] now[k], n) by {
            if k < before.len() {
                assert(records_flip(g, before[k], i));
            }
        }
        assert forall|j: int, k: int| 0 <= j < k < now.len() implies position(w, #[trigger] now[j])
            < position(w, #[trigger] now[k]) by {
            assert(records_flip(g, before[j], i));
            if k < before.len() {
                assert(records_flip(g, before[k], i));
            }
        }
    }
}

/// The list of changes is complete and exact. Each entry names a cell of the
/// grid that changed, with the state that the cell has after the step; the
/// entries stand in row-major order; and a cell without an entry reads after
/// the step what it read before.
pub proof fn lemma_diff_complete(g: Grid)
    requires
        g.wf(),
    ensures
        forall|k: int|
            0 <= k < g.diff().len() ==> {
                let e = #[trigger] g.diff()[k];
                &&& e.0 < g.width
                &&& e.1 < g.height
                &&& g.next().cell(e.0 as int, e.1 as int) == e.2
                &&& g.cell(e.0 as int, e.1 as int) != e.2
            },
        forall|j: int, k: int|
            0 <= j < k < g.diff().len() ==> position(g.width, #[trigger] g.diff()[j])
                < position(g.width, #[trigger] g.diff()[k]),
        forall|x: int, y: int|
            0 <= x < g.width && 0 <= y < g.height && !lists(g.diff(), x, y)
                ==> #[trigger] g.next().cell(x, y) == g.cell(x, y),
        forall|x: int, y: int|
            0 <= x < g.width && 0 <= y < g.height ==> (lists(g.diff(), x, y) <==> #[trigger] g.flips(
                x,
                y,
            )),
{
    let d = g.diff();
    lemma_changes(g, g.cells.len() as int);
    assert forall|k: int| 0 <= k < d.len() implies {
        let e = #[trigger] d[k];
        &&& e.0 < g.width
        &&& e.1 < g.height
        &&& g.next().cell(e.0 as int, e.1 as int) == e.2
        &&& g.cell(e.0 as int, e.1 as int) != e.2
    } by {
        let e = d[k];
        assert(records_flip(g, e, g.cells.len() as int));
        lemma_next_reads_next_cell(g, e.0 as int, e.1 as int);
    }
    assert forall|x: int, y: int|
        0 <= x < g.width && 0 <= y < g.height && !lists(d, x, y)
        implies #[trigger] g.next().cell(x, y) == g.cell(x, y) by {
        lemma_next_reads_next_cell(g, x, y);
        lemma_offset_join(g.width, g.height, x, y);
        if g.flips(x, y) {
            assert(lists(d, x, y));
        }
    }
    assert forall|x: int, y: int| 0 <= x < g.width && 0 <= y < g.height implies (lists(d, x, y)
        <==> #[trigger] g.flips(x, y)) by {
        lemma_offset_join(g.width, g.height, x, y);
        if lists(d, x, y) {
            let k = choose|k: int| 0 <= k < d.len() && (#[trigger] d[k]).0 == x && d[k].1 == y;
            assert(records_flip(g, d[k], g.cells.len() as int));
        }
    }
}

/// Where no cell among the first `n` flips, those cells contribute no change.
pub proof fn lemma_no_flip_no_change(g: Grid, n: int)
    requires
        g.wf(),
        0 <= n <= g.cells.len(),
        forall|x: int, y: int| 0 <= x < g.width && 0 <= y < g.height ==> !#[trigger] g.flips(x, y),
    ensures
        g.changes(n).len() == 0,
    decreases n,
{
    if n > 0 {
        lemma_no_flip_no_change(g, n - 1);
        lemma_offset_split(g.width, g.height, n - 1);
    }
}

/// A grid on which no cell flips is a fixed point of the step: the list of
/// changes is empty and the next generation is the grid itself.
pub proof fn lemma_still_life(g: Grid)
    requires
        g.wf(),
        forall|x: int, y: int| 0 <= x < g.width && 0 <= y < g.height ==> !#[trigger] g.flips(x, y),
    ensures
        g.diff().len() == 0,
        g.next() == g,
{
    lemma_no_flip_no_change(g, g.cells.len() as int);
    assert forall|i: int| 0 <= i < g.cells.len() implies g.next().cells[i] == g.cells[i] by {
        lemma_offset_split(g.width, g.height, i);
        assert(!g.flips(i % g.width, i / g.width));
    }
    assert(g.next().cells =~= g.cells);
}

/// A grid with every cell dead stays as it is: the step changes nothing.
pub proof fn lemma_all_dead_is_still(g: Grid)
    requires
        g.wf(),
        forall|i: int| 0 <= i < g.cells.len() ==> g.cells[i] == Cell::Dead,
    ensures
        g.diff().len() == 0,
        g.next() == g,
{
    assert forall|x: int, y: int| g.cell(x, y) == Cell::Dead by {
        lemma_cell_in_bounds(g, x, y);
    }
    assert forall|x: int, y: int| 0 <= x < g.width && 0 <= y < g.height implies !#[trigger] g.flips(
        x,
        y,
    ) by {
        assert(g.neighbours(x, y) == 0);
    }
    lemma_still_life(g);
}

/// A step that lists no change leaves the grid as it was.
pub proof fn lemma_empty_diff_is_fixed(g: Grid)
    requires
        g.wf(),
        g.diff().len() == 0,
    ensures
        g.next() == g,
{
    lemma_diff_complete(g);
    assert forall|i: int| 0 <= i < g.cells.len() implies g.next().cells[i] == g.cells[i] by {
        lemma_offset_split(g.width, g.height, i);
        let x = i % g.width;
        let y = i / g.width;
        assert(!lists(g.diff(), x, y));
        assert(g.next().cell(x, y) == g.cell(x, y));
        assert(g.cell(x, y) == g.cells[i]);
        assert(g.next().cell(x, y) == g.next().cells[i]);
    }
    assert(g.next().cells =~= g.cells);
}

} // verus!
