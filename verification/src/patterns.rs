//! Well-known patterns on the torus: the block, which is a still life, the
//! blinker, which has period two, and the grid of a single cell.

use vstd::prelude::*;
use vstd::arithmetic::div_mod::{lemma_mod_bound, lemma_mod_twice, lemma_small_mod};
use crate::arith::{
    lemma_offset_in_bounds, lemma_offset_split, lemma_wrap_pred, lemma_wrap_shift,
    lemma_wrap_succ,
};
use crate::game::Cell;
use crate::laws::{
    lemma_cell_in_bounds, lemma_diff_complete, lemma_next_reads_next_cell, lemma_still_life, lists,
    position,
};
use crate::model::Grid;

verus! {

/// How the coordinates beside `x` lie relative to `c` on a period of `m`.
proof fn lemma_beside(x: int, c: int, m: int)
    requires
        m > 0,
    ensures
        0 <= (x - c) % m < m,
        (x - 1 - c) % m == if (x - c) % m == 0 { m - 1 } else { (x - c) % m - 1 },
        (x + 1 - c) % m == if (x - c) % m == m - 1 { 0 } else { (x - c) % m + 1 },
{
    lemma_mod_bound(x - c, m);
    lemma_wrap_pred(x - c, m);
    lemma_wrap_succ(x - c, m);
    assert((x - 1 - c) % m == (x - c - 1) % m);
    assert((x + 1 - c) % m == (x - c + 1) % m);
}

/// Whether `d` wrapped to a period of `m` is 0 or 1: the two coordinates
/// that a block covers, counted from its corner.
pub open spec fn in_span(d: int, m: int) -> bool {
    d % m == 0 || d % m == 1
}

/// Whether the live cells of `g` are exactly a 2x2 block whose corner lies at
/// wrapped `(bx, by)`.
pub open spec fn is_block(g: Grid, bx: int, by: int) -> bool {
    forall|x: int, y: int|
        0 <= x < g.width && 0 <= y < g.height ==> (#[trigger] g.cell(x, y) == Cell::Alive <==> in_span(
            x - bx,
            g.width,
        ) && in_span(y - by, g.height))
}

/// On a grid that holds a block, any coordinate reads a live cell exactly
/// where it wraps into the block.
pub proof fn lemma_block_cell(g: Grid, bx: int, by: int, x: int, y: int)
    requires
        g.wf(),
        is_block(g, bx, by),
    ensures
        g.cell(x, y) == Cell::Alive <==> in_span(x - bx, g.width) && in_span(y - by, g.height),
{
    let w = g.width;
    let h = g.height;
    lemma_offset_in_bounds(w, h, x, y);
    lemma_mod_twice(x, w);
    lemma_mod_twice(y, h);
    assert(g.cell(x % w, y % h) == g.cell(x, y));
    lemma_wrap_shift(x, -bx, w);
    lemma_wrap_shift(y, -by, h);
}

/// A 2x2 block on a grid of at least 4x4 is a still life: the step changes
/// nothing, wherever the block lies, also across the seam.
pub proof fn lemma_block_is_still(g: Grid, bx: int, by: int)
    requires
        g.wf(),
        g.width >= 4,
        g.height >= 4,
        is_block(g, bx, by),
    ensures
        g.diff().len() == 0,
        g.next() == g,
{
    let w = g.width;
    let h = g.height;
    assert forall|x: int, y: int| 0 <= x < w && 0 <= y < h implies !#[trigger] g.flips(x, y) by {
        lemma_block_cell(g, bx, by, x - 1, y - 1);
        lemma_block_cell(g, bx, by, x, y - 1);
        lemma_block_cell(g, bx, by, x + 1, y - 1);
        lemma_block_cell(g, bx, by, x - 1, y);
        lemma_block_cell(g, bx, by, x, y);
        lemma_block_cell(g, bx, by, x + 1, y);
        lemma_block_cell(g, bx, by, x - 1, y + 1);
        lemma_block_cell(g, bx, by, x, y + 1);
        lemma_block_cell(g, bx, by, x + 1, y + 1);
        lemma_beside(x, bx, w);
        lemma_beside(y, by, h);
    }
    lemma_still_life(g);
}

/// Whether `d` wrapped to a period of `m` is 0, 1 or `m - 1`: the centre of
/// a blinker and the coordinate on either side of it.
pub open spec fn near(d: int, m: int) -> bool {
    d % m == 0 || d % m == 1 || d % m == m - 1
}

/// Whether the live cells of `g` are exactly three in a row, centred at
/// wrapped `(cx, cy)`.
pub open spec fn is_row_blinker(g: Grid, cx: int, cy: int) -> bool {
    forall|x: int, y: int|
        0 <= x < g.width && 0 <= y < g.height ==> (#[trigger] g.cell(x, y) == Cell::Alive <==> near(
            x - cx,
            g.width,
        ) && (y - cy) % g.height == 0)
}

/// Whether the live cells of `g` are exactly three in a column, centred at
/// wrapped `(cx, cy)`.
pub open spec fn is_column_blinker(g: Grid, cx: int, cy: int) -> bool {
    forall|x: int, y: int|
        0 <= x < g.width && 0 <= y < g.height ==> (#[trigger] g.cell(x, y) == Cell::Alive <==> (x
            - cx) % g.width == 0 && near(y - cy, g.height))
}

/// Whether wrapped `(x, y)` is one of the four cells beside the centre
/// `(cx, cy)`: the ends of the row and of the column through it.
pub open spec fn is_blinker_tip(g: Grid, cx: int, cy: int, x: int, y: int) -> bool {
    let dx = (x - cx) % g.width;
    let dy = (y - cy) % g.height;
    ||| (dy == 0 && (dx == 1 || dx == g.width - 1))
    ||| (dx == 0 && (dy == 1 || dy == g.height - 1))
}

/// On a grid that holds a row blinker, any coordinate reads a live cell
/// exactly where it wraps into the row.
pub proof fn lemma_row_blinker_cell(g: Grid, cx: int, cy: int, x: int, y: int)
    requires
        g.wf(),
        is_row_blinker(g, cx, cy),
    ensures
        g.cell(x, y) == Cell::Alive <==> near(x - cx, g.width) && (y - cy) % g.height == 0,
{
    let w = g.width;
    let h = g.height;
    lemma_offset_in_bounds(w, h, x, y);
    lemma_mod_twice(x, w);
    lemma_mod_twice(y, h);
    assert(g.cell(x % w, y % h) == g.cell(x, y));
    lemma_wrap_shift(x, -cx, w);
    lemma_wrap_shift(y, -cy, h);
}

/// On a grid that holds a column blinker, any coordinate reads a live cell
/// exactly where it wraps into the column.
pub proof fn lemma_column_blinker_cell(g: Grid, cx: int, cy: int, x: int, y: int)
    requires
        g.wf(),
        is_column_blinker(g, cx, cy),
    ensures
        g.cell(x, y) == Cell::Alive <==> (x - cx) % g.width == 0 && near(y - cy, g.height),
{
    let w = g.width;
    let h = g.height;
    lemma_offset_in_bounds(w, h, x, y);
    lemma_mod_twice(x, w);
    lemma_mod_twice(y, h);
    assert(g.cell(x % w, y % h) == g.cell(x, y));
    lemma_wrap_shift(x, -cx, w);
    lemma_wrap_shift(y, -cy, h);
}

/// One step turns a row blinker on a grid of at least 5x5 into the column
/// blinker with the same centre. The list of changes has four entries, for
/// exactly the four cells beside the centre.
pub proof fn lemma_row_blinker_turns(g: Grid, cx: int, cy: int)
    requires
        g.wf(),
        g.width >= 5,
        g.height >= 5,
        is_row_blinker(g, cx, cy),
    ensures
        g.next().wf(),
        is_column_blinker(g.next(), cx, cy),
        forall|x: int, y: int|
            0 <= x < g.width && 0 <= y < g.height ==> (#[trigger] lists(g.diff(), x, y)
                <==> is_blinker_tip(g, cx, cy, x, y)),
        g.diff().len() == 4,
{
    let w = g.width;
    let h = g.height;
    assert forall|x: int, y: int| 0 <= x < w && 0 <= y < h implies (g.next_cell(x, y) == Cell::Alive
        <==> (x - cx) % w == 0 && near(y - cy, h)) && (#[trigger] g.flips(x, y) <==> is_blinker_tip(
        g,
        cx,
        cy,
        x,
        y,
    )) by {
        lemma_row_blinker_cell(g, cx, cy, x - 1, y - 1);
        lemma_row_blinker_cell(g, cx, cy, x, y - 1);
        lemma_row_blinker_cell(g, cx, cy, x + 1, y - 1);
        lemma_row_blinker_cell(g, cx, cy, x - 1, y);
        lemma_row_blinker_cell(g, cx, cy, x, y);
        lemma_row_blinker_cell(g, cx, cy, x + 1, y);
        lemma_row_blinker_cell(g, cx, cy, x - 1, y + 1);
        lemma_row_blinker_cell(g, cx, cy, x, y + 1);
        lemma_row_blinker_cell(g, cx, cy, x + 1, y + 1);
        lemma_beside(x, cx, w);
        lemma_beside(y, cy, h);
    }
    lemma_blinker_turned(g, cx, cy);
    lemma_four_tips(g, cx, cy);
    assert forall|x: int, y: int| 0 <= x < w && 0 <= y < h implies (#[trigger] g.next().cell(x, y)
        == Cell::Alive <==> (x - cx) % w == 0 && near(y - cy, h)) by {
        assert(g.flips(x, y) <==> is_blinker_tip(g, cx, cy, x, y));
    }
}

/// One step turns a column blinker on a grid of at least 5x5 into the row
/// blinker with the same centre. The list of changes has four entries, for
/// exactly the four cells beside the centre.
pub proof fn lemma_column_blinker_turns(g: Grid, cx: int, cy: int)
    requires
        g.wf(),
        g.width >= 5,
        g.height >= 5,
        is_column_blinker(g, cx, cy),
    ensures
        g.next().wf(),
        is_row_blinker(g.next(), cx, cy),
        forall|x: int, y: int|
            0 <= x < g.width && 0 <= y < g.height ==> (#[trigger] lists(g.diff(), x, y)
                <==> is_blinker_tip(g, cx, cy, x, y)),
        g.diff().len() == 4,
{
    let w = g.width;
    let h = g.height;
    assert forall|x: int, y: int| 0 <= x < w && 0 <= y < h implies (g.next_cell(x, y) == Cell::Alive
        <==> near(x - cx, w) && (y - cy) % h == 0) && (#[trigger] g.flips(x, y) <==> is_blinker_tip(
        g,
        cx,
        cy,
        x,
        y,
    )) by {
        lemma_column_blinker_cell(g, cx, cy, x - 1, y - 1);
        lemma_column_blinker_cell(g, cx, cy, x, y - 1);
        lemma_column_blinker_cell(g, cx, cy, x + 1, y - 1);
        lemma_column_blinker_cell(g, cx, cy, x - 1, y);
        lemma_column_blinker_cell(g, cx, cy, x, y);
        lemma_column_blinker_cell(g, cx, cy, x + 1, y);
        lemma_column_blinker_cell(g, cx, cy, x - 1, y + 1);
        lemma_column_blinker_cell(g, cx, cy, x, y + 1);
        lemma_column_blinker_cell(g, cx, cy, x + 1, y + 1);
        lemma_beside(x, cx, w);
        lemma_beside(y, cy, h);
    }
    lemma_blinker_turned(g, cx, cy);
    lemma_four_tips(g, cx, cy);
    assert forall|x: int, y: int| 0 <= x < w && 0 <= y < h implies (#[trigger] g.next().cell(x, y)
        == Cell::Alive <==> near(x - cx, w) && (y - cy) % h == 0) by {
        assert(g.flips(x, y) <==> is_blinker_tip(g, cx, cy, x, y));
    }
}

/// Where exactly the four cells beside `(cx, cy)` flip, the step's list of
/// changes names exactly those cells, and the next generation reads each
/// cell's next state.
proof fn lemma_blinker_turned(g: Grid, cx: int, cy: int)
    requires
        g.wf(),
        forall|x: int, y: int|
            0 <= x < g.width && 0 <= y < g.height ==> (#[trigger] g.flips(x, y) <==> is_blinker_tip(
                g,
                cx,
                cy,
                x,
                y,
            )),
    ensures
        g.next().wf(),
        forall|x: int, y: int|
            0 <= x < g.width && 0 <= y < g.height ==> #[trigger] g.next().cell(x, y) == g.next_cell(
                x,
                y,
            ),
        forall|x: int, y: int|
            0 <= x < g.width && 0 <= y < g.height ==> (#[trigger] lists(g.diff(), x, y)
                <==> is_blinker_tip(g, cx, cy, x, y)),
{
    lemma_diff_complete(g);
    assert forall|x: int, y: int| 0 <= x < g.width && 0 <= y < g.height implies #[trigger] g.next().cell(
        x,
        y,
    ) == g.next_cell(x, y) by {
        lemma_next_reads_next_cell(g, x, y);
    }
    assert forall|x: int, y: int| 0 <= x < g.width && 0 <= y < g.height implies (#[trigger] lists(
        g.diff(),
        x,
        y,
    ) <==> is_blinker_tip(g, cx, cy, x, y)) by {
        assert(lists(g.diff(), x, y) <==> g.flips(x, y));
    }
    assert(g.next().wf());
}

/// A coordinate of the grid is found again from its wrapped distance to `c`.
proof fn lemma_from_distance(x: int, c: int, m: int)
    requires
        0 <= x < m,
    ensures
        x == (c + (x - c) % m) % m,
{
    lemma_wrap_shift(x - c, c, m);
    lemma_small_mod(x as nat, m as nat);
    assert((x - c) + c == x);
    assert((x - c) % m + c == c + (x - c) % m);
}

/// The coordinate at distance `t` from `c` lies on the grid, at that distance.
proof fn lemma_at_distance(c: int, t: int, m: int)
    requires
        0 <= t < m,
    ensures
        0 <= (c + t) % m < m,
        ((c + t) % m - c) % m == t,
{
    lemma_mod_bound(c + t, m);
    lemma_wrap_shift(c + t, -c, m);
    lemma_small_mod(t as nat, m as nat);
    assert((c + t) + (-c) == t);
    assert((c + t) % m + (-c) == (c + t) % m - c);
}

/// A list of changes that names exactly the four cells beside the centre of
/// a blinker has four entries.
proof fn lemma_four_tips(g: Grid, cx: int, cy: int)
    requires
        g.wf(),
        g.width >= 5,
        g.height >= 5,
        forall|x: int, y: int|
            0 <= x < g.width && 0 <= y < g.height ==> (#[trigger] lists(g.diff(), x, y)
                <==> is_blinker_tip(g, cx, cy, x, y)),
    ensures
        g.diff().len() == 4,
{
    let w = g.width;
    let h = g.height;
    let d = g.diff();
    lemma_diff_complete(g);
    let c = Seq::new(d.len(), |k: int| (d[k].0 as int, d[k].1 as int));
    assert forall|i: int, j: int| 0 <= i < c.len() && 0 <= j < c.len() && i != j implies c[i]
        != c[j] by {
        if i < j {
            assert(position(w, d[i]) < position(w, d[j]));
        } else {
            assert(position(w, d[j]) < position(w, d[i]));
        }
    }
    c.unique_seq_to_set();
    let x0 = (cx + 0) % w;
    let x1 = (cx + 1) % w;
    let x2 = (cx + (w - 1)) % w;
    let y0 = (cy + 0) % h;
    let y1 = (cy + 1) % h;
    let y2 = (cy + (h - 1)) % h;
    lemma_at_distance(cx, 0, w);
    lemma_at_distance(cx, 1, w);
    lemma_at_distance(cx, w - 1, w);
    lemma_at_distance(cy, 0, h);
    lemma_at_distance(cy, 1, h);
    lemma_at_distance(cy, h - 1, h);
    let t = set![(x1, y0), (x2, y0), (x0, y1), (x0, y2)];
    assert forall|p: (int, int)| c.to_set().contains(p) implies t.contains(p) by {
        let k = choose|k: int| 0 <= k < c.len() && c[k] == p;
        assert(d[k].0 == p.0 && d[k].1 == p.1);
        assert(lists(d, p.0, p.1));
        lemma_from_distance(p.0, cx, w);
        lemma_from_distance(p.1, cy, h);
    }
    assert forall|p: (int, int)| t.contains(p) implies c.to_set().contains(p) by {
        assert(is_blinker_tip(g, cx, cy, p.0, p.1));
        assert(lists(d, p.0, p.1));
        let k = choose|k: int| 0 <= k < d.len() && (#[trigger] d[k]).0 == p.0 && d[k].1 == p.1;
        assert(c[k] == p);
    }
    assert(c.to_set() =~= t);
    assert(t.len() == 4);
}

/// A row blinker on a grid of at least 5x5 has period two: one step gives
/// the column blinker, the second gives back the grid as it was.
pub proof fn lemma_blinker_period(g: Grid, cx: int, cy: int)
    requires
        g.wf(),
        g.width >= 5,
        g.height >= 5,
        is_row_blinker(g, cx, cy),
    ensures
        is_column_blinker(g.next(), cx, cy),
        is_row_blinker(g.next().next(), cx, cy),
        g.next().next() == g,
        g.next() != g,
{
    lemma_row_blinker_turns(g, cx, cy);
    lemma_column_blinker_turns(g.next(), cx, cy);
    let gg = g.next().next();
    assert forall|i: int| 0 <= i < g.cells.len() implies gg.cells[i] == g.cells[i] by {
        lemma_offset_split(g.width, g.height, i);
        let x = i % g.width;
        let y = i / g.width;
        assert(gg.cell(x, y) == Cell::Alive <==> g.cell(x, y) == Cell::Alive);
        assert(gg.cell(x, y) == gg.cells[i]);
        assert(g.cell(x, y) == g.cells[i]);
    }
    assert(gg.cells =~= g.cells);
    if g.next() == g {
        lemma_diff_complete(g);
        let k = 0;
        let e = g.diff()[k];
        assert(g.next().cell(e.0 as int, e.1 as int) == e.2);
    }
}

/// On a grid of one cell all eight offsets wrap to that cell, so a live cell
/// counts itself eight times and dies, and a dead one stays dead.
pub proof fn lemma_single_cell(g: Grid)
    requires
        g.wf(),
        g.width == 1,
        g.height == 1,
    ensures
        g.neighbours(0, 0) == 8 * g.live(0, 0),
        g.next().cells == seq![Cell::Dead],
        g.diff() == if g.cell(0, 0) == Cell::Alive {
            seq![(0u32, 0u32, Cell::Dead)]
        } else {
            Seq::empty()
        },
{
    assert forall|x: int, y: int| g.index(x, y) == 0 by {
        lemma_cell_in_bounds(g, x, y);
    }
    assert(g.next().cells =~= seq![Cell::Dead]);
    assert(g.changes(0) =~= Seq::empty());
    assert(g.changes(1) =~= if g.cell(0, 0) == Cell::Alive {
        seq![(0u32, 0u32, Cell::Dead)]
    } else {
        Seq::empty()
    });
}

} // verus!
