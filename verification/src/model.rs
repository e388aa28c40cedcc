//! The mathematical model of the grid: a rectangle of cells on a torus, the
//! transition rule, and the list of changes that one generation makes.

use vstd::prelude::*;
use crate::game::Cell;

verus! {

/// What a `Frame` stands for: its dimensions and its cells in row-major order.
pub struct Grid {
    pub width: int,
    pub height: int,
    pub cells: Seq<Cell>,
}

/// 1 for a live cell, 0 for a dead one.
pub open spec fn population(c: Cell) -> int {
    if c == Cell::Alive {
        1
    } else {
        0
    }
}

/// The transition rule: a live cell survives with two or three live
/// neighbours, a dead cell comes alive with exactly three.
pub open spec fn rule(c: Cell, n: int) -> Cell {
    match c {
        Cell::Alive => if n == 2 || n == 3 {
            Cell::Alive
        } else {
            Cell::Dead
        },
        Cell::Dead => if n == 3 {
            Cell::Alive
        } else {
            Cell::Dead
        },
    }
}

impl Grid {
    /// Both dimensions are positive 32-bit numbers and there is one cell per
    /// coordinate.
    pub open spec fn wf(self) -> bool {
        &&& 0 < self.width <= u32::MAX
        &&& 0 < self.height <= u32::MAX
        &&& self.cells.len() == self.width * self.height
    }

    /// The grid of the given size with every cell dead.
    pub open spec fn dead(width: int, height: int) -> Grid {
        Grid { width, height, cells: Seq::new((width * height) as nat, |i: int| Cell::Dead) }
    }

    /// Row-major offset of `(x, y)` after wrapping each coordinate.
    pub open spec fn index(self, x: int, y: int) -> int {
        (y % self.height) * self.width + (x % self.width)
    }

    /// The cell at `(x, y)`, for any integers `x` and `y`.
    pub open spec fn cell(self, x: int, y: int) -> Cell {
        self.cells[self.index(x, y)]
    }

    /// 1 if the cell at `(x, y)` is alive, else 0.
    pub open spec fn live(self, x: int, y: int) -> int {
        population(self.cell(x, y))
    }

    /// Number of live cells over the eight offsets around `(x, y)`. Each
    /// offset is wrapped on its own, so on a narrow grid one cell can be
    /// counted under several offsets.
    pub open spec fn neighbours(self, x: int, y: int) -> int {
        self.live(x - 1, y - 1) + self.live(x, y - 1) + self.live(x + 1, y - 1)
            + self.live(x - 1, y) + self.live(x + 1, y)
            + self.live(x - 1, y + 1) + self.live(x, y + 1) + self.live(x + 1, y + 1)
    }

    /// State of `(x, y)` in the next generation.
    pub open spec fn next_cell(self, x: int, y: int) -> Cell {
        rule(self.cell(x, y), self.neighbours(x, y))
    }

    /// Whether `(x, y)` has another state in the next generation.
    pub open spec fn flips(self, x: int, y: int) -> bool {
        self.next_cell(x, y) != self.cell(x, y)
    }

    /// The next generation: every cell replaced at once by its `next_cell`.
    pub open spec fn next(self) -> Grid {
        Grid {
            width: self.width,
            height: self.height,
            cells: Seq::new(
                self.cells.len(),
                |i: int| self.next_cell(i % self.width, i / self.width),
            ),
        }
    }

    /// The grid with the cell at wrapped `(x, y)` replaced by `c`.
    pub open spec fn set(self, x: int, y: int, c: Cell) -> Grid {
        Grid {
            width: self.width,
            height: self.height,
            cells: self.cells.update(self.index(x, y), c),
        }
    }

    /// The changes that one generation makes among the first `n` cells in
    /// row-major order: each cell that flips, with its new state.
    pub open spec fn changes(self, n: int) -> Seq<(u32, u32, Cell)>
        decreases n,
    {
        if n <= 0 {
            Seq::empty()
        } else {
            let x = (n - 1) % self.width;
            let y = (n - 1) / self.width;
            let before = self.changes(n - 1);
            if self.flips(x, y) {
                before.push((x as u32, y as u32, self.next_cell(x, y)))
            } else {
                before
            }
        }
    }

    /// The changes that one generation makes over the whole grid.
    pub open spec fn diff(self) -> Seq<(u32, u32, Cell)> {
        self.changes(self.cells.len() as int)
    }
}

} // verus!
