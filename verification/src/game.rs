//! The grid itself: construction, single-cell access and the step.

use vstd::prelude::*;
use crate::arith::{lemma_offset_in_bounds, lemma_offset_split, lemma_wrap_pred, lemma_wrap_succ};
use crate::model::{population, rule, Grid};
use vstd::arithmetic::div_mod::lemma_small_mod;

verus! {

/// State of one cell.
#[derive(Clone, Copy, PartialEq, Eq, Debug, Structural)]
pub enum Cell {
    Dead,
    Alive,
}

/// Why a grid could not be made.
#[derive(Clone, Copy, PartialEq, Eq, Debug, Structural)]
pub enum FrameError {
    /// The width or the height was zero.
    InvalidDimension,
}

/// A rectangle of cells whose edges wrap around.
#[derive(Clone, Debug)]
pub struct Frame {
    pub width: u32,
    pub height: u32,
    pub cells: Vec<Cell>,
}

impl View for Frame {
    type V = Grid;

    open spec fn view(&self) -> Grid {
        Grid { width: self.width as int, height: self.height as int, cells: self.cells@ }
    }
}

impl Cell {
    /// 1 for a live cell, 0 for a dead one.
    pub fn population(self) -> (n: u8)
        ensures
            n == population(self),
    {
        match self {
            Cell::Alive => 1,
            Cell::Dead => 0,
        }
    }

    /// The state that follows this one when `n` of the neighbours are alive.
    pub fn next_state(self, n: u8) -> (c: Cell)
        ensures
            c == rule(self, n as int),
    {
        match self {
            Cell::Alive => if n == 2 || n == 3 {
                Cell::Alive
            } else {
                Cell::Dead
            },
            Cell::Dead => if n == 3 {
                Cell::Alive
            } else {
                Cell::Dead
            },
        }
    }
}

impl Frame {
    /// Both dimensions are positive and `cells` holds one cell per coordinate.
    pub open spec fn wf(&self) -> bool {
        self@.wf()
    }

    /// A grid of the given size with every cell dead. A zero width or height
    /// is refused.
    pub fn new(width: u32, height: u32) -> (r: Result<Frame, FrameError>)
        requires
            width * height <= usize::MAX,
        ensures
            r is Err <==> (width == 0 || height == 0),
            r matches Err(e) ==> e == FrameError::InvalidDimension,
            r matches Ok(f) ==> f.wf() && f@ == Grid::dead(width as int, height as int),
            r matches Ok(f) ==> forall|x: int, y: int| f@.cell(x, y) == Cell::Dead,
    {
        if width == 0 || height == 0 {
            return Err(FrameError::InvalidDimension);
        }
        let total: usize = (width as usize) * (height as usize);
        let mut cells: Vec<Cell> = Vec::new();
        let mut i: usize = 0;
        while i < total
            invariant
                i <= total,
                cells@.len() == i,
                forall|j: int| 0 <= j < i ==> cells@[j] == Cell::Dead,
            decreases total - i,
        {
            cells.push(Cell::Dead);
            i += 1;
        }
        let f = Frame { width, height, cells };
        assert(f@.cells =~= Grid::dead(width as int, height as int).cells);
        assert forall|x: int, y: int| f@.cell(x, y) == Cell::Dead by {
            lemma_offset_in_bounds(width as int, height as int, x, y);
        }
        Ok(f)
    }

    /// Row-major offset of the cell at wrapped `(x, y)`.
    fn offset(&self, x: u32, y: u32) -> (i: usize)
        requires
            self.wf(),
        ensures
            i == self@.index(x as int, y as int),
            i < self.cells@.len(),
    {
        let row: usize = (y % self.height) as usize;
        let col: usize = (x % self.width) as usize;
        proof {
            lemma_offset_in_bounds(self.width as int, self.height as int, x as int, y as int);
            vstd::std_specs::vec::axiom_spec_len(&self.cells);
            assert(self.cells.len() == self.cells@.len());
        }
        row * (self.width as usize) + col
    }

    /// The cell at `(x, y)`, each coordinate wrapped to the grid.
    pub fn get_cell(&self, x: u32, y: u32) -> (c: Cell)
        requires
            self.wf(),
        ensures
            c == self@.cell(x as int, y as int),
    {
        let i: usize = self.offset(x, y);
        self.cells[i]
    }

    /// Number of live cells over the eight offsets around `(x, y)`, each
    /// offset wrapped to the grid on its own.
    pub fn count_neighbours(&self, x: u32, y: u32) -> (n: u8)
        requires
            self.wf(),
        ensures
            n == self@.neighbours(x as int, y as int),
            n <= 8,
    {
        let col: u32 = x % self.width;
        let row: u32 = y % self.height;
        let left: u32 = if col == 0 { self.width - 1 } else { col - 1 };
        let right: u32 = if col == self.width - 1 { 0 } else { col + 1 };
        let up: u32 = if row == 0 { self.height - 1 } else { row - 1 };
        let down: u32 = if row == self.height - 1 { 0 } else { row + 1 };
        proof {
            let w = self.width as int;
            let h = self.height as int;
            lemma_wrap_pred(x as int, w);
            lemma_wrap_succ(x as int, w);
            lemma_wrap_pred(y as int, h);
            lemma_wrap_succ(y as int, h);
            lemma_small_mod(left as nat, w as nat);
            lemma_small_mod(right as nat, w as nat);
            lemma_small_mod(up as nat, h as nat);
            lemma_small_mod(down as nat, h as nat);
        }
        self.get_cell(left, up).population() + self.get_cell(x, up).population()
            + self.get_cell(right, up).population() + self.get_cell(left, y).population()
            + self.get_cell(right, y).population() + self.get_cell(left, down).population()
            + self.get_cell(x, down).population() + self.get_cell(right, down).population()
    }

    /// The slot of the cell at wrapped `(x, y)`, to write through.
    fn get_cell_mut(&mut self, x: u32, y: u32) -> (slot: &mut Cell)
        requires
            old(self).wf(),
        ensures
            *slot == old(self)@.cell(x as int, y as int),
            final(self)@ == old(self)@.set(x as int, y as int, *final(slot)),
    {
        let i: usize = self.offset(x, y);
        &mut self.cells[i]
    }

    /// Writes `cell` at wrapped `(x, y)` and says whether that changed the grid.
    pub fn set_cell(&mut self, x: u32, y: u32, cell: Cell) -> (changed: bool)
        requires
            old(self).wf(),
        ensures
            final(self).wf(),
            final(self)@ == old(self)@.set(x as int, y as int, cell),
            changed == (old(self)@.cell(x as int, y as int) != cell),
    {
        proof {
            lemma_offset_in_bounds(self.width as int, self.height as int, x as int, y as int);
        }
        let slot = self.get_cell_mut(x, y);
        if *slot != cell {
            *slot = cell;
            true
        } else {
            assert(old(self)@.set(x as int, y as int, cell).cells =~= old(self)@.cells);
            false
        }
    }

    /// Advances the grid by one generation. Every cell is decided from the
    /// grid as it was before the call. Returns the cells that changed, in
    /// row-major order, each with its new state.
    pub fn step(&mut self) -> (diff: Vec<(u32, u32, Cell)>)
        requires
            old(self).wf(),
        ensures
            final(self).wf(),
            final(self)@ == old(self)@.next(),
            diff@ == old(self)@.diff(),
    {
        let mut new_frame = Frame {
            width: self.width,
            height: self.height,
            cells: self.cells.clone(),
        };
        let mut diff: Vec<(u32, u32, Cell)> = Vec::new();
        let total: usize = self.cells.len();
        let width: usize = self.width as usize;
        let mut index: usize = 0;
        while index < total
            invariant
                *self == *old(self),
                self.wf(),
                new_frame.wf(),
                new_frame.width == self.width,
                new_frame.height == self.height,
                width == self.width,
                total == self.cells@.len(),
                index <= total,
                forall|j: int|
                    0 <= j < index ==> new_frame.cells@[j] == self@.next_cell(
                        j % (width as int),
                        j / (width as int),
                    ),
                forall|j: int| index <= j < total ==> new_frame.cells@[j] == self.cells@[j],
                diff@ == self@.changes(index as int),
            decreases total - index,
        {
            proof {
                lemma_offset_split(self.width as int, self.height as int, index as int);
            }
            let x: u32 = (index % width) as u32;
            let y: u32 = (index / width) as u32;
            let n: u8 = self.count_neighbours(x, y);
            let next: Cell = self.cells[index].next_state(n);
            if new_frame.set_cell(x, y, next) {
                diff.push((x, y, next));
            }
            index += 1;
        }
        self.cells = new_frame.cells;
        assert(self@.cells =~= old(self)@.next().cells);
        diff
    }
}

} // verus!
