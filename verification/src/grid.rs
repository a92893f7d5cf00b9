//! The playfield grid: a fixed-size classification of every cell.

use vstd::prelude::*;
use crate::geom::Position;
use crate::{WIDTH, HEIGHT};

verus! {

/// Classification of one grid cell.
#[derive(Debug, Copy, Clone, Eq, PartialEq, Structural)]
pub enum Cell {
    Empty,
    Wall,
    Barricade,
}

/// The flat index of a legal position into the cell vector.
pub open spec fn cell_index(p: Position) -> int {
    p.row * WIDTH + p.col
}

/// A `WIDTH x HEIGHT` grid of cells, stored row-major.
#[derive(Debug, Clone, Eq, PartialEq)]
pub struct Grid {
    pub cells: Vec<Cell>,
}

impl View for Grid {
    type V = Seq<Cell>;

    open spec fn view(&self) -> Seq<Cell> {
        self.cells@
    }
}

impl Grid {
    /// The grid holds exactly one cell per playfield position.
    pub open spec fn wf(self) -> bool {
        self.cells.len() == WIDTH * HEIGHT
    }

    /// A grid of nothing but empty cells.
    pub fn all_empty() -> (r: Grid)
        ensures
            r.wf(),
            forall|i: int| 0 <= i < WIDTH * HEIGHT ==> r@[i] == Cell::Empty,
    {
        let mut cells: Vec<Cell> = Vec::new();
        let total: usize = (WIDTH as usize) * (HEIGHT as usize);
        while cells.len() < total
            invariant
                cells.len() <= total,
                total == WIDTH * HEIGHT,
                forall|i: int| 0 <= i < cells.len() ==> cells@[i] == Cell::Empty,
            decreases total - cells.len(),
        {
            cells.push(Cell::Empty);
        }
        Grid { cells }
    }

    /// The classification of the cell at a legal position.
    pub fn classify(&self, p: Position) -> (r: Cell)
        requires
            self.wf(),
            p.spec_is_legal(),
        ensures
            r == self@[cell_index(p)],
    {
        let (row, col) = p.row_col();
        self.cells[row * (WIDTH as usize) + col]
    }

    /// Overwrites the cell at a legal position.
    pub fn set(&mut self, p: Position, c: Cell)
        requires
            old(self).wf(),
            p.spec_is_legal(),
        ensures
            final(self).wf(),
            final(self)@ == old(self)@.update(cell_index(p), c),
    {
        let (row, col) = p.row_col();
        assert(row * (WIDTH as usize) + col == cell_index(p));
        self.cells.set(row * (WIDTH as usize) + col, c);
    }
}

} // verus!
