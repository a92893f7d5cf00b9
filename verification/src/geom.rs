//! Grid coordinates and the four cardinal directions.

use vstd::prelude::*;
use crate::{WIDTH, HEIGHT};

verus! {

/// One of the four cardinal movement directions.
#[derive(Debug, Copy, Clone, Eq, PartialEq, Structural)]
pub enum Dir {
    N,
    S,
    E,
    W,
}

impl Dir {
    /// The opposite direction.
    pub fn reverse(&self) -> (r: Dir)
        ensures
            r == self.spec_reverse(),
    {
        match self {
            Dir::N => Dir::S,
            Dir::S => Dir::N,
            Dir::E => Dir::W,
            Dir::W => Dir::E,
        }
    }

    /// The direction one quarter turn counterclockwise.
    pub fn left(&self) -> (r: Dir)
        ensures
            r == self.spec_left(),
    {
        match self {
            Dir::N => Dir::W,
            Dir::S => Dir::E,
            Dir::E => Dir::N,
            Dir::W => Dir::S,
        }
    }

    /// The direction one quarter turn clockwise.
    pub fn right(&self) -> (r: Dir)
        ensures
            r == self.spec_left().spec_reverse(),
    {
        match self {
            Dir::N => Dir::E,
            Dir::S => Dir::W,
            Dir::E => Dir::S,
            Dir::W => Dir::N,
        }
    }

    pub open spec fn spec_reverse(self) -> Dir {
        match self {
            Dir::N => Dir::S,
            Dir::S => Dir::N,
            Dir::E => Dir::W,
            Dir::W => Dir::E,
        }
    }

    pub open spec fn spec_left(self) -> Dir {
        match self {
            Dir::N => Dir::W,
            Dir::S => Dir::E,
            Dir::E => Dir::N,
            Dir::W => Dir::S,
        }
    }
}

/// A grid coordinate.  Row and column are signed so that off-grid values are
/// representable transiently; positions are checked or clamped before any
/// indexing use.
#[derive(Debug, Copy, Clone, Eq, PartialEq, Structural)]
pub struct Position {
    pub col: i16,
    pub row: i16,
}

impl Position {
    /// True when the position indexes the playfield grid.
    pub open spec fn spec_is_legal(self) -> bool {
        0 <= self.col < WIDTH && 0 <= self.row < HEIGHT
    }

    /// Builds a position from its column and row.
    pub fn new(col: i16, row: i16) -> (r: Position)
        ensures
            r == (Position { col, row }),
    {
        Position { col, row }
    }

    /// Whether the position lies on the playfield grid.
    pub fn is_legal(&self) -> (r: bool)
        ensures
            r == self.spec_is_legal(),
    {
        0 <= self.col && self.col < WIDTH && 0 <= self.row && self.row < HEIGHT
    }

    /// The row and column as indexes, for a position known to be legal.
    pub fn row_col(&self) -> (r: (usize, usize))
        requires
            self.spec_is_legal(),
        ensures
            r.0 == self.row as int,
            r.1 == self.col as int,
    {
        (self.row as usize, self.col as usize)
    }

    /// The adjacent position in direction `d`.
    pub fn neighbor(&self, d: Dir) -> (r: Position)
        requires
            i16::MIN < self.row < i16::MAX,
            i16::MIN < self.col < i16::MAX,
        ensures
            r == self.spec_neighbor(d),
    {
        match d {
            Dir::N => Position { row: self.row - 1, col: self.col },
            Dir::S => Position { row: self.row + 1, col: self.col },
            Dir::E => Position { row: self.row, col: self.col + 1 },
            Dir::W => Position { row: self.row, col: self.col - 1 },
        }
    }

    pub open spec fn spec_neighbor(self, d: Dir) -> Position {
        match d {
            Dir::N => Position { row: (self.row - 1) as i16, col: self.col },
            Dir::S => Position { row: (self.row + 1) as i16, col: self.col },
            Dir::E => Position { row: self.row, col: (self.col + 1) as i16 },
            Dir::W => Position { row: self.row, col: (self.col - 1) as i16 },
        }
    }
}

} // verus!
