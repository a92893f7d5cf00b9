//! The player avatar.

use vstd::prelude::*;
use crate::geom::Position;
use crate::{HEIGHT, PLAYER_MAX_COL, PLAYER_MIN_COL, PLAYER_START_COL, PLAYER_START_ROW, WIDTH};

verus! {

/// The player avatar: its position, the column it is steering toward
/// (`dx`), and an activity flag reserved for a player-destroyed extension.
#[derive(Debug, Copy, Clone, Eq, PartialEq, Structural)]
pub struct Character {
    pub col: i16,
    pub row: i16,
    pub dx: i16,
    pub active: bool,
}

/// A column forced into the player's lane.
pub open spec fn clamp_player_col(col: int) -> i16 {
    if col < PLAYER_MIN_COL {
        PLAYER_MIN_COL
    } else if col > PLAYER_MAX_COL {
        PLAYER_MAX_COL
    } else {
        col as i16
    }
}

/// One movement tick of the avatar: the column moves by at most one unit
/// toward the target column and is clamped into the player's lane.
pub open spec fn char_step(c: Character) -> Character {
    let toward: int = if c.dx > c.col {
        c.col + 1
    } else if c.dx < c.col {
        c.col - 1
    } else {
        c.col as int
    };
    Character { col: clamp_player_col(toward), row: c.row, dx: c.dx, active: c.active }
}

impl Character {
    /// The avatar fit for the playfield: in its lane, steering toward its
    /// own column.
    pub open spec fn wf(self) -> bool {
        &&& PLAYER_MIN_COL <= self.col <= PLAYER_MAX_COL
        &&& 0 <= self.row < HEIGHT
        &&& 0 <= self.dx < WIDTH
    }

    /// The avatar at the fixed default start position.
    pub fn new() -> (r: Character)
        ensures
            r == (Character {
                col: PLAYER_START_COL,
                row: PLAYER_START_ROW,
                dx: PLAYER_START_COL,
                active: true,
            }),
            r.wf(),
    {
        Character { col: PLAYER_START_COL, row: PLAYER_START_ROW, dx: PLAYER_START_COL, active: true }
    }

    /// The avatar at a start position taken from the layout, its column
    /// clamped into the player's lane.
    pub fn new_at(start: Position) -> (r: Character)
        requires
            start.spec_is_legal(),
        ensures
            r == (Character {
                col: clamp_player_col(start.col as int),
                row: start.row,
                dx: clamp_player_col(start.col as int),
                active: true,
            }),
            r.wf(),
    {
        let col: i16 = if start.col < PLAYER_MIN_COL {
            PLAYER_MIN_COL
        } else if start.col > PLAYER_MAX_COL {
            PLAYER_MAX_COL
        } else {
            start.col
        };
        Character { col, row: start.row, dx: col, active: true }
    }

    /// Moves the stored column by at most one unit toward the target
    /// column, clamped into the player's lane: whatever the target, the
    /// avatar never leaves `[PLAYER_MIN_COL, PLAYER_MAX_COL]`.
    pub fn advance(&mut self)
        requires
            PLAYER_MIN_COL <= old(self).col <= PLAYER_MAX_COL,
        ensures
            *final(self) == char_step(*old(self)),
            PLAYER_MIN_COL <= final(self).col <= PLAYER_MAX_COL,
    {
        let toward: i16 = if self.dx > self.col {
            self.col + 1
        } else if self.dx < self.col {
            self.col - 1
        } else {
            self.col
        };
        self.col = if toward < PLAYER_MIN_COL {
            PLAYER_MIN_COL
        } else if toward > PLAYER_MAX_COL {
            PLAYER_MAX_COL
        } else {
            toward
        };
    }

    /// Steers the target column one unit leftward.
    pub fn steer_left(&mut self)
        ensures
            *final(self) == (Character {
                dx: if old(self).dx > 0 {
                    (old(self).dx - 1) as i16
                } else {
                    old(self).dx
                },
                ..*old(self)
            }),
    {
        if self.dx > 0 {
            self.dx = self.dx - 1;
        }
    }

    /// Steers the target column one unit rightward.
    pub fn steer_right(&mut self)
        ensures
            *final(self) == (Character {
                dx: if old(self).dx < WIDTH - 1 {
                    (old(self).dx + 1) as i16
                } else {
                    old(self).dx
                },
                ..*old(self)
            }),
    {
        if self.dx < WIDTH - 1 {
            self.dx = self.dx + 1;
        }
    }

    /// The cell directly above the avatar, from which a laser spawns.
    pub fn fire_origin(&self) -> (r: Position)
        requires
            i16::MIN < self.row,
        ensures
            r == (Position { row: (self.row - 1) as i16, col: self.col }),
    {
        Position { row: self.row - 1, col: self.col }
    }
}

} // verus!
