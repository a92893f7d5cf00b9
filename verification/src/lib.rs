//! A fixed-playfield arcade game engine: a Space-Invaders variant advanced
//! once per timer tick and steered by discrete key events.
//!
//! The crate holds the full simulation: the grid of cells, the player
//! character, the laser pool, the invader formation, collision resolution,
//! scoring, and the running/over state machine.  Rendering, keyboard
//! decoding and interrupt wiring are left to the embedding program, which
//! feeds the engine plain key events and reads its state back.

pub mod character;
pub mod geom;
pub mod grid;
pub mod invaders;
pub mod laser;
pub mod game;
pub mod laws;
pub mod layout;

use vstd::prelude::*;

verus! {

/// Number of columns of the playfield grid.
pub const WIDTH: i16 = 80;

/// Number of rows of the playfield grid.
pub const HEIGHT: i16 = 23;

/// Leftmost column the player may occupy.
pub const PLAYER_MIN_COL: i16 = 2;

/// Rightmost column the player may occupy (`WIDTH - 3`).
pub const PLAYER_MAX_COL: i16 = WIDTH - 3;

/// Column where the player starts when the layout places no marker.
pub const PLAYER_START_COL: i16 = 40;

/// Row where the player starts when the layout places no marker.
pub const PLAYER_START_ROW: i16 = HEIGHT - 3;

/// A laser that would move above this row deactivates instead: it has
/// reached the top boundary of the playfield.
pub const LASER_TOP_ROW: i16 = 2;

/// Columns at or beyond the lateral bounds make an invader step downward.
pub const INVADER_LEFT_BOUND: i16 = 2;

/// Right lateral bound for invaders (`WIDTH - 2`).
pub const INVADER_RIGHT_BOUND: i16 = WIDTH - 2;

/// An invader on or below this row ends the game.
pub const DANGER_ROW: i16 = 20;

/// Invaders never step below this row.
pub const INVADER_BOTTOM_ROW: i16 = 21;

/// The formation advances only on ticks whose index is a multiple of this.
pub const FORMATION_THROTTLE: u64 = 4;

/// Minimum number of ticks between two successful shots.
pub const COOLDOWN_TICKS: u64 = 10;

/// Score accrued on every running tick.
pub const SURVIVAL_BONUS: u64 = 1;

/// Score accrued for each destroyed invader.
pub const KILL_BONUS: u64 = 10;

/// Number of slots of the laser pool.
pub const LASER_CAPACITY: usize = 1000;

/// Greatest number of invaders a layout may populate.
pub const INVADER_CAPACITY: usize = 70;

} // verus!
