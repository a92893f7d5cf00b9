//! The game state machine: the aggregate owning character, grid, laser
//! pool, formation, score and status, advanced by `tick` and steered by
//! `key`.

use vstd::prelude::*;
use crate::character::{char_step, clamp_player_col, Character};
use crate::geom::Position;
use crate::grid::{cell_index, Cell, Grid};
use crate::invaders::{
    count_active_invaders, first_hit_from, formation_ticked, lemma_count_invaders_update,
    spec_reached_danger_line, Invaders, SpaceInvaders,
};
use crate::laser::{
    count_active_lasers, first_inactive_from, laser_step, lemma_count_lasers_update, Laser,
    LaserPool,
};
use crate::layout::{layout_ok, parse_layout, parsed_layout, shape_ok, Layout, LayoutError, LayoutModel};
use crate::{COOLDOWN_TICKS, KILL_BONUS, LASER_CAPACITY, SURVIVAL_BONUS};

verus! {

/// Whether the simulation is running or frozen on game over.
#[derive(Debug, Copy, Clone, Eq, PartialEq, Structural)]
pub enum Status {
    Running,
    Over,
}

/// A decoded logical key event, as the input collaborator hands it over.
#[derive(Debug, Copy, Clone, Eq, PartialEq, Structural)]
pub enum KeyEvent {
    /// Steer one column leftward.
    Left,
    /// Steer one column rightward.
    Right,
    /// A printable character: space fires, `'s'` restarts while over.
    Chr(char),
}

/// Addition on the score and tick counters: they saturate instead of
/// wrapping.
pub open spec fn sat64(x: int) -> u64 {
    if x > u64::MAX {
        u64::MAX
    } else if x < 0 {
        0
    } else {
        x as u64
    }
}

/// Saturating counter addition.
pub fn sat_add64(a: u64, b: u64) -> (r: u64)
    ensures
        r == sat64(a + b),
{
    if a <= u64::MAX - b {
        a + b
    } else {
        u64::MAX
    }
}

/// Whether the cooldown since the last shot has elapsed.
pub open spec fn spec_can_fire(counter: u64, last_shot: u64) -> bool {
    counter - last_shot >= COOLDOWN_TICKS
}

/// The mutable state collision resolution works on, with the number of
/// invaders destroyed so far.
#[verifier::ext_equal]
pub ghost struct ResolveState {
    pub cells: Seq<Cell>,
    pub lasers: Seq<Laser>,
    pub invaders: Seq<Invaders>,
    pub kills: nat,
}

/// Resolution of the single laser in slot `i`.  The grid is tested first:
/// a barricade absorbs the shot and is destroyed, a wall absorbs it
/// unharmed.  Only a laser that survives the grid test can strike the
/// first live invader sharing its cell, destroying exactly one.
pub open spec fn resolve_one(s: ResolveState, i: int) -> ResolveState {
    let l = s.lasers[i];
    if !l.active {
        s
    } else {
        let ci = cell_index(l.pos);
        if s.cells[ci] == Cell::Barricade {
            ResolveState {
                cells: s.cells.update(ci, Cell::Empty),
                lasers: s.lasers.update(i, Laser { pos: l.pos, active: false }),
                ..s
            }
        } else if s.cells[ci] == Cell::Wall {
            ResolveState { lasers: s.lasers.update(i, Laser { pos: l.pos, active: false }), ..s }
        } else {
            let j = first_hit_from(s.invaders, l.pos, 0);
            if j < s.invaders.len() {
                ResolveState {
                    cells: s.cells,
                    lasers: s.lasers.update(i, Laser { pos: l.pos, active: false }),
                    invaders: s.invaders.update(
                        j,
                        Invaders { pos: s.invaders[j].pos, active: false },
                    ),
                    kills: s.kills + 1,
                }
            } else {
                s
            }
        }
    }
}

/// Resolution of the lasers in slots `0 .. n`, in slot order.
pub open spec fn resolve_upto(s: ResolveState, n: int) -> ResolveState
    decreases n,
{
    if n <= 0 {
        s
    } else {
        resolve_one(resolve_upto(s, n - 1), n - 1)
    }
}

/// One full collision-resolution pass over every laser slot.
pub open spec fn resolve_all(s: ResolveState) -> ResolveState {
    resolve_upto(s, s.lasers.len() as int)
}

/// The whole game as one mathematical value.
#[verifier::ext_equal]
pub ghost struct GameModel {
    pub character: Character,
    pub cells: Seq<Cell>,
    pub lasers: Seq<Laser>,
    pub invaders: Seq<Invaders>,
    pub status: Status,
    pub score: u64,
    pub counter: u64,
    pub last_shot: u64,
    pub grace: u64,
    pub init: LayoutModel,
}

/// The game state right after construction or reset.
pub open spec fn initial_game(init: LayoutModel) -> GameModel {
    GameModel {
        character: Character {
            col: clamp_player_col(init.start.col as int),
            row: init.start.row,
            dx: clamp_player_col(init.start.col as int),
            active: true,
        },
        cells: init.cells,
        lasers: Seq::new(
            LASER_CAPACITY as nat,
            |i: int| Laser { pos: Position { col: 0, row: 0 }, active: false },
        ),
        invaders: init.spawns.map_values(|p: Position| Invaders { pos: p, active: true }),
        status: Status::Running,
        score: 0,
        counter: 0,
        last_shot: 0,
        grace: 0,
        init,
    }
}

/// The collision-resolution part of one tick: the resolved grid, lasers
/// and invaders, and the kill bonus added to the score.
pub open spec fn collision_step(m: GameModel) -> GameModel {
    let r = resolve_all(
        ResolveState { cells: m.cells, lasers: m.lasers, invaders: m.invaders, kills: 0 },
    );
    GameModel {
        cells: r.cells,
        lasers: r.lasers,
        invaders: r.invaders,
        score: sat64(m.score + KILL_BONUS * r.kills),
        ..m
    }
}

/// The end-condition part of one tick.  The game ends when a live invader
/// has reached the danger line, or one tick after the live count reaches
/// zero, so the final kill still gets drawn.
pub open spec fn end_check(m: GameModel) -> GameModel {
    let danger = spec_reached_danger_line(m.invaders);
    let live = count_active_invaders(m.invaders);
    GameModel {
        status: if danger || (live == 0 && m.grace >= 1) {
            Status::Over
        } else {
            m.status
        },
        grace: if live == 0 {
            sat64(m.grace + 1)
        } else {
            m.grace
        },
        ..m
    }
}

/// One tick of the simulation.  While running the fixed order is: advance
/// character, advance lasers, resolve collisions, advance formation,
/// accrue survival score, evaluate end conditions.  While over the
/// simulation is frozen.
pub open spec fn game_step(m: GameModel) -> GameModel {
    if m.status is Over {
        m
    } else {
        let stepped = GameModel {
            character: char_step(m.character),
            lasers: m.lasers.map_values(|l: Laser| laser_step(l)),
            ..m
        };
        let resolved = collision_step(stepped);
        let advanced = GameModel {
            invaders: formation_ticked(resolved.invaders, m.counter),
            score: sat64(resolved.score + SURVIVAL_BONUS),
            counter: sat64(m.counter + 1),
            ..resolved
        };
        end_check(advanced)
    }
}

/// The effect of a fire request: a laser spawns in the first free slot,
/// provided the cooldown elapsed, the origin is on the playfield and a
/// slot is free; otherwise the request is a no-op.
pub open spec fn shoot_step(m: GameModel) -> GameModel {
    let origin = Position { row: (m.character.row - 1) as i16, col: m.character.col };
    if spec_can_fire(m.counter, m.last_shot) && origin.spec_is_legal() && count_active_lasers(
        m.lasers,
    ) < LASER_CAPACITY {
        GameModel {
            lasers: m.lasers.update(
                first_inactive_from(m.lasers, 0),
                Laser { pos: origin, active: true },
            ),
            last_shot: m.counter,
            ..m
        }
    } else {
        m
    }
}

/// The effect of one key event.  While running, directional events steer
/// the character and space fires; while over, only `'s'` restarts.
pub open spec fn key_step(m: GameModel, k: KeyEvent) -> GameModel {
    match m.status {
        Status::Running => match k {
            KeyEvent::Left => GameModel {
                character: Character {
                    dx: if m.character.dx > 0 {
                        (m.character.dx - 1) as i16
                    } else {
                        m.character.dx
                    },
                    ..m.character
                },
                ..m
            },
            KeyEvent::Right => GameModel {
                character: Character {
                    dx: if m.character.dx < crate::WIDTH - 1 {
                        (m.character.dx + 1) as i16
                    } else {
                        m.character.dx
                    },
                    ..m.character
                },
                ..m
            },
            KeyEvent::Chr(c) => if c == ' ' {
                shoot_step(m)
            } else {
                m
            },
        },
        Status::Over => match k {
            KeyEvent::Chr(c) => if c == 's' {
                initial_game(m.init)
            } else {
                m
            },
            _ => m,
        },
    }
}

/// The aggregate game state.  One instance is driven from the embedding
/// program's tick and key call paths, under its lock.
#[derive(Debug, Clone, Eq, PartialEq)]
pub struct SpaceInvadersGame {
    pub character: Character,
    pub grid: Grid,
    pub pool: LaserPool,
    pub formation: SpaceInvaders,
    pub status: Status,
    pub score: u64,
    pub counter: u64,
    pub last_shot: u64,
    pub grace: u64,
    pub layout: Layout,
}

impl View for SpaceInvadersGame {
    type V = GameModel;

    open spec fn view(&self) -> GameModel {
        GameModel {
            character: self.character,
            cells: self.grid@,
            lasers: self.pool@,
            invaders: self.formation@,
            status: self.status,
            score: self.score,
            counter: self.counter,
            last_shot: self.last_shot,
            grace: self.grace,
            init: self.layout@,
        }
    }
}

impl SpaceInvadersGame {
    /// Every component is well formed and a shot can never predate the
    /// tick it was taken on.
    pub open spec fn wf(self) -> bool {
        &&& self.character.wf()
        &&& self.grid.wf()
        &&& self.pool.wf()
        &&& self.formation.wf()
        &&& self.layout.wf()
        &&& self.last_shot <= self.counter
    }

    /// Builds the game from a layout text.  A malformed text is a
    /// configuration error that prevents startup; it can never surface as
    /// a crash mid-game.
    pub fn new(text: &[u8]) -> (r: Result<SpaceInvadersGame, LayoutError>)
        ensures
            r is Ok <==> layout_ok(text@),
            r matches Ok(g) ==> g.wf() && g@ == initial_game(parsed_layout(text@)),
            r matches Err(e) ==> e == (if !shape_ok(text@) {
                LayoutError::BadShape
            } else {
                LayoutError::BadGlyph
            }),
    {
        let layout = match parse_layout(text) {
            Ok(l) => l,
            Err(e) => {
                return Err(e);
            },
        };
        let grid = layout.make_grid();
        let character = Character::new_at(layout.start);
        let pool = LaserPool::new();
        let formation = SpaceInvaders::new(&layout.spawns);
        let game = SpaceInvadersGame {
            character,
            grid,
            pool,
            formation,
            status: Status::Running,
            score: 0,
            counter: 0,
            last_shot: 0,
            grace: 0,
            layout,
        };
        proof {
            assert(game@ =~= initial_game(parsed_layout(text@)));
        }
        Ok(game)
    }

    /// Reinitializes every owned component from the stored layout.
    /// Callable at any time; calling it redundantly is safe.
    pub fn reset(&mut self)
        requires
            old(self).wf(),
        ensures
            final(self).wf(),
            final(self)@ == initial_game(old(self)@.init),
    {
        self.grid = self.layout.make_grid();
        self.character = Character::new_at(self.layout.start);
        self.pool = LaserPool::new();
        self.formation = SpaceInvaders::new(&self.layout.spawns);
        self.status = Status::Running;
        self.score = 0;
        self.counter = 0;
        self.last_shot = 0;
        self.grace = 0;
        proof {
            assert(self@ =~= initial_game(old(self)@.init));
        }
    }

    /// Advances every laser by one row.
    pub fn increment_laser(&mut self)
        requires
            old(self).wf(),
        ensures
            final(self).wf(),
            final(self)@ == (GameModel {
                lasers: old(self)@.lasers.map_values(|l: Laser| laser_step(l)),
                ..old(self)@
            }),
    {
        self.pool.advance_all();
    }

    /// Advances the formation, on every throttled tick only.
    pub fn increment_invaders(&mut self)
        requires
            old(self).wf(),
        ensures
            final(self).wf(),
            final(self)@ == (GameModel {
                invaders: formation_ticked(old(self)@.invaders, old(self).counter),
                ..old(self)@
            }),
    {
        let tick_index = self.counter;
        self.formation.advance_all(tick_index);
    }

    /// Fires a laser from the cell above the avatar, when the cooldown
    /// elapsed and a slot is free; otherwise the request is ignored.
    pub fn shoot(&mut self)
        requires
            old(self).wf(),
        ensures
            final(self).wf(),
            final(self)@ == shoot_step(old(self)@),
    {
        let origin = self.character.fire_origin();
        let cooldown_ok = self.counter - self.last_shot >= COOLDOWN_TICKS;
        let fired = self.pool.try_fire(origin, cooldown_ok);
        if fired {
            self.last_shot = self.counter;
        }
    }

    /// Evaluates the end conditions: an invader on the danger line ends
    /// the game at once; an empty formation ends it one tick later.
    pub fn check_end(&mut self)
        requires
            old(self).wf(),
        ensures
            final(self).wf(),
            final(self)@ == end_check(old(self)@),
    {
        let danger = self.formation.reached_danger_line();
        let live = self.formation.live_count();
        if danger || (live == 0 && self.grace >= 1) {
            self.status = Status::Over;
        }
        if live == 0 {
            self.grace = sat_add64(self.grace, 1);
        }
    }

    /// One full collision-resolution pass: each live laser is tested
    /// against the grid first and then against the invaders, in slot
    /// order; the score takes the kill bonus for every destroyed invader.
    pub fn check_collision(&mut self)
        requires
            old(self).wf(),
        ensures
            final(self).wf(),
            final(self)@ == collision_step(old(self)@),
    {
        let ghost s0 = ResolveState {
            cells: old(self)@.cells,
            lasers: old(self)@.lasers,
            invaders: old(self)@.invaders,
            kills: 0,
        };
        let mut kills: usize = 0;
        let mut i: usize = 0;
        while i < LASER_CAPACITY
            invariant
                i <= LASER_CAPACITY,
                kills <= i,
                self.pool.lasers@.len() == LASER_CAPACITY,
                s0.lasers.len() == LASER_CAPACITY,
                resolve_upto(s0, i as int).cells == self.grid@,
                resolve_upto(s0, i as int).lasers == self.pool@,
                resolve_upto(s0, i as int).invaders == self.formation@,
                resolve_upto(s0, i as int).kills == kills as nat,
                self.grid.wf(),
                self.pool.wf(),
                self.formation.wf(),
                self.character == old(self).character,
                self.status == old(self).status,
                self.score == old(self).score,
                self.counter == old(self).counter,
                self.last_shot == old(self).last_shot,
                self.grace == old(self).grace,
                self.layout == old(self).layout,
            decreases LASER_CAPACITY - i,
        {
            let ghost prev = resolve_upto(s0, i as int);
            let l = self.pool.lasers[i];
            if l.active {
                let cell = self.grid.classify(l.pos);
                if cell == Cell::Barricade {
                    self.grid.set(l.pos, Cell::Empty);
                    let mut l2 = l;
                    l2.done();
                    proof {
                        lemma_count_lasers_update(self.pool@, i as int, l2);
                    }
                    self.pool.lasers.set(i, l2);
                    self.pool.active_count = self.pool.active_count - 1;
                } else if cell == Cell::Wall {
                    let mut l2 = l;
                    l2.done();
                    proof {
                        lemma_count_lasers_update(self.pool@, i as int, l2);
                    }
                    self.pool.lasers.set(i, l2);
                    self.pool.active_count = self.pool.active_count - 1;
                } else {
                    let hit = self.formation.find_first_live_at(l.pos);
                    match hit {
                        Some(j) => {
                            let v = self.formation.invaders[j];
                            let mut v2 = v;
                            v2.active = false;
                            proof {
                                lemma_count_invaders_update(self.formation@, j as int, v2);
                            }
                            self.formation.invaders.set(j, v2);
                            self.formation.live = self.formation.live - 1;
                            let mut l2 = l;
                            l2.done();
                            proof {
                                lemma_count_lasers_update(self.pool@, i as int, l2);
                            }
                            self.pool.lasers.set(i, l2);
                            self.pool.active_count = self.pool.active_count - 1;
                            kills = kills + 1;
                        },
                        None => {},
                    }
                }
            }
            proof {
                assert(resolve_upto(s0, i as int + 1) == resolve_one(prev, i as int));
                assert(resolve_one(prev, i as int).cells =~= self.grid@);
                assert(resolve_one(prev, i as int).lasers =~= self.pool@);
                assert(resolve_one(prev, i as int).invaders =~= self.formation@);
            }
            i = i + 1;
        }
        let bonus = (kills as u64) * KILL_BONUS;
        self.score = sat_add64(self.score, bonus);
        proof {
            assert(self@ =~= collision_step(old(self)@));
        }
    }

    /// One timer tick.  While running, the fixed step order applies; while
    /// over, the simulation is frozen and the state does not change.
    pub fn tick(&mut self)
        requires
            old(self).wf(),
        ensures
            final(self).wf(),
            final(self)@ == game_step(old(self)@),
    {
        match self.status {
            Status::Over => {},
            Status::Running => {
                self.character.advance();
                self.increment_laser();
                self.check_collision();
                self.increment_invaders();
                self.score = sat_add64(self.score, SURVIVAL_BONUS);
                self.counter = sat_add64(self.counter, 1);
                self.check_end();
                proof {
                    assert(self@ =~= game_step(old(self)@));
                }
            },
        }
    }

    /// One key event.  While running, arrows steer and space fires; while
    /// over, only `'s'` restarts.
    pub fn key(&mut self, k: KeyEvent)
        requires
            old(self).wf(),
        ensures
            final(self).wf(),
            final(self)@ == key_step(old(self)@, k),
    {
        match self.status {
            Status::Running => {
                match k {
                    KeyEvent::Left => {
                        self.character.steer_left();
                    },
                    KeyEvent::Right => {
                        self.character.steer_right();
                    },
                    KeyEvent::Chr(c) => {
                        if c == ' ' {
                            self.shoot();
                        }
                    },
                }
            },
            Status::Over => {
                match k {
                    KeyEvent::Chr(c) => {
                        if c == 's' {
                            self.reset();
                        }
                    },
                    _ => {},
                }
            },
        }
    }
}

} // verus!
