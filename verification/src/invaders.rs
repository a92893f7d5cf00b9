//! Invaders and the formation that owns them.

use vstd::prelude::*;
use crate::geom::Position;
use crate::{
    DANGER_ROW, FORMATION_THROTTLE, INVADER_BOTTOM_ROW, INVADER_CAPACITY, INVADER_LEFT_BOUND,
    INVADER_RIGHT_BOUND,
};

verus! {

/// One invader.  Invaders in even rows drift toward increasing columns,
/// invaders in odd rows toward decreasing columns; one that has reached
/// the bound it drifts toward instead steps one row toward the player,
/// which flips its row parity and so reverses its drift.
#[derive(Debug, Copy, Clone, Eq, PartialEq, Structural)]
pub struct Invaders {
    pub pos: Position,
    pub active: bool,
}

/// Whether the invader stands on the lateral bound it drifts toward, so
/// that its next step goes downward.
pub open spec fn at_blocking_bound(v: Invaders) -> bool {
    if v.pos.row % 2 == 0 {
        v.pos.col >= INVADER_RIGHT_BOUND
    } else {
        v.pos.col <= INVADER_LEFT_BOUND
    }
}

/// One movement step of an invader.  An inactive invader never changes.
pub open spec fn invader_step(v: Invaders) -> Invaders {
    if !v.active {
        v
    } else if at_blocking_bound(v) {
        Invaders {
            pos: Position {
                row: if v.pos.row < INVADER_BOTTOM_ROW {
                    (v.pos.row + 1) as i16
                } else {
                    v.pos.row
                },
                col: v.pos.col,
            },
            active: true,
        }
    } else if v.pos.row % 2 == 0 {
        Invaders { pos: Position { row: v.pos.row, col: (v.pos.col + 1) as i16 }, active: true }
    } else {
        Invaders { pos: Position { row: v.pos.row, col: (v.pos.col - 1) as i16 }, active: true }
    }
}

impl Invaders {
    /// A live invader at `pos`.
    pub fn new(pos: Position) -> (r: Invaders)
        ensures
            r == (Invaders { pos, active: true }),
    {
        Invaders { pos, active: true }
    }

    /// One movement step, with the lateral-bound and bottom-row checks.
    pub fn increment_invader(&mut self)
        requires
            old(self).active ==> 0 <= old(self).pos.row,
        ensures
            *final(self) == invader_step(*old(self)),
    {
        if self.active {
            if self.pos.row % 2 == 0 {
                if self.pos.col >= INVADER_RIGHT_BOUND {
                    if self.pos.row < INVADER_BOTTOM_ROW {
                        self.pos.row = self.pos.row + 1;
                    }
                } else {
                    self.pos.col = self.pos.col + 1;
                }
            } else {
                if self.pos.col <= INVADER_LEFT_BOUND {
                    if self.pos.row < INVADER_BOTTOM_ROW {
                        self.pos.row = self.pos.row + 1;
                    }
                } else {
                    self.pos.col = self.pos.col - 1;
                }
            }
        }
    }
}

/// How many invaders of `s` are active.
pub open spec fn count_active_invaders(s: Seq<Invaders>) -> nat
    decreases s.len(),
{
    if s.len() == 0 {
        0
    } else {
        count_active_invaders(s.drop_last()) + if s.last().active {
            1nat
        } else {
            0nat
        }
    }
}

/// How replacing one slot changes the active count.
pub proof fn lemma_count_invaders_update(s: Seq<Invaders>, i: int, v: Invaders)
    requires
        0 <= i < s.len(),
    ensures
        count_active_invaders(s.update(i, v)) + (if s[i].active { 1nat } else { 0nat })
            == count_active_invaders(s) + (if v.active { 1nat } else { 0nat }),
    decreases s.len(),
{
    let t = s.update(i, v);
    if i == s.len() - 1 {
        assert(t.drop_last() =~= s.drop_last());
    } else {
        assert(t.drop_last() =~= s.drop_last().update(i, v));
        lemma_count_invaders_update(s.drop_last(), i, v);
    }
}


/// The first live invader at `p` from slot `j` on, or the slot count when
/// there is none.
pub open spec fn first_hit_from(inv: Seq<Invaders>, p: Position, j: int) -> int
    decreases inv.len() - j,
{
    if j < 0 || j >= inv.len() {
        inv.len() as int
    } else if inv[j].active && inv[j].pos == p {
        j
    } else {
        first_hit_from(inv, p, j + 1)
    }
}

/// Whether some live invader of `s` sits on or below the danger line.
pub open spec fn spec_reached_danger_line(s: Seq<Invaders>) -> bool {
    exists|j: int| 0 <= j < s.len() && (#[trigger] s[j]).active && s[j].pos.row >= DANGER_ROW
}

/// The whole formation after the tick numbered `t`: it advances only on
/// every `FORMATION_THROTTLE`-th tick and stands still otherwise.
pub open spec fn formation_ticked(s: Seq<Invaders>, t: u64) -> Seq<Invaders> {
    if t % FORMATION_THROTTLE == 0 {
        s.map_values(|v: Invaders| invader_step(v))
    } else {
        s
    }
}

/// The fixed-capacity collection of invaders, with a cached live count.
#[derive(Debug, Clone, Eq, PartialEq)]
pub struct SpaceInvaders {
    pub invaders: Vec<Invaders>,
    pub live: usize,
}

impl View for SpaceInvaders {
    type V = Seq<Invaders>;

    open spec fn view(&self) -> Seq<Invaders> {
        self.invaders@
    }
}

impl SpaceInvaders {
    /// The cached live count matches the flags and every invader sits on
    /// the playfield.
    pub open spec fn wf(self) -> bool {
        &&& self.invaders.len() <= INVADER_CAPACITY
        &&& self.live == count_active_invaders(self.invaders@)
        &&& forall|i: int|
            0 <= i < self.invaders.len() ==> (#[trigger] self.invaders@[i]).pos.spec_is_legal()
    }

    /// Populates the formation with one live invader per spawn position.
    pub fn new(spawns: &Vec<Position>) -> (r: SpaceInvaders)
        requires
            spawns.len() <= INVADER_CAPACITY,
            forall|i: int| 0 <= i < spawns.len() ==> (#[trigger] spawns@[i]).spec_is_legal(),
        ensures
            r.wf(),
            r@ == spawns@.map_values(|p: Position| Invaders { pos: p, active: true }),
            r.live == spawns.len(),
    {
        let mut invaders: Vec<Invaders> = Vec::new();
        let mut i: usize = 0;
        while i < spawns.len()
            invariant
                i <= spawns.len(),
                spawns.len() <= INVADER_CAPACITY,
                invaders.len() == i,
                forall|j: int| 0 <= j < spawns.len() ==> (#[trigger] spawns@[j]).spec_is_legal(),
                forall|j: int|
                    0 <= j < i ==> invaders@[j] == (Invaders { pos: spawns@[j], active: true }),
                count_active_invaders(invaders@) == i,
            decreases spawns.len() - i,
        {
            let ghost prev = invaders@;
            invaders.push(Invaders::new(spawns[i]));
            proof {
                assert(invaders@.drop_last() =~= prev);
            }
            i = i + 1;
        }
        proof {
            assert(invaders@ =~= spawns@.map_values(|p: Position| Invaders { pos: p, active: true }));
        }
        SpaceInvaders { invaders, live: i }
    }

    /// How many invaders are live.
    pub fn live_count(&self) -> (r: usize)
        requires
            self.wf(),
        ensures
            r == count_active_invaders(self@),
    {
        self.live
    }

    /// Whether some live invader has reached the danger line near the
    /// player.
    pub fn reached_danger_line(&self) -> (r: bool)
        ensures
            r == spec_reached_danger_line(self@),
    {
        let ghost s = self.invaders@;
        let mut i: usize = 0;
        while i < self.invaders.len()
            invariant
                self.invaders@ == s,
                i <= s.len(),
                !(exists|j: int|
                    0 <= j < i && (#[trigger] s[j]).active && s[j].pos.row >= DANGER_ROW),
            decreases s.len() - i,
        {
            let v = self.invaders[i];
            if v.active && v.pos.row >= DANGER_ROW {
                return true;
            }
            i = i + 1;
        }
        false
    }

    /// The slot of the first live invader occupying `p`, if any.
    pub fn find_first_live_at(&self, p: Position) -> (r: Option<usize>)
        ensures
            r matches Some(j) ==> j < self@.len() && first_hit_from(self@, p, 0) == j
                && self@[j as int].active && self@[j as int].pos == p,
            r is None ==> first_hit_from(self@, p, 0) == self@.len(),
    {
        let ghost s = self.invaders@;
        let n = self.invaders.len();
        let mut j: usize = 0;
        while j < n
            invariant
                self.invaders@ == s,
                n == s.len(),
                j <= n,
                first_hit_from(s, p, 0) == first_hit_from(s, p, j as int),
            decreases n - j,
        {
            let v = self.invaders[j];
            if v.active && v.pos == p {
                return Some(j);
            }
            j = j + 1;
        }
        None
    }

    /// Advances every live invader, on every `FORMATION_THROTTLE`-th tick
    /// only; all other ticks leave the formation unchanged.
    pub fn advance_all(&mut self, tick_index: u64)
        requires
            old(self).wf(),
        ensures
            final(self).wf(),
            final(self)@ == formation_ticked(old(self)@, tick_index),
            final(self).live == old(self).live,
    {
        if tick_index % FORMATION_THROTTLE != 0 {
            return ;
        }
        let ghost s = self.invaders@;
        let n = self.invaders.len();
        let mut i: usize = 0;
        while i < n
            invariant
                self.invaders@.len() == n,
                s.len() == n,
                i <= n,
                self.live == old(self).live,
                forall|k: int| 0 <= k < i ==> self.invaders@[k] == invader_step(s[k]),
                forall|k: int| i <= k < n ==> self.invaders@[k] == s[k],
                self.live == count_active_invaders(self.invaders@),
                forall|k: int|
                    0 <= k < n ==> (#[trigger] self.invaders@[k]).pos.spec_is_legal(),
            decreases n - i,
        {
            let v = self.invaders[i];
            let mut v2 = v;
            v2.increment_invader();
            proof {
                lemma_count_invaders_update(self.invaders@, i as int, v2);
            }
            self.invaders.set(i, v2);
            i = i + 1;
        }
        proof {
            assert(self.invaders@ =~= s.map_values(|v: Invaders| invader_step(v)));
        }
    }
}

} // verus!
