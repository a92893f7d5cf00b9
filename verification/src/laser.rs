//! Player projectiles and the fixed-capacity pool that owns them.

use vstd::prelude::*;
use crate::geom::Position;
use crate::{LASER_CAPACITY, LASER_TOP_ROW};

verus! {

/// A player projectile.  It moves one row toward the top of the playfield
/// per tick and deactivates when it reaches the top boundary, strikes fixed
/// cover, or strikes an invader.
#[derive(Debug, Copy, Clone, Eq, PartialEq, Structural)]
pub struct Laser {
    pub pos: Position,
    pub active: bool,
}

/// One movement tick of a laser: an active laser climbs one row, or
/// deactivates when it has reached the top boundary.  An inactive laser
/// never changes.
pub open spec fn laser_step(l: Laser) -> Laser {
    if !l.active {
        l
    } else if l.pos.row > LASER_TOP_ROW {
        Laser { pos: Position { row: (l.pos.row - 1) as i16, col: l.pos.col }, active: true }
    } else {
        Laser { pos: l.pos, active: false }
    }
}

impl Laser {
    /// A live laser at `pos`.
    pub fn new(pos: Position) -> (r: Laser)
        ensures
            r == (Laser { pos, active: true }),
    {
        Laser { pos, active: true }
    }

    /// Moves the laser one row toward the top of the playfield.
    pub fn movee(&mut self)
        requires
            i16::MIN < old(self).pos.row,
        ensures
            *final(self) == (Laser {
                pos: Position { row: (old(self).pos.row - 1) as i16, col: old(self).pos.col },
                active: old(self).active,
            }),
    {
        self.pos.row = self.pos.row - 1;
    }

    /// Retires the laser; its slot becomes reusable.
    pub fn done(&mut self)
        ensures
            *final(self) == (Laser { pos: old(self).pos, active: false }),
    {
        self.active = false;
    }

    /// One movement tick, with the top-boundary check.
    pub fn increment_laser(&mut self)
        ensures
            *final(self) == laser_step(*old(self)),
    {
        if self.active {
            if self.pos.row > LASER_TOP_ROW {
                self.movee();
            } else {
                self.done();
            }
        }
    }
}

/// How many lasers of `s` are active.
pub open spec fn count_active_lasers(s: Seq<Laser>) -> nat
    decreases s.len(),
{
    if s.len() == 0 {
        0
    } else {
        count_active_lasers(s.drop_last()) + if s.last().active {
            1nat
        } else {
            0nat
        }
    }
}

/// The count of active lasers never exceeds the slot count.
pub proof fn lemma_count_lasers_le_len(s: Seq<Laser>)
    ensures
        count_active_lasers(s) <= s.len(),
    decreases s.len(),
{
    if s.len() > 0 {
        lemma_count_lasers_le_len(s.drop_last());
    }
}

/// A slice in which every laser is active has full count.
pub proof fn lemma_count_lasers_all_active(s: Seq<Laser>)
    requires
        forall|j: int| 0 <= j < s.len() ==> s[j].active,
    ensures
        count_active_lasers(s) == s.len(),
    decreases s.len(),
{
    if s.len() > 0 {
        lemma_count_lasers_all_active(s.drop_last());
    }
}

/// How replacing one slot changes the active count.
pub proof fn lemma_count_lasers_update(s: Seq<Laser>, i: int, v: Laser)
    requires
        0 <= i < s.len(),
    ensures
        count_active_lasers(s.update(i, v)) + (if s[i].active { 1nat } else { 0nat })
            == count_active_lasers(s) + (if v.active { 1nat } else { 0nat }),
    decreases s.len(),
{
    let t = s.update(i, v);
    if i == s.len() - 1 {
        assert(t.drop_last() =~= s.drop_last());
    } else {
        assert(t.drop_last() =~= s.drop_last().update(i, v));
        lemma_count_lasers_update(s.drop_last(), i, v);
    }
}

/// The index of the first free slot, or the length when every slot is live.
pub open spec fn first_inactive_from(s: Seq<Laser>, j: int) -> int
    decreases s.len() - j,
{
    if j < 0 || j >= s.len() {
        s.len() as int
    } else if !s[j].active {
        j
    } else {
        first_inactive_from(s, j + 1)
    }
}

/// Scanning may start past a prefix of live slots.
pub proof fn lemma_first_inactive_skip(s: Seq<Laser>, i: int)
    requires
        0 <= i <= s.len(),
        forall|j: int| 0 <= j < i ==> s[j].active,
    ensures
        first_inactive_from(s, 0) == first_inactive_from(s, i),
    decreases i,
{
    if i > 0 {
        lemma_first_inactive_skip(s, i - 1);
    }
}

/// The fixed-capacity arena of laser slots.  `active_count` caches the
/// number of live slots and stays consistent with the flags after every
/// call.
#[derive(Debug, Clone, Eq, PartialEq)]
pub struct LaserPool {
    pub lasers: Vec<Laser>,
    pub active_count: usize,
}

impl View for LaserPool {
    type V = Seq<Laser>;

    open spec fn view(&self) -> Seq<Laser> {
        self.lasers@
    }
}

impl LaserPool {
    /// Every slot exists, the cached count matches the flags, and live
    /// lasers sit on the playfield.
    pub open spec fn wf(self) -> bool {
        &&& self.lasers.len() == LASER_CAPACITY
        &&& self.active_count == count_active_lasers(self.lasers@)
        &&& forall|i: int|
            0 <= i < self.lasers.len() && self.lasers@[i].active
                ==> (#[trigger] self.lasers@[i]).pos.spec_is_legal()
    }

    /// A pool of nothing but free slots.
    pub fn new() -> (r: LaserPool)
        ensures
            r.wf(),
            r.active_count == 0,
            r@.len() == LASER_CAPACITY,
            forall|i: int|
                0 <= i < LASER_CAPACITY ==> r@[i] == (Laser {
                    pos: Position { col: 0, row: 0 },
                    active: false,
                }),
    {
        let mut lasers: Vec<Laser> = Vec::new();
        while lasers.len() < LASER_CAPACITY
            invariant
                lasers.len() <= LASER_CAPACITY,
                forall|i: int|
                    0 <= i < lasers.len() ==> lasers@[i] == (Laser {
                        pos: Position { col: 0, row: 0 },
                        active: false,
                    }),
                count_active_lasers(lasers@) == 0,
            decreases LASER_CAPACITY - lasers.len(),
        {
            let slot = Laser { pos: Position { col: 0, row: 0 }, active: false };
            let ghost prev = lasers@;
            lasers.push(slot);
            proof {
                assert(lasers@.drop_last() =~= prev);
            }
        }
        LaserPool { lasers, active_count: 0 }
    }

    /// How many slots are live.
    pub fn active_count(&self) -> (r: usize)
        requires
            self.wf(),
        ensures
            r == count_active_lasers(self@),
            r == self.active_count,
    {
        self.active_count
    }

    /// Spawns a laser at `origin` in the first free slot, provided the
    /// cooldown has elapsed, the origin lies on the playfield and a slot is
    /// free.  Returns whether a shot was taken.
    pub fn try_fire(&mut self, origin: Position, cooldown_ok: bool) -> (fired: bool)
        requires
            old(self).wf(),
        ensures
            final(self).wf(),
            fired == (cooldown_ok && origin.spec_is_legal() && count_active_lasers(old(self)@)
                < LASER_CAPACITY),
            fired ==> final(self)@ == old(self)@.update(
                first_inactive_from(old(self)@, 0),
                (Laser { pos: origin, active: true }),
            ),
            fired ==> final(self).active_count == old(self).active_count + 1,
            !fired ==> *final(self) == *old(self),
    {
        if !cooldown_ok || !origin.is_legal() || self.active_count >= LASER_CAPACITY {
            proof {
                lemma_count_lasers_le_len(self.lasers@);
            }
            return false;
        }
        let ghost s = self.lasers@;
        let mut i: usize = 0;
        while i < LASER_CAPACITY
            invariant
                self.lasers@ == s,
                s == old(self)@,
                self.active_count == old(self).active_count,
                s.len() == LASER_CAPACITY,
                i <= LASER_CAPACITY,
                forall|j: int| 0 <= j < i ==> s[j].active,
                cooldown_ok,
                origin.spec_is_legal(),
                self.active_count == count_active_lasers(s),
                count_active_lasers(s) < LASER_CAPACITY,
                forall|j: int|
                    0 <= j < s.len() && s[j].active ==> (#[trigger] s[j]).pos.spec_is_legal(),
            decreases LASER_CAPACITY - i,
        {
            if !self.lasers[i].active {
                proof {
                    lemma_first_inactive_skip(s, i as int);
                    lemma_count_lasers_update(s, i as int, Laser { pos: origin, active: true });
                }
                self.lasers.set(i, Laser::new(origin));
                self.active_count = self.active_count + 1;
                return true;
            }
            i = i + 1;
        }
        proof {
            lemma_count_lasers_all_active(s);
        }
        false
    }

    /// Moves every live laser one row toward the top; lasers reaching the
    /// top boundary deactivate.
    pub fn advance_all(&mut self)
        requires
            old(self).wf(),
        ensures
            final(self).wf(),
            final(self)@ == old(self)@.map_values(|l: Laser| laser_step(l)),
    {
        let ghost s = self.lasers@;
        let mut i: usize = 0;
        while i < LASER_CAPACITY
            invariant
                self.lasers@.len() == LASER_CAPACITY,
                s.len() == LASER_CAPACITY,
                i <= LASER_CAPACITY,
                forall|k: int| 0 <= k < i ==> self.lasers@[k] == laser_step(s[k]),
                forall|k: int| i <= k < LASER_CAPACITY ==> self.lasers@[k] == s[k],
                self.active_count == count_active_lasers(self.lasers@),
                forall|k: int|
                    0 <= k < LASER_CAPACITY && self.lasers@[k].active
                        ==> (#[trigger] self.lasers@[k]).pos.spec_is_legal(),
            decreases LASER_CAPACITY - i,
        {
            let l = self.lasers[i];
            if l.active {
                let mut l2 = l;
                l2.increment_laser();
                proof {
                    lemma_count_lasers_update(self.lasers@, i as int, l2);
                }
                self.lasers.set(i, l2);
                if !l2.active {
                    self.active_count = self.active_count - 1;
                }
            }
            i = i + 1;
        }
        proof {
            assert(self.lasers@ =~= s.map_values(|l: Laser| laser_step(l)));
        }
    }
}

} // verus!
