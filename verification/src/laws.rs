//! The laws of the simulation, stated and proved once for all inputs:
//! movement clamping, the laser lifecycle, barricade absorption, collision
//! exclusivity, the formation cadence and the status transition.

use vstd::prelude::*;
use crate::character::{char_step, Character};
use crate::game::{game_step, resolve_all, resolve_one, resolve_upto, GameModel, ResolveState, Status};
use crate::geom::Position;
use crate::grid::{cell_index, Cell};
use crate::invaders::{
    at_blocking_bound, count_active_invaders, first_hit_from, formation_ticked, invader_step,
    lemma_count_invaders_update, spec_reached_danger_line, Invaders,
};
use crate::laser::{laser_step, Laser};
use crate::{
    FORMATION_THROTTLE, HEIGHT, INVADER_BOTTOM_ROW, LASER_TOP_ROW, PLAYER_MAX_COL, PLAYER_MIN_COL,
    WIDTH,
};

verus! {

/// Movement clamping: whatever column the player steers toward, one
/// movement tick leaves the avatar inside its lane.
pub proof fn lemma_movement_clamping(c: Character)
    ensures
        PLAYER_MIN_COL <= char_step(c).col <= PLAYER_MAX_COL,
{
}

/// A laser after `k` movement ticks.
pub open spec fn laser_after(l: Laser, k: nat) -> Laser
    decreases k,
{
    if k == 0 {
        l
    } else {
        laser_step(laser_after(l, (k - 1) as nat))
    }
}

/// Laser lifecycle: a laser fired at row `R` stays live, climbing one row
/// per tick, for `R - 2` ticks, and deactivates on the tick numbered
/// `R - 1`, having reached the top boundary.
pub proof fn lemma_laser_lifecycle(l: Laser, k: nat)
    requires
        l.active,
        l.pos.row >= LASER_TOP_ROW,
    ensures
        k < l.pos.row - 1 ==> laser_after(l, k).active && laser_after(l, k).pos == (Position {
            row: (l.pos.row - k) as i16,
            col: l.pos.col,
        }),
        k >= l.pos.row - 1 ==> !laser_after(l, k).active,
    decreases k,
{
    if k > 0 {
        lemma_laser_lifecycle(l, (k - 1) as nat);
    }
}

/// Laser lifecycle, second half: a laser never reports active again after
/// deactivation, no matter how many further ticks pass.
pub proof fn lemma_laser_stays_inactive(l: Laser, k: nat)
    requires
        !l.active,
    ensures
        laser_after(l, k) == l,
    decreases k,
{
    if k > 0 {
        lemma_laser_stays_inactive(l, (k - 1) as nat);
    }
}

/// Whether one movement step actually displaces the invader: it does
/// unless the invader is pinned on a blocking lateral bound at the bottom
/// row.
pub open spec fn invader_can_move(v: Invaders) -> bool {
    at_blocking_bound(v) ==> v.pos.row < INVADER_BOTTOM_ROW
}

/// Formation cadence, still half: on a tick whose index is no multiple of
/// the throttle, the formation's aggregate position is unchanged.
pub proof fn lemma_formation_cadence_still(s: Seq<Invaders>, t: u64)
    requires
        t % FORMATION_THROTTLE != 0,
    ensures
        formation_ticked(s, t) == s,
{
}

/// Formation cadence, moving half: on a throttled tick a formation with
/// some live, unpinned invader changes.
pub proof fn lemma_formation_cadence_moves(s: Seq<Invaders>, t: u64)
    requires
        t % FORMATION_THROTTLE == 0,
        exists|j: int|
            0 <= j < s.len() && (#[trigger] s[j]).active && invader_can_move(s[j]),
    ensures
        formation_ticked(s, t) != s,
{
    let j = choose|j: int|
        0 <= j < s.len() && (#[trigger] s[j]).active && invader_can_move(s[j]);
    assert(formation_ticked(s, t)[j] == invader_step(s[j]));
    assert(invader_step(s[j]) != s[j]);
}

/// Formation cadence, whole window: after a throttled tick the formation
/// stands still for the next `FORMATION_THROTTLE - 1` ticks.
pub proof fn lemma_formation_cadence_window(s: Seq<Invaders>, t: u64, d: u64)
    requires
        t % FORMATION_THROTTLE == 0,
        0 < d < FORMATION_THROTTLE,
        t + d <= u64::MAX,
    ensures
        formation_ticked(s, (t + d) as u64) == s,
{
    assert((t + d) % (FORMATION_THROTTLE as int) == d as int) by (nonlinear_arith)
        requires
            t % FORMATION_THROTTLE == 0,
            0 < d < FORMATION_THROTTLE,
            FORMATION_THROTTLE == 4,
    ;
    assert(((t + d) as u64) % FORMATION_THROTTLE != 0);
}

/// Two positions on the playfield with the same flat index are the same
/// position.
pub proof fn lemma_cell_index_injective(p: Position, q: Position)
    requires
        p.spec_is_legal(),
        q.spec_is_legal(),
        cell_index(p) == cell_index(q),
    ensures
        p == q,
{
    assert(p.row == q.row && p.col == q.col) by (nonlinear_arith)
        requires
            0 <= p.col < WIDTH,
            0 <= q.col < WIDTH,
            p.row * WIDTH + p.col == q.row * WIDTH + q.col,
    ;
}

/// When no live invader from slot `j` on occupies `p`, the scan reports
/// the slot count.
pub proof fn lemma_first_hit_none(inv: Seq<Invaders>, p: Position, j: int)
    requires
        0 <= j <= inv.len(),
        forall|k: int| j <= k < inv.len() ==> !((#[trigger] inv[k]).active && inv[k].pos == p),
    ensures
        first_hit_from(inv, p, j) == inv.len(),
    decreases inv.len() - j,
{
    if j < inv.len() {
        lemma_first_hit_none(inv, p, j + 1);
    }
}

/// What a successful scan reports: the slot holds a live invader at `p`
/// and no earlier slot from `j` on does.
pub proof fn lemma_first_hit_found(inv: Seq<Invaders>, p: Position, j: int)
    requires
        0 <= j <= inv.len(),
    ensures
        j <= first_hit_from(inv, p, j) <= inv.len(),
        first_hit_from(inv, p, j) < inv.len() ==> {
            let h = first_hit_from(inv, p, j);
            inv[h].active && inv[h].pos == p
        },
    decreases inv.len() - j,
{
    if j < inv.len() && !(inv[j].active && inv[j].pos == p) {
        lemma_first_hit_found(inv, p, j + 1);
    }
}

/// A resolve state whose live lasers sit on a complete playfield grid.
pub open spec fn resolve_state_ok(s: ResolveState) -> bool {
    &&& s.cells.len() == WIDTH * HEIGHT
    &&& forall|k: int|
        0 <= k < s.lasers.len() && (#[trigger] s.lasers[k]).active
            ==> s.lasers[k].pos.spec_is_legal()
}

/// What one resolution step can and cannot do: it leaves every other laser
/// slot alone, never moves or revives anything, and only ever turns a
/// barricade cell into an empty one.
pub proof fn lemma_resolve_one_frame(s: ResolveState, i: int)
    requires
        0 <= i < s.lasers.len(),
        resolve_state_ok(s),
    ensures
        resolve_state_ok(resolve_one(s, i)),
        resolve_one(s, i).lasers.len() == s.lasers.len(),
        resolve_one(s, i).invaders.len() == s.invaders.len(),
        resolve_one(s, i).cells.len() == s.cells.len(),
        forall|k: int|
            0 <= k < s.lasers.len() && k != i ==> resolve_one(s, i).lasers[k] == s.lasers[k],
        resolve_one(s, i).lasers[i].pos == s.lasers[i].pos,
        resolve_one(s, i).lasers[i].active ==> s.lasers[i].active,
        forall|k: int|
            0 <= k < s.invaders.len() ==> (#[trigger] resolve_one(s, i).invaders[k]).pos
                == s.invaders[k].pos && (resolve_one(s, i).invaders[k].active
                ==> s.invaders[k].active),
        forall|c: int|
            0 <= c < s.cells.len() ==> (#[trigger] resolve_one(s, i).cells[c]) == s.cells[c] || (
            s.cells[c] == Cell::Barricade && resolve_one(s, i).cells[c] == Cell::Empty),
        s.kills <= resolve_one(s, i).kills <= s.kills + 1,
{
    if s.lasers[i].active && s.cells[cell_index(s.lasers[i].pos)] != Cell::Barricade
        && s.cells[cell_index(s.lasers[i].pos)] != Cell::Wall {
        lemma_first_hit_found(s.invaders, s.lasers[i].pos, 0);
    }
}

/// The frame of a whole resolution prefix: slots not yet processed are
/// untouched, nothing moves or revives, and cells change only from
/// barricade to empty.
pub proof fn lemma_resolve_upto_frame(s: ResolveState, n: int)
    requires
        0 <= n <= s.lasers.len(),
        resolve_state_ok(s),
    ensures
        resolve_state_ok(resolve_upto(s, n)),
        resolve_upto(s, n).lasers.len() == s.lasers.len(),
        resolve_upto(s, n).invaders.len() == s.invaders.len(),
        resolve_upto(s, n).cells.len() == s.cells.len(),
        forall|k: int|
            n <= k < s.lasers.len() ==> (#[trigger] resolve_upto(s, n).lasers[k]) == s.lasers[k],
        forall|k: int|
            0 <= k < s.lasers.len() ==> (#[trigger] resolve_upto(s, n).lasers[k]).pos
                == s.lasers[k].pos && (resolve_upto(s, n).lasers[k].active
                ==> s.lasers[k].active),
        forall|k: int|
            0 <= k < s.invaders.len() ==> (#[trigger] resolve_upto(s, n).invaders[k]).pos
                == s.invaders[k].pos && (resolve_upto(s, n).invaders[k].active
                ==> s.invaders[k].active),
        forall|c: int|
            0 <= c < s.cells.len() ==> (#[trigger] resolve_upto(s, n).cells[c]) == s.cells[c] || (
            s.cells[c] == Cell::Barricade && resolve_upto(s, n).cells[c] == Cell::Empty),
        s.kills <= resolve_upto(s, n).kills <= s.kills + n,
    decreases n,
{
    if n > 0 {
        lemma_resolve_upto_frame(s, n - 1);
        lemma_resolve_one_frame(resolve_upto(s, n - 1), n - 1);
    }
}

/// The walk behind barricade absorption: until laser `i` is processed its
/// slot and its barricade cell are untouched; from the step that processes
/// it on, the laser is spent and the cell empty.
proof fn lemma_barricade_walk(s: ResolveState, i: int, n: int)
    requires
        resolve_state_ok(s),
        0 <= i < s.lasers.len(),
        0 <= n <= s.lasers.len(),
        s.lasers[i].active,
        s.cells[cell_index(s.lasers[i].pos)] == Cell::Barricade,
        forall|k: int|
            0 <= k < i ==> !((#[trigger] s.lasers[k]).active && s.lasers[k].pos
                == s.lasers[i].pos),
    ensures
        n <= i ==> resolve_upto(s, n).lasers[i] == s.lasers[i]
            && resolve_upto(s, n).cells[cell_index(s.lasers[i].pos)] == Cell::Barricade,
        n > i ==> !resolve_upto(s, n).lasers[i].active
            && resolve_upto(s, n).cells[cell_index(s.lasers[i].pos)] == Cell::Empty,
    decreases n,
{
    let ci = cell_index(s.lasers[i].pos);
    if n > 0 {
        lemma_barricade_walk(s, i, n - 1);
        let r = resolve_upto(s, n - 1);
        lemma_resolve_upto_frame(s, n - 1);
        lemma_resolve_one_frame(r, n - 1);
        if n - 1 < i {
            // The processed laser, if live, sits at another legal position,
            // so any cell it destroys has another flat index.
            if r.lasers[n - 1].active && r.cells[cell_index(r.lasers[n - 1].pos)]
                == Cell::Barricade {
                if cell_index(r.lasers[n - 1].pos) == ci {
                    lemma_cell_index_injective(r.lasers[n - 1].pos, s.lasers[i].pos);
                }
            }
        } else if n - 1 == i {
            assert(r.lasers[i] == s.lasers[i]);
            assert(r.cells[ci] == Cell::Barricade);
        } else {
            // Laser `i` is already spent and its cell empty; an empty cell
            // is never rewritten, and slot `i` is not processed again.
            if r.lasers[n - 1].active && r.cells[cell_index(r.lasers[n - 1].pos)]
                == Cell::Barricade {
                assert(cell_index(r.lasers[n - 1].pos) != ci);
            }
        }
    }
}

/// Barricade absorption: a laser on a barricade cell, with no earlier live
/// laser sharing the cell, is spent by the resolution pass, and the cell
/// is empty afterward, so later shots pass through it unhindered.
pub proof fn lemma_barricade_absorption(s: ResolveState, i: int)
    requires
        resolve_state_ok(s),
        0 <= i < s.lasers.len(),
        s.lasers[i].active,
        s.cells[cell_index(s.lasers[i].pos)] == Cell::Barricade,
        forall|k: int|
            0 <= k < i ==> !((#[trigger] s.lasers[k]).active && s.lasers[k].pos
                == s.lasers[i].pos),
    ensures
        !resolve_all(s).lasers[i].active,
        resolve_all(s).cells[cell_index(s.lasers[i].pos)] == Cell::Empty,
{
    lemma_barricade_walk(s, i, s.lasers.len() as int);
}

/// A laser over an empty cell with no live invader on its position is
/// unaffected by the whole resolution pass: an emptied barricade cell
/// obstructs nothing.
pub proof fn lemma_laser_passes_empty_cell(s: ResolveState, i: int, n: int)
    requires
        resolve_state_ok(s),
        0 <= i < s.lasers.len(),
        0 <= n <= s.lasers.len(),
        s.lasers[i].active,
        s.cells[cell_index(s.lasers[i].pos)] == Cell::Empty,
        forall|j: int|
            0 <= j < s.invaders.len() ==> !((#[trigger] s.invaders[j]).active && s.invaders[j].pos
                == s.lasers[i].pos),
    ensures
        resolve_upto(s, n).lasers[i] == s.lasers[i],
        resolve_upto(s, n).cells[cell_index(s.lasers[i].pos)] == Cell::Empty,
    decreases n,
{
    let ci = cell_index(s.lasers[i].pos);
    if n > 0 {
        lemma_laser_passes_empty_cell(s, i, n - 1);
        let r = resolve_upto(s, n - 1);
        lemma_resolve_upto_frame(s, n - 1);
        lemma_resolve_one_frame(r, n - 1);
        if r.lasers[n - 1].active && r.cells[cell_index(r.lasers[n - 1].pos)]
            == Cell::Barricade {
            assert(cell_index(r.lasers[n - 1].pos) != ci);
        }
        if n - 1 == i {
            // No live invader occupies the laser's cell, so the scan finds
            // nothing and the step changes nothing.
            assert forall|j: int| 0 <= j < r.invaders.len() implies !((#[trigger] r.invaders[j]).active
                && r.invaders[j].pos == s.lasers[i].pos) by {}
            lemma_first_hit_none(r.invaders, s.lasers[i].pos, 0);
        }
    }
}

/// The accounting of one resolution step: a laser destroys at most one
/// invader, a destroyed invader is counted exactly once, and a laser that
/// scores is itself spent.
pub proof fn lemma_laser_kills_at_most_one(s: ResolveState, i: int)
    requires
        0 <= i < s.lasers.len(),
    ensures
        count_active_invaders(resolve_one(s, i).invaders) + resolve_one(s, i).kills
            == count_active_invaders(s.invaders) + s.kills,
        s.kills <= resolve_one(s, i).kills <= s.kills + 1,
        resolve_one(s, i).kills > s.kills ==> s.lasers[i].active
            && !resolve_one(s, i).lasers[i].active,
{
    let l = s.lasers[i];
    if l.active {
        let ci = cell_index(l.pos);
        if s.cells[ci] != Cell::Barricade && s.cells[ci] != Cell::Wall {
            lemma_first_hit_found(s.invaders, l.pos, 0);
            let j = first_hit_from(s.invaders, l.pos, 0);
            if j < s.invaders.len() {
                lemma_count_invaders_update(
                    s.invaders,
                    j,
                    Invaders { pos: s.invaders[j].pos, active: false },
                );
            }
        }
    }
}

/// A resolution prefix never adds or removes laser or invader slots.
pub proof fn lemma_resolve_lengths(s: ResolveState, n: int)
    requires
        0 <= n <= s.lasers.len(),
    ensures
        resolve_upto(s, n).lasers.len() == s.lasers.len(),
        resolve_upto(s, n).invaders.len() == s.invaders.len(),
    decreases n,
{
    if n > 0 {
        lemma_resolve_lengths(s, n - 1);
        let r = resolve_upto(s, n - 1);
        if 0 <= n - 1 < r.lasers.len() {
            lemma_first_hit_found(r.invaders, r.lasers[n - 1].pos, 0);
        }
    }
}

/// Collision exclusivity over a whole pass: every kill counted pairs with
/// exactly one invader going inactive, so the score bonus can never
/// double-count a laser or an invader.
pub proof fn lemma_collision_exclusivity(s: ResolveState, n: int)
    requires
        0 <= n <= s.lasers.len(),
    ensures
        count_active_invaders(resolve_upto(s, n).invaders) + resolve_upto(s, n).kills
            == count_active_invaders(s.invaders) + s.kills,
        s.kills <= resolve_upto(s, n).kills <= s.kills + n,
    decreases n,
{
    if n > 0 {
        lemma_collision_exclusivity(s, n - 1);
        lemma_resolve_lengths(s, n - 1);
        lemma_laser_kills_at_most_one(resolve_upto(s, n - 1), n - 1);
    }
}

/// A formation with live count zero has no live invader.
pub proof fn lemma_count_invaders_zero(s: Seq<Invaders>)
    requires
        count_active_invaders(s) == 0,
    ensures
        forall|j: int| 0 <= j < s.len() ==> !(#[trigger] s[j]).active,
    decreases s.len(),
{
    if s.len() > 0 {
        lemma_count_invaders_zero(s.drop_last());
        assert forall|j: int| 0 <= j < s.len() implies !(#[trigger] s[j]).active by {
            if j < s.len() - 1 {
                assert(s.drop_last()[j] == s[j]);
            }
        }
    }
}

/// A resolution pass over a dead formation destroys nothing.
pub proof fn lemma_dead_formation_resolve(s: ResolveState, n: int)
    requires
        0 <= n <= s.lasers.len(),
        forall|j: int| 0 <= j < s.invaders.len() ==> !(#[trigger] s.invaders[j]).active,
    ensures
        resolve_upto(s, n).invaders == s.invaders,
        resolve_upto(s, n).kills == s.kills,
    decreases n,
{
    if n > 0 {
        lemma_dead_formation_resolve(s, n - 1);
        lemma_resolve_lengths(s, n - 1);
        let r = resolve_upto(s, n - 1);
        if 0 <= n - 1 < r.lasers.len() {
            lemma_first_hit_none(r.invaders, r.lasers[n - 1].pos, 0);
        }
    }
}

/// A dead formation never moves, throttled tick or not.
pub proof fn lemma_dead_formation_ticked(s: Seq<Invaders>, t: u64)
    requires
        forall|j: int| 0 <= j < s.len() ==> !(#[trigger] s[j]).active,
    ensures
        formation_ticked(s, t) == s,
{
    assert(s.map_values(|v: Invaders| invader_step(v)) =~= s);
}

/// While over, a tick changes nothing at all: the simulation is frozen
/// until a restart event.
pub proof fn lemma_over_frozen(m: GameModel)
    requires
        m.status is Over,
    ensures
        game_step(m) == m,
{
}

/// One running tick over a dead formation: nothing is destroyed or
/// revived, the grace counter comes out positive, and the status flips to
/// over exactly when the grace window has already been consumed.
pub proof fn lemma_dead_formation_tick(m: GameModel)
    requires
        m.status is Running,
        count_active_invaders(m.invaders) == 0,
    ensures
        game_step(m).invaders == m.invaders,
        count_active_invaders(game_step(m).invaders) == 0,
        game_step(m).grace >= 1,
        game_step(m).status == (if m.grace >= 1 {
            Status::Over
        } else {
            Status::Running
        }),
{
    lemma_count_invaders_zero(m.invaders);
    let stepped = GameModel {
        character: char_step(m.character),
        lasers: m.lasers.map_values(|l: Laser| laser_step(l)),
        ..m
    };
    let s0 = ResolveState {
        cells: stepped.cells,
        lasers: stepped.lasers,
        invaders: stepped.invaders,
        kills: 0,
    };
    lemma_dead_formation_resolve(s0, s0.lasers.len() as int);
    lemma_dead_formation_ticked(m.invaders, m.counter);
    assert(!spec_reached_danger_line(m.invaders));
}

/// Status transition: once the live invader count reaches zero, the game
/// is over within two ticks — the one-tick grace window lets the final
/// kill render — and stays over from then on.
pub proof fn lemma_status_transition(m: GameModel)
    requires
        m.status is Running,
        count_active_invaders(m.invaders) == 0,
    ensures
        m.grace >= 1 ==> game_step(m).status is Over,
        game_step(game_step(m)).status is Over,
{
    lemma_dead_formation_tick(m);
    let m2 = game_step(m);
    if m2.status is Over {
        lemma_over_frozen(m2);
    } else {
        lemma_dead_formation_tick(m2);
    }
}

} // verus!
