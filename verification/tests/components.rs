//! Component-level tests: geometry, layout parsing, character movement,
//! lasers and the pool, invaders and the formation.

use space_invaders::character::Character;
use space_invaders::geom::{Dir, Position};
use space_invaders::grid::Cell;
use space_invaders::invaders::{Invaders, SpaceInvaders};
use space_invaders::laser::{Laser, LaserPool};
use space_invaders::layout::{parse_layout, LayoutError};
use space_invaders::{INVADER_CAPACITY, LASER_CAPACITY};

/// A layout text: bordered playfield, extra glyphs placed on top.
fn layout_text(markers: &[(i16, i16, u8)]) -> Vec<u8> {
    let mut rows: Vec<Vec<u8>> = (0..23)
        .map(|r| {
            if r == 0 || r == 22 {
                vec![b'#'; 80]
            } else {
                let mut row = vec![b' '; 80];
                row[0] = b'#';
                row[79] = b'#';
                row
            }
        })
        .collect();
    for &(row, col, glyph) in markers {
        rows[row as usize][col as usize] = glyph;
    }
    rows.join(&b'\n')
}

#[test]
fn position_legality() {
    assert!(Position::new(0, 0).is_legal());
    assert!(Position::new(79, 22).is_legal());
    assert!(!Position::new(80, 0).is_legal());
    assert!(!Position::new(0, 23).is_legal());
    assert!(!Position::new(-1, 5).is_legal());
    assert!(!Position::new(5, -1).is_legal());
}

#[test]
fn position_row_col() {
    let p = Position::new(7, 4);
    assert_eq!(p.row_col(), (4, 7));
}

#[test]
fn position_neighbor() {
    let p = Position::new(10, 10);
    assert_eq!(p.neighbor(Dir::N), Position::new(10, 9));
    assert_eq!(p.neighbor(Dir::S), Position::new(10, 11));
    assert_eq!(p.neighbor(Dir::E), Position::new(11, 10));
    assert_eq!(p.neighbor(Dir::W), Position::new(9, 10));
}

#[test]
fn dir_turns() {
    assert_eq!(Dir::N.reverse(), Dir::S);
    assert_eq!(Dir::E.reverse(), Dir::W);
    assert_eq!(Dir::N.left(), Dir::W);
    assert_eq!(Dir::W.left(), Dir::S);
    assert_eq!(Dir::N.right(), Dir::E);
    assert_eq!(Dir::S.right(), Dir::W);
}

#[test]
fn parse_reads_cells_and_markers() {
    let text = layout_text(&[(10, 30, b'*'), (4, 6, b'M'), (20, 40, b'A')]);
    let layout = parse_layout(&text).unwrap();
    assert_eq!(layout.grid.classify(Position::new(0, 0)), Cell::Wall);
    assert_eq!(layout.grid.classify(Position::new(30, 10)), Cell::Barricade);
    assert_eq!(layout.grid.classify(Position::new(40, 11)), Cell::Empty);
    // markers leave their cells empty
    assert_eq!(layout.grid.classify(Position::new(6, 4)), Cell::Empty);
    assert_eq!(layout.grid.classify(Position::new(40, 20)), Cell::Empty);
    assert_eq!(layout.start, Position::new(40, 20));
    assert_eq!(layout.spawns.len(), 1);
    assert_eq!(layout.spawns[0], Position::new(6, 4));
}

#[test]
fn parse_rejects_wrong_length() {
    let mut text = layout_text(&[]);
    text.pop();
    assert_eq!(parse_layout(&text), Err(LayoutError::BadShape));
    assert_eq!(parse_layout(&[]), Err(LayoutError::BadShape));
}

#[test]
fn parse_rejects_misplaced_newline() {
    let mut text = layout_text(&[]);
    // right length, but a newline where a row-joining one belongs not
    text[80] = b' ';
    text[81] = b'\n';
    assert_eq!(parse_layout(&text), Err(LayoutError::BadShape));
}

#[test]
fn parse_rejects_unknown_glyph() {
    let text = layout_text(&[(5, 5, b'X')]);
    assert_eq!(parse_layout(&text), Err(LayoutError::BadGlyph));
}

#[test]
fn parse_caps_spawns_at_capacity() {
    let mut markers = Vec::new();
    for r in 0..5 {
        for c in 0..20 {
            markers.push((2 + r as i16, 5 + c as i16, b'M'));
        }
    }
    assert_eq!(markers.len(), 100);
    let text = layout_text(&markers);
    let layout = parse_layout(&text).unwrap();
    assert_eq!(layout.spawns.len(), INVADER_CAPACITY);
    // spawns come in row-major order
    assert_eq!(layout.spawns[0], Position::new(5, 2));
    assert_eq!(layout.spawns[1], Position::new(6, 2));
}

#[test]
fn character_clamps_left_target() {
    // a target column far outside the lane still leaves the avatar inside
    let mut c = Character { col: 2, row: 20, dx: -500, active: true };
    c.advance();
    assert_eq!(c.col, 2);
}

#[test]
fn character_clamps_right_target() {
    let mut c = Character { col: 77, row: 20, dx: 500, active: true };
    c.advance();
    assert_eq!(c.col, 77);
}

#[test]
fn character_steps_one_column_per_tick() {
    let mut c = Character { col: 50, row: 20, dx: 40, active: true };
    c.advance();
    assert_eq!(c.col, 49);
    c.dx = 60;
    c.advance();
    assert_eq!(c.col, 50);
    c.dx = 50;
    c.advance();
    assert_eq!(c.col, 50);
}

#[test]
fn character_fire_origin_is_cell_above() {
    let c = Character { col: 33, row: 20, dx: 33, active: true };
    assert_eq!(c.fire_origin(), Position::new(33, 19));
}

#[test]
fn laser_deactivates_after_row_minus_one_ticks() {
    // fired at row 5: live for 4 ticks exactly, climbing one row per tick
    let mut l = Laser::new(Position::new(10, 5));
    for k in 1..=4 {
        l.increment_laser();
        if k < 4 {
            assert!(l.active, "still live after {} ticks", k);
            assert_eq!(l.pos, Position::new(10, 5 - k));
        } else {
            assert!(!l.active, "spent after {} ticks", k);
        }
    }
}

#[test]
fn laser_never_reactivates() {
    let mut l = Laser::new(Position::new(10, 3));
    l.increment_laser();
    l.increment_laser();
    assert!(!l.active);
    let spent = l;
    for _ in 0..10 {
        l.increment_laser();
        assert_eq!(l, spent);
    }
}

#[test]
fn pool_fires_into_first_free_slot() {
    let mut pool = LaserPool::new();
    assert!(pool.try_fire(Position::new(10, 19), true));
    assert_eq!(pool.active_count(), 1);
    assert!(pool.lasers[0].active);
    assert_eq!(pool.lasers[0].pos, Position::new(10, 19));
    assert!(pool.try_fire(Position::new(11, 19), true));
    assert!(pool.lasers[1].active);
}

#[test]
fn pool_refuses_without_cooldown_or_off_field() {
    let mut pool = LaserPool::new();
    assert!(!pool.try_fire(Position::new(10, 19), false));
    assert!(!pool.try_fire(Position::new(10, -1), true));
    assert_eq!(pool.active_count(), 0);
}

#[test]
fn pool_full_is_a_silent_no_op() {
    let mut pool = LaserPool::new();
    for _ in 0..LASER_CAPACITY {
        assert!(pool.try_fire(Position::new(10, 19), true));
    }
    assert_eq!(pool.active_count(), LASER_CAPACITY);
    assert!(!pool.try_fire(Position::new(10, 19), true));
    assert_eq!(pool.active_count(), LASER_CAPACITY);
}

#[test]
fn invader_drifts_right_on_even_rows() {
    let mut v = Invaders::new(Position::new(10, 4));
    v.increment_invader();
    assert_eq!(v.pos, Position::new(11, 4));
}

#[test]
fn invader_drifts_left_on_odd_rows() {
    let mut v = Invaders::new(Position::new(10, 5));
    v.increment_invader();
    assert_eq!(v.pos, Position::new(9, 5));
}

#[test]
fn invader_descends_and_reverses_at_bounds() {
    // reaching the right bound on an even row: step down, then drift left
    let mut v = Invaders::new(Position::new(78, 4));
    v.increment_invader();
    assert_eq!(v.pos, Position::new(78, 5));
    v.increment_invader();
    assert_eq!(v.pos, Position::new(77, 5));
    // reaching the left bound on an odd row: step down, then drift right
    let mut w = Invaders::new(Position::new(2, 5));
    w.increment_invader();
    assert_eq!(w.pos, Position::new(2, 6));
    w.increment_invader();
    assert_eq!(w.pos, Position::new(3, 6));
}

#[test]
fn invader_never_descends_below_bottom_row() {
    let mut v = Invaders::new(Position::new(2, 21));
    v.increment_invader();
    assert_eq!(v.pos, Position::new(2, 21));
}

#[test]
fn inactive_invader_stands_still() {
    let mut v = Invaders::new(Position::new(10, 4));
    v.active = false;
    v.increment_invader();
    assert_eq!(v.pos, Position::new(10, 4));
}

#[test]
fn formation_moves_only_on_throttled_ticks() {
    let spawns = vec![Position::new(10, 4)];
    let mut f = SpaceInvaders::new(&spawns);
    // three ticks off the cadence: the aggregate position is unchanged
    for t in 1..=3 {
        f.advance_all(t);
        assert_eq!(f.invaders[0].pos, Position::new(10, 4));
    }
    // the throttled tick moves it
    f.advance_all(4);
    assert_eq!(f.invaders[0].pos, Position::new(11, 4));
}

#[test]
fn formation_live_count_and_danger_line() {
    let spawns = vec![Position::new(10, 4), Position::new(20, 6)];
    let mut f = SpaceInvaders::new(&spawns);
    assert_eq!(f.live_count(), 2);
    assert!(!f.reached_danger_line());
    f.invaders[1] = Invaders::new(Position::new(20, 20));
    assert!(f.reached_danger_line());
    // a spent invader on the danger line does not end the game
    f.invaders[1].active = false;
    assert!(!f.reached_danger_line());
}
