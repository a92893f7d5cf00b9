//! Whole-game scenarios: firing, collisions, scoring, the status machine
//! and restarts.

use space_invaders::game::{KeyEvent, SpaceInvadersGame, Status};
use space_invaders::geom::Position;
use space_invaders::grid::Cell;
use space_invaders::invaders::SpaceInvaders;
use space_invaders::layout::LayoutError;
use space_invaders::{COOLDOWN_TICKS, KILL_BONUS, SURVIVAL_BONUS};

/// A layout text: bordered playfield, extra glyphs placed on top.
fn field(markers: &[(i16, i16, u8)]) -> Vec<u8> {
    let mut rows: Vec<Vec<u8>> = (0..23)
        .map(|r| {
            if r == 0 || r == 22 {
                vec![b'#'; 80]
            } else {
                let mut row = vec![b' '; 80];
                row[0] = b'#';
                row[79] = b'#';
                row
            }
        })
        .collect();
    for &(row, col, glyph) in markers {
        rows[row as usize][col as usize] = glyph;
    }
    rows.join(&b'\n')
}

/// A game whose cooldown is already elapsed, so the next space fires.
fn game_ready_to_fire(markers: &[(i16, i16, u8)]) -> SpaceInvadersGame {
    let mut game = SpaceInvadersGame::new(&field(markers)).unwrap();
    game.counter = COOLDOWN_TICKS;
    game
}

#[test]
fn single_invader_kill_on_exact_tick() {
    // one invader at (row 4, col 6), the player right below it at (20, 6)
    let mut game = game_ready_to_fire(&[(4, 6, b'M'), (20, 6, b'A')]);
    game.key(KeyEvent::Chr(' '));
    assert_eq!(game.pool.active_count(), 1);
    assert_eq!(game.pool.lasers[0].pos, Position::new(6, 19));

    // drive laser movement and resolution; the formation holds still
    let score_before = game.score;
    for step in 1..=15 {
        game.increment_laser();
        game.check_collision();
        if step < 15 {
            // the laser is still climbing toward row 4
            assert!(game.pool.lasers[0].active);
            assert_eq!(game.formation.live_count(), 1);
            assert_eq!(game.score, score_before);
        }
    }
    // on the tick the laser enters the invader's cell, both go inactive,
    // the live count drops to zero and the kill bonus lands exactly then
    assert!(!game.pool.lasers[0].active);
    assert!(!game.formation.invaders[0].active);
    assert_eq!(game.formation.live_count(), 0);
    assert_eq!(game.score, score_before + KILL_BONUS);
}

#[test]
fn cooldown_allows_only_one_of_two_immediate_shots() {
    let mut game = game_ready_to_fire(&[(4, 6, b'M'), (20, 6, b'A')]);
    game.key(KeyEvent::Chr(' '));
    game.key(KeyEvent::Chr(' '));
    assert_eq!(game.pool.active_count(), 1);
}

#[test]
fn no_shot_before_first_cooldown() {
    let mut game = SpaceInvadersGame::new(&field(&[(4, 6, b'M'), (20, 6, b'A')])).unwrap();
    game.key(KeyEvent::Chr(' '));
    assert_eq!(game.pool.active_count(), 0);
}

#[test]
fn restart_resets_score_status_and_formation() {
    // an invader already on the danger line ends the game on the first tick
    let markers = [(4, 10, b'M'), (4, 14, b'M'), (20, 50, b'M'), (20, 6, b'A')];
    let mut game = SpaceInvadersGame::new(&field(&markers)).unwrap();
    game.tick();
    assert_eq!(game.status, Status::Over);
    assert!(game.score > 0);

    // restart is the only effective key while over
    game.key(KeyEvent::Chr('x'));
    assert_eq!(game.status, Status::Over);
    game.key(KeyEvent::Chr('s'));
    assert_eq!(game.status, Status::Running);
    assert_eq!(game.score, 0);
    assert_eq!(game.counter, 0);
    assert_eq!(game.formation.live_count(), 3);
    assert_eq!(game.formation.invaders[0].pos, Position::new(10, 4));
    assert_eq!(game.formation.invaders[1].pos, Position::new(14, 4));
    assert_eq!(game.formation.invaders[2].pos, Position::new(50, 20));
}

#[test]
fn over_freezes_the_simulation() {
    let mut game = SpaceInvadersGame::new(&field(&[(20, 50, b'M'), (20, 6, b'A')])).unwrap();
    game.tick();
    assert_eq!(game.status, Status::Over);
    let frozen = game.clone();
    for _ in 0..5 {
        game.tick();
        game.key(KeyEvent::Left);
        game.key(KeyEvent::Chr(' '));
        assert_eq!(game, frozen);
    }
}

#[test]
fn empty_formation_ends_game_within_grace_window() {
    let mut game = game_ready_to_fire(&[(4, 6, b'M'), (20, 6, b'A')]);
    game.key(KeyEvent::Chr(' '));
    for _ in 0..15 {
        game.increment_laser();
        game.check_collision();
    }
    assert_eq!(game.formation.live_count(), 0);
    assert_eq!(game.status, Status::Running);
    // the grace window: one more running tick, then over
    game.tick();
    assert_eq!(game.status, Status::Running);
    game.tick();
    assert_eq!(game.status, Status::Over);
    game.tick();
    assert_eq!(game.status, Status::Over);
}

#[test]
fn barricade_absorbs_one_shot_and_later_shots_pass() {
    let mut game = game_ready_to_fire(&[(10, 6, b'*'), (20, 6, b'A')]);
    game.key(KeyEvent::Chr(' '));
    // nine climbs bring the laser from row 19 onto the barricade at row 10
    for _ in 0..9 {
        game.increment_laser();
        game.check_collision();
    }
    assert!(!game.pool.lasers[0].active);
    assert_eq!(game.grid.classify(Position::new(6, 10)), Cell::Empty);
    assert_eq!(game.score, 0);

    // a second laser through the emptied cell is unaffected there
    game.counter = 2 * COOLDOWN_TICKS;
    game.key(KeyEvent::Chr(' '));
    assert!(game.pool.lasers[0].active);
    for _ in 0..9 {
        game.increment_laser();
        game.check_collision();
    }
    assert!(game.pool.lasers[0].active);
    assert_eq!(game.pool.lasers[0].pos, Position::new(6, 10));
}

#[test]
fn wall_absorbs_shot_without_breaking() {
    let mut game = game_ready_to_fire(&[(10, 6, b'#'), (20, 6, b'A')]);
    game.key(KeyEvent::Chr(' '));
    for _ in 0..9 {
        game.increment_laser();
        game.check_collision();
    }
    assert!(!game.pool.lasers[0].active);
    assert_eq!(game.grid.classify(Position::new(6, 10)), Cell::Wall);
}

#[test]
fn one_laser_kills_at_most_one_invader() {
    // two invaders stacked on one cell; a single shot destroys exactly one
    let mut game = game_ready_to_fire(&[(20, 6, b'A')]);
    let stacked = vec![Position::new(6, 15), Position::new(6, 15)];
    game.formation = SpaceInvaders::new(&stacked);
    game.key(KeyEvent::Chr(' '));
    for _ in 0..4 {
        game.increment_laser();
        game.check_collision();
    }
    assert_eq!(game.formation.live_count(), 1);
    assert!(!game.formation.invaders[0].active);
    assert!(game.formation.invaders[1].active);
    assert_eq!(game.score, KILL_BONUS);
}

#[test]
fn one_invader_taken_by_at_most_one_laser() {
    // two lasers on one path, one invader: one kill, one pass-through
    let mut game = game_ready_to_fire(&[(15, 6, b'M'), (20, 6, b'A')]);
    game.key(KeyEvent::Chr(' '));
    game.counter = 2 * COOLDOWN_TICKS;
    game.key(KeyEvent::Chr(' '));
    assert_eq!(game.pool.active_count(), 2);
    for _ in 0..4 {
        game.increment_laser();
        game.check_collision();
    }
    assert_eq!(game.formation.live_count(), 0);
    assert_eq!(game.score, KILL_BONUS);
    assert!(!game.pool.lasers[0].active);
    assert!(game.pool.lasers[1].active);
}

#[test]
fn survival_score_accrues_per_running_tick() {
    let mut game = SpaceInvadersGame::new(&field(&[(4, 40, b'M'), (20, 6, b'A')])).unwrap();
    for _ in 0..5 {
        game.tick();
    }
    assert_eq!(game.score, 5 * SURVIVAL_BONUS);
    assert_eq!(game.counter, 5);
}

#[test]
fn steering_keys_move_the_avatar_one_column_per_tick() {
    let mut game = SpaceInvadersGame::new(&field(&[(4, 40, b'M'), (20, 30, b'A')])).unwrap();
    assert_eq!(game.character.col, 30);
    game.key(KeyEvent::Right);
    game.key(KeyEvent::Right);
    game.tick();
    assert_eq!(game.character.col, 31);
    game.tick();
    assert_eq!(game.character.col, 32);
    game.tick();
    assert_eq!(game.character.col, 32);
    game.key(KeyEvent::Left);
    game.tick();
    assert_eq!(game.character.col, 31);
}

#[test]
fn formation_cadence_in_a_running_game() {
    let mut game = SpaceInvadersGame::new(&field(&[(4, 40, b'M'), (20, 6, b'A')])).unwrap();
    // tick 0 is throttled: the formation advances at once
    game.tick();
    assert_eq!(game.formation.invaders[0].pos, Position::new(41, 4));
    // the next three ticks leave it in place
    for _ in 0..3 {
        game.tick();
        assert_eq!(game.formation.invaders[0].pos, Position::new(41, 4));
    }
    // the fourth moves it again
    game.tick();
    assert_eq!(game.formation.invaders[0].pos, Position::new(42, 4));
}

#[test]
fn construction_refuses_malformed_layout() {
    assert_eq!(
        SpaceInvadersGame::new(b"too short").unwrap_err(),
        LayoutError::BadShape
    );
    let mut text = field(&[]);
    text[100] = b'Q';
    assert_eq!(SpaceInvadersGame::new(&text).unwrap_err(), LayoutError::BadGlyph);
}

#[test]
fn redundant_reset_is_safe_and_idempotent() {
    let mut game = SpaceInvadersGame::new(&field(&[(4, 6, b'M'), (20, 6, b'A')])).unwrap();
    game.tick();
    game.reset();
    let once = game.clone();
    game.reset();
    assert_eq!(game, once);
    assert_eq!(game.score, 0);
    assert_eq!(game.status, Status::Running);
}
