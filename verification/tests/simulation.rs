use pong::components::{GameState, Score, Velocity, WindowSize};
use pong::input::{InputConfig, Key, KeyState};
use pong::math::Vec2;
use pong::world::{
    apply_velocity, check_collisions, move_paddle, rotate_paddle, tick,
    update_shape_transforms, World,
};

fn window() -> WindowSize {
    WindowSize { width: 1280, height: 720 }
}

#[test]
fn key_bindings() {
    let l = InputConfig::left();
    assert_eq!(l.right, Key::D);
    assert_eq!(l.left, Key::A);
    assert_eq!(l.up, Key::W);
    assert_eq!(l.down, Key::S);
    assert_eq!(l.rot_1, Key::Q);
    assert_eq!(l.rot_2, Key::E);
    let r = InputConfig::right();
    assert_eq!(r.right, Key::Right);
    assert_eq!(r.left, Key::Left);
    assert_eq!(r.up, Key::Up);
    assert_eq!(r.down, Key::Down);
    assert_eq!(r.rot_1, Key::Comma);
    assert_eq!(r.rot_2, Key::Period);
}

#[test]
fn key_state_polling() {
    let mut keys = KeyState::none();
    assert!(!keys.pressed(Key::W));
    keys.press(Key::W);
    keys.press(Key::Q);
    assert!(keys.pressed(Key::W));
    assert!(keys.pressed(Key::Q));
    assert!(!keys.pressed(Key::S));
}

#[test]
fn fresh_world_layout() {
    let w = World::new(&window());
    assert_eq!(w.state, GameState::Menu);
    assert_eq!(w.score, Score { left: 0, right: 0 });
    assert_eq!(w.ball.velocity.0, Vec2 { x: 1000, y: 0 });
    assert_eq!(w.ball.speed.0, 500);
    assert_eq!(w.ball.transform.translation, Vec2 { x: 0, y: 0 });
    assert_eq!(w.ball.transform.facing, Vec2 { x: 707, y: 707 });
    assert_eq!(w.paddles.len(), 2);
    assert_eq!(
        w.paddles[0].transform.translation,
        Vec2 { x: -610_000, y: 0 }
    );
    assert_eq!(w.paddles[0].transform.facing, Vec2 { x: 0, y: -1000 });
    assert_eq!(
        w.paddles[1].transform.translation,
        Vec2 { x: 610_000, y: 0 }
    );
    assert_eq!(w.paddles[1].transform.facing, Vec2 { x: 0, y: 1000 });
    assert_eq!(w.walls.len(), 4);
    assert_eq!(w.walls[0].transform.translation, Vec2 { x: -630_000, y: 0 });
    assert_eq!(w.walls[1].transform.translation, Vec2 { x: 630_000, y: 0 });
    assert_eq!(w.walls[2].transform.translation, Vec2 { x: 0, y: 350_000 });
    assert_eq!(w.walls[3].transform.translation, Vec2 { x: 0, y: -350_000 });
    assert_eq!(w.walls[0].size, Vec2 { x: 10_000, y: 710_000 });
    assert_eq!(w.walls[2].size, Vec2 { x: 1_270_000, y: 10_000 });
}

#[test]
fn one_tick_of_integration() {
    // A ball at the origin with direction (1, 0) and speed 500 moves
    // 8 units in 16 milliseconds.
    let mut w = World::new(&window());
    apply_velocity(&mut w, 16);
    assert_eq!(w.ball.transform.translation, Vec2 { x: 8000, y: 0 });
}

#[test]
fn integration_scales_with_dt() {
    let mut w = World::new(&window());
    apply_velocity(&mut w, 0);
    assert_eq!(w.ball.transform.translation, Vec2 { x: 0, y: 0 });
    apply_velocity(&mut w, 1000);
    assert_eq!(w.ball.transform.translation, Vec2 { x: 500_000, y: 0 });
}

#[test]
fn no_keys_means_zero_velocity() {
    let mut w = World::new(&window());
    let keys = KeyState::none();
    move_paddle(&mut w, &keys);
    assert_eq!(w.paddles[0].velocity.0, Vec2 { x: 0, y: 0 });
    assert_eq!(w.paddles[1].velocity.0, Vec2 { x: 0, y: 0 });
}

#[test]
fn cancelling_keys_mean_zero_velocity() {
    let mut w = World::new(&window());
    let mut keys = KeyState::none();
    keys.press(Key::A);
    keys.press(Key::D);
    move_paddle(&mut w, &keys);
    assert_eq!(w.paddles[0].velocity.0, Vec2 { x: 0, y: 0 });
}

#[test]
fn movement_follows_the_facing() {
    // The left paddle faces straight down, so its "right" key D moves it
    // down, and its "up" key W moves it toward positive x.
    let mut w = World::new(&window());
    let mut keys = KeyState::none();
    keys.press(Key::D);
    move_paddle(&mut w, &keys);
    assert_eq!(w.paddles[0].velocity.0, Vec2 { x: 0, y: -1000 });
    let mut keys = KeyState::none();
    keys.press(Key::W);
    move_paddle(&mut w, &keys);
    assert_eq!(w.paddles[0].velocity.0, Vec2 { x: 1000, y: 0 });
}

#[test]
fn diagonal_movement_is_near_unit() {
    let mut w = World::new(&window());
    w.paddles[0].transform.facing = Vec2 { x: 1000, y: 0 };
    let mut keys = KeyState::none();
    keys.press(Key::D);
    keys.press(Key::W);
    move_paddle(&mut w, &keys);
    // (1000, 1000) re-normalized: 1_000_000 / isqrt(2_000_000) = 707.
    assert_eq!(w.paddles[0].velocity.0, Vec2 { x: 707, y: 707 });
}

#[test]
fn rotation_turns_the_facing() {
    let mut w = World::new(&window());
    let mut keys = KeyState::none();
    keys.press(Key::Q);
    rotate_paddle(&mut w, &keys, 100);
    // The left paddle's facing (0, -1000) times the rotor (1000, 200),
    // normalized: isqrt(1_040_000_000_000) = 1_019_803.
    assert_eq!(w.paddles[0].transform.facing, Vec2 { x: 196, y: -980 });
    assert_eq!(w.paddles[1].transform.facing, Vec2 { x: 0, y: 1000 });
}

#[test]
fn rotation_without_keys_changes_nothing() {
    let mut w = World::new(&window());
    let keys = KeyState::none();
    let before = w.paddles[0].transform.facing;
    rotate_paddle(&mut w, &keys, 100);
    assert_eq!(w.paddles[0].transform.facing, before);
}

#[test]
fn left_wall_contact_scores_for_the_right() {
    let mut w = World::new(&window());
    w.state = GameState::InGame;
    w.ball.transform.translation = Vec2 { x: -630_000, y: 0 };
    w.ball.changed = true;
    update_shape_transforms(&mut w);
    check_collisions(&mut w);
    assert_eq!(w.score, Score { left: 0, right: 1 });
    assert_eq!(w.ball.transform.translation, Vec2 { x: 0, y: 0 });
    assert_eq!(w.ball.transform.facing, Vec2 { x: 707, y: 707 });
    assert_eq!(w.ball.velocity.0, Vec2 { x: 707, y: 707 });
    assert_eq!(w.state, GameState::InGame);
}

#[test]
fn right_wall_contact_scores_for_the_left() {
    let mut w = World::new(&window());
    w.state = GameState::InGame;
    w.ball.transform.translation = Vec2 { x: 630_000, y: 0 };
    w.ball.changed = true;
    update_shape_transforms(&mut w);
    check_collisions(&mut w);
    assert_eq!(w.score, Score { left: 1, right: 0 });
    assert_eq!(w.ball.transform.translation, Vec2 { x: 0, y: 0 });
}

#[test]
fn fifth_point_ends_the_game() {
    let mut w = World::new(&window());
    w.state = GameState::InGame;
    w.score = Score { left: 0, right: 4 };
    w.ball.transform.translation = Vec2 { x: -630_000, y: 0 };
    w.ball.changed = true;
    update_shape_transforms(&mut w);
    check_collisions(&mut w);
    assert_eq!(w.score, Score { left: 0, right: 5 });
    assert_eq!(w.state, GameState::Menu);
}

#[test]
fn top_wall_flips_upward_motion_once() {
    let mut w = World::new(&window());
    w.state = GameState::InGame;
    w.ball.transform.translation = Vec2 { x: 0, y: 350_000 };
    w.ball.velocity = Velocity(Vec2 { x: 600, y: 800 });
    w.ball.changed = true;
    update_shape_transforms(&mut w);
    check_collisions(&mut w);
    // The vertical component flips, the horizontal stays.
    assert_eq!(w.ball.velocity.0, Vec2 { x: 600, y: -800 });
    // A second test in the same overlap does not flip it back.
    check_collisions(&mut w);
    assert_eq!(w.ball.velocity.0, Vec2 { x: 600, y: -800 });
}

#[test]
fn paddle_contact_redirects_from_the_center() {
    let mut w = World::new(&window());
    w.state = GameState::InGame;
    w.ball.transform.translation = Vec2 { x: -610_000, y: 30_000 };
    w.ball.changed = true;
    update_shape_transforms(&mut w);
    check_collisions(&mut w);
    assert_eq!(w.ball.velocity.0, Vec2 { x: 0, y: 1000 });
    // A paddle bounce only redirects: score and transform are untouched.
    assert_eq!(w.score, Score { left: 0, right: 0 });
    assert_eq!(w.ball.transform.translation, Vec2 { x: -610_000, y: 30_000 });
    assert_eq!(w.state, GameState::InGame);
}

#[test]
fn near_center_paddle_contact_stays_unit() {
    // Even one milli-unit from the paddle's center the bounce direction
    // is a unit vector, not an inflated one.
    let mut w = World::new(&window());
    w.state = GameState::InGame;
    w.ball.transform.translation = Vec2 { x: -609_999, y: 1 };
    w.ball.changed = true;
    update_shape_transforms(&mut w);
    check_collisions(&mut w);
    assert_eq!(w.ball.velocity.0, Vec2 { x: 707, y: 707 });
}

#[test]
fn start_key_begins_a_game_and_zeroes_the_score() {
    let mut w = World::new(&window());
    w.score = Score { left: 3, right: 2 };
    let mut keys = KeyState::none();
    keys.press(Key::Return);
    tick(&mut w, &keys, 16);
    assert_eq!(w.state, GameState::InGame);
    assert_eq!(w.score, Score { left: 0, right: 0 });
}

#[test]
fn menu_without_start_key_is_quiet() {
    let mut w = World::new(&window());
    let keys = KeyState::none();
    tick(&mut w, &keys, 16);
    assert_eq!(w.state, GameState::Menu);
    assert_eq!(w.ball.transform.translation, Vec2 { x: 0, y: 0 });
}

#[test]
fn in_game_tick_moves_the_ball() {
    let mut w = World::new(&window());
    let mut keys = KeyState::none();
    keys.press(Key::Return);
    tick(&mut w, &keys, 16);
    let keys = KeyState::none();
    tick(&mut w, &keys, 16);
    assert_eq!(w.ball.transform.translation, Vec2 { x: 8000, y: 0 });
}

#[test]
fn shape_sync_runs_only_on_changed_transforms() {
    let mut w = World::new(&window());
    update_shape_transforms(&mut w);
    assert!(!w.ball.changed);
    assert!(!w.walls[0].changed);
    let before = w.ball.shape;
    // An untouched entity keeps its rectangle; a moved one gets it
    // re-derived from the new transform.
    update_shape_transforms(&mut w);
    assert_eq!(w.ball.shape, before);
    w.ball.transform.translation = Vec2 { x: 4000, y: 2000 };
    w.ball.changed = true;
    update_shape_transforms(&mut w);
    assert_eq!(w.ball.shape.center, Vec2 { x: 4000, y: 2000 });
    assert!(!w.ball.changed);
}

#[test]
fn movement_marks_transforms_changed() {
    let mut w = World::new(&window());
    update_shape_transforms(&mut w);
    apply_velocity(&mut w, 16);
    assert!(w.ball.changed);
    assert!(w.paddles[0].changed);
    assert!(!w.walls[0].changed);
}

#[test]
fn a_whole_rally_through_ticks() {
    // Start a game and let the ball run into the right wall, above the
    // right paddle's reach: the left player scores and the ball serves
    // again from the center.
    let mut w = World::new(&window());
    let mut start = KeyState::none();
    start.press(Key::Return);
    tick(&mut w, &start, 16);
    w.ball.transform.translation = Vec2 { x: 0, y: 100_000 };
    w.ball.changed = true;
    let keys = KeyState::none();
    let mut scored = false;
    for _ in 0..200 {
        tick(&mut w, &keys, 16);
        if w.score == (Score { left: 1, right: 0 }) {
            scored = true;
            break;
        }
    }
    assert!(scored);
    assert_eq!(w.ball.transform.translation, Vec2 { x: 0, y: 0 });
    assert_eq!(w.ball.velocity.0, Vec2 { x: 707, y: 707 });
    assert_eq!(w.state, GameState::InGame);
    assert_eq!(w.score.label(), b"1:0".to_vec());
}
