use raycasting::maze::MazeGrid;
use raycasting::player::Player;
use raycasting::game::{GameMode, GameState};
use raycasting::FP_ONE;

fn grid_from(rows: &[&str]) -> MazeGrid {
    let lines: Vec<Vec<char>> = rows.iter().map(|r| r.chars().collect()).collect();
    MazeGrid::from_chars(&lines).expect("rectangular maze")
}

fn room() -> MazeGrid {
    grid_from(&[
        "#####",
        "#  E#",
        "#####",
    ])
}

#[test]
fn player_starts_with_three_lives_and_loses_them_one_by_one() {
    let mut p = Player::new(96 * FP_ONE, 96 * FP_ONE);
    assert_eq!(p.lives, 3);
    assert_eq!(p.speed, 150 * FP_ONE);
    assert!(p.is_alive());
    p.lose_life();
    p.lose_life();
    assert_eq!(p.lives, 1);
    assert!(p.is_alive());
    p.lose_life();
    assert_eq!(p.lives, 0);
    assert!(!p.is_alive());
    p.lose_life();
    assert_eq!(p.lives, 0);
    p.reset_lives();
    assert_eq!(p.lives, 3);
}

#[test]
fn reset_position_centers_the_player_in_its_cell() {
    let mut p = Player::new(0, 0);
    p.angle = 7;
    p.reset_position(2, 1, 64);
    assert_eq!(p.x, (2 * 64 + 32) * FP_ONE);
    assert_eq!(p.y, (64 + 32) * FP_ONE);
    assert_eq!(p.angle, 0);
}

#[test]
fn blocked_axis_does_not_advance_and_reports_collision() {
    let m = room();
    let mut p = Player::new(96 * FP_ONE, 96 * FP_ONE);
    // Moving up would enter the wall row: y must stay, and the move
    // counts as a collision.
    let collided = p.apply_move(0, -64 * FP_ONE, &m, 64);
    assert!(collided);
    assert_eq!(p.x, 96 * FP_ONE);
    assert_eq!(p.y, 96 * FP_ONE);
}

#[test]
fn player_slides_along_a_wall() {
    let m = room();
    let mut p = Player::new(96 * FP_ONE, 96 * FP_ONE);
    // Up is blocked but east is open: x advances, y stays.
    let collided = p.apply_move(32 * FP_ONE, -64 * FP_ONE, &m, 64);
    assert!(collided);
    assert_eq!(p.x, 128 * FP_ONE);
    assert_eq!(p.y, 96 * FP_ONE);
}

#[test]
fn open_move_advances_without_collision() {
    let m = room();
    let mut p = Player::new(96 * FP_ONE, 96 * FP_ONE);
    let collided = p.apply_move(16 * FP_ONE, 0, &m, 64);
    assert!(!collided);
    assert_eq!(p.x, 112 * FP_ONE);
}

#[test]
fn enter_leaves_the_instructions_for_a_fresh_run() {
    let mut gs = GameState::new();
    assert_eq!(gs.mode, GameMode::Instructions);
    let mut p = Player::new(0, 0);
    p.lives = 1;
    gs.screen_step(&mut p, false, 1, 1, 64);
    assert_eq!(gs.mode, GameMode::Instructions);
    gs.screen_step(&mut p, true, 1, 1, 64);
    assert_eq!(gs.mode, GameMode::Playing);
    assert_eq!(p.lives, 3);
    assert_eq!(p.x, 96 * FP_ONE);
    assert_eq!(p.y, 96 * FP_ONE);
}

#[test]
fn menu_screens_return_to_the_instructions() {
    let mut p = Player::new(0, 0);
    let mut gs = GameState {
        mode: GameMode::GameOver,
        damage_time: 5,
        invulnerability_time: 5,
        last_bump_time: 9,
    };
    gs.screen_step(&mut p, true, 1, 1, 64);
    assert_eq!(gs.mode, GameMode::Instructions);
    assert_eq!(gs.damage_time, 0);
    assert_eq!(gs.invulnerability_time, 0);
    let mut gs2 = GameState { mode: GameMode::Success, ..gs };
    gs2.screen_step(&mut p, true, 1, 1, 64);
    assert_eq!(gs2.mode, GameMode::Instructions);
}

#[test]
fn a_bump_costs_a_life_and_grants_invulnerability() {
    let m = room();
    let mut p = Player::new(96 * FP_ONE, 96 * FP_ONE);
    let mut gs = GameState {
        mode: GameMode::Playing,
        damage_time: 0,
        invulnerability_time: 0,
        last_bump_time: 0,
    };
    let now = 10 * FP_ONE;
    let ev = gs.playing_step(&mut p, &m, 64, 0, -64 * FP_ONE, FP_ONE / 60, now);
    assert!(ev.collided);
    assert!(ev.bumped);
    assert!(!ev.game_over);
    assert!(!ev.reached_exit);
    assert_eq!(p.lives, 2);
    assert_eq!(gs.damage_time, FP_ONE / 2);
    assert_eq!(gs.invulnerability_time, FP_ONE);
    assert_eq!(gs.last_bump_time, now);
    assert_eq!(gs.mode, GameMode::Playing);
    // A second bump right away is absorbed by the invulnerability.
    let ev2 = gs.playing_step(&mut p, &m, 64, 0, -64 * FP_ONE, FP_ONE / 60, now);
    assert!(ev2.collided);
    assert!(!ev2.bumped);
    assert_eq!(p.lives, 2);
}

#[test]
fn losing_the_last_life_ends_the_game() {
    let m = room();
    let mut p = Player::new(96 * FP_ONE, 96 * FP_ONE);
    p.lives = 1;
    let mut gs = GameState {
        mode: GameMode::Playing,
        damage_time: 0,
        invulnerability_time: 0,
        last_bump_time: 0,
    };
    let ev = gs.playing_step(&mut p, &m, 64, 0, -64 * FP_ONE, FP_ONE / 60, 10 * FP_ONE);
    assert!(ev.bumped);
    assert!(ev.game_over);
    assert_eq!(p.lives, 0);
    assert_eq!(gs.mode, GameMode::GameOver);
}

#[test]
fn walking_onto_the_exit_wins() {
    let m = room();
    let mut p = Player::new(128 * FP_ONE, 96 * FP_ONE);
    let mut gs = GameState {
        mode: GameMode::Playing,
        damage_time: 0,
        invulnerability_time: 0,
        last_bump_time: 0,
    };
    // One open cell east, then the exit cell, which does not block.
    let ev = gs.playing_step(&mut p, &m, 64, 96 * FP_ONE, 0, FP_ONE / 60, 10 * FP_ONE);
    assert!(!ev.collided);
    assert!(ev.reached_exit);
    assert_eq!(gs.mode, GameMode::Success);
    assert_eq!(p.x, 224 * FP_ONE);
}
