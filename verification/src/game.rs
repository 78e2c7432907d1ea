//! The game's control state as an explicit machine: which screen is
//! shown, the damage and invulnerability timers, and the transitions one
//! frame makes — menus on enter, collision damage with a cooldown, game
//! over when the lives run out, success on reaching the exit. Times are
//! 16.16 fixed-point seconds.

use vstd::prelude::*;
use crate::maze::{Cell, MazeGrid, spec_get_maze_cell, get_maze_cell, MAX_BLOCK};
use crate::player::{Player, MAX_COORD};
use crate::FP_ONE;

verus! {

/// Cap on the fixed-point clock and timer values the machine handles.
pub const MAX_TIME: i64 = 0x100_0000_0000;

/// Which screen the game is on.
#[derive(Clone, Copy, PartialEq, Eq, Structural, Debug)]
pub enum GameMode {
    Instructions,
    Playing,
    Success,
    GameOver,
}

/// The per-session control state next to the player: the current screen,
/// the two effect timers, and when the last wall-bump sound played.
pub struct GameState {
    pub mode: GameMode,
    pub damage_time: i64,
    pub invulnerability_time: i64,
    pub last_bump_time: i64,
}

/// What one playing frame reports to the outside: whether the player ran
/// into a wall, whether that bump cost a life just now (the sound cue),
/// and which terminal transition, if any, the frame took.
pub struct FrameEvents {
    pub collided: bool,
    pub bumped: bool,
    pub game_over: bool,
    pub reached_exit: bool,
}

/// A timer counts down while positive and otherwise stays put.
pub open spec fn spec_tick(t: int, dt: int) -> int {
    if t > 0 {
        t - dt
    } else {
        t
    }
}

/// The timers and the clock stay within the cap.
pub open spec fn spec_times_wf(gs: GameState) -> bool {
    &&& -MAX_TIME <= gs.damage_time <= MAX_TIME
    &&& -MAX_TIME <= gs.invulnerability_time <= MAX_TIME
    &&& -MAX_TIME <= gs.last_bump_time <= MAX_TIME
}

impl GameState {
    /// A fresh session: on the instructions screen, no effects pending.
    pub fn new() -> (gs: GameState)
        ensures
            gs == (GameState {
                mode: GameMode::Instructions,
                damage_time: 0,
                invulnerability_time: 0,
                last_bump_time: 0,
            }),
    {
        GameState {
            mode: GameMode::Instructions,
            damage_time: 0,
            invulnerability_time: 0,
            last_bump_time: 0,
        }
    }

    /// One frame on a menu screen. Enter leaves the instructions for a
    /// fresh run (full lives, back at the spawn); from the success and
    /// game-over screens enter resets the run and returns to the
    /// instructions with both effect timers cleared. Without enter, and
    /// while playing, nothing changes.
    pub fn screen_step(
        &mut self,
        player: &mut Player,
        enter_pressed: bool,
        start_col: usize,
        start_row: usize,
        block_size: i64,
    )
        requires
            start_col <= 0x10000,
            start_row <= 0x10000,
            1 <= block_size <= MAX_BLOCK,
        ensures
            ({
                let spawn_x = start_col * (block_size * FP_ONE) + (block_size * FP_ONE)
                    / 2;
                let spawn_y = start_row * (block_size * FP_ONE) + (block_size * FP_ONE)
                    / 2;
                match old(self).mode {
                    GameMode::Instructions => if enter_pressed {
                        &&& final(self).mode == GameMode::Playing
                        &&& final(self).damage_time == old(self).damage_time
                        &&& final(self).invulnerability_time == old(
                            self,
                        ).invulnerability_time
                        &&& final(self).last_bump_time == old(self).last_bump_time
                        &&& final(player).x == spawn_x
                        &&& final(player).y == spawn_y
                        &&& final(player).angle == 0
                        &&& final(player).lives == old(player).max_lives
                        &&& final(player).max_lives == old(player).max_lives
                        &&& final(player).speed == old(player).speed
                    } else {
                        *final(self) == *old(self) && *final(player) == *old(player)
                    },
                    GameMode::Playing => *final(self) == *old(self) && *final(player)
                        == *old(player),
                    _ => if enter_pressed {
                        &&& final(self).mode == GameMode::Instructions
                        &&& final(self).damage_time == 0
                        &&& final(self).invulnerability_time == 0
                        &&& final(self).last_bump_time == old(self).last_bump_time
                        &&& final(player).x == spawn_x
                        &&& final(player).y == spawn_y
                        &&& final(player).angle == 0
                        &&& final(player).lives == old(player).max_lives
                        &&& final(player).max_lives == old(player).max_lives
                        &&& final(player).speed == old(player).speed
                    } else {
                        *final(self) == *old(self) && *final(player) == *old(player)
                    },
                }
            }),
    {
        if !enter_pressed {
            return;
        }
        match self.mode {
            GameMode::Instructions => {
                self.mode = GameMode::Playing;
                player.reset_lives();
                player.reset_position(start_col, start_row, block_size);
            },
            GameMode::Playing => {},
            _ => {
                player.reset_lives();
                player.reset_position(start_col, start_row, block_size);
                self.mode = GameMode::Instructions;
                self.damage_time = 0;
                self.invulnerability_time = 0;
            },
        }
    }

    /// One playing frame: tick the effect timers down, move the player
    /// with per-axis collision, then charge a collision against the lives
    /// if the player is vulnerable and the bump cooldown (a tenth of a
    /// second) has passed — setting the damage flash and a second of
    /// invulnerability — and finally leave for the game-over screen with
    /// no lives left, or for the success screen on the exit cell.
    pub fn playing_step(
        &mut self,
        player: &mut Player,
        maze: &MazeGrid,
        block_size: i64,
        dx: i64,
        dy: i64,
        dt: i64,
        now: i64,
    ) -> (ev: FrameEvents)
        requires
            old(self).mode == GameMode::Playing,
            spec_times_wf(*old(self)),
            maze.wf(),
            1 <= block_size <= MAX_BLOCK,
            -MAX_COORD <= old(player).x <= MAX_COORD,
            -MAX_COORD <= old(player).y <= MAX_COORD,
            -MAX_COORD <= dx <= MAX_COORD,
            -MAX_COORD <= dy <= MAX_COORD,
            0 <= dt <= MAX_TIME,
            0 <= now <= MAX_TIME,
        ensures
            ({
                let b = block_size as int;
                let ticked_damage = spec_tick(old(self).damage_time as int, dt as int);
                let ticked_invuln = spec_tick(old(self).invulnerability_time as int,
                    dt as int);
                let nx = if !crate::maze::spec_blocks_motion(spec_get_maze_cell(*maze,
                    old(player).x + dx, old(player).y as int, b)) {
                    old(player).x + dx
                } else {
                    old(player).x as int
                };
                let ny = if !crate::maze::spec_blocks_motion(spec_get_maze_cell(*maze, nx,
                    old(player).y + dy, b)) {
                    old(player).y + dy
                } else {
                    old(player).y as int
                };
                let collided = (crate::maze::spec_blocks_motion(spec_get_maze_cell(*maze,
                    old(player).x + dx, old(player).y as int, b)) && dx != 0) || (
                crate::maze::spec_blocks_motion(spec_get_maze_cell(*maze, nx, old(player).y
                    + dy, b)) && dy != 0);
                let bumped = collided && ticked_invuln <= 0 && now
                    - old(self).last_bump_time > FP_ONE / 10;
                let lives1 = if bumped && old(player).lives > 0 {
                    old(player).lives - 1
                } else {
                    old(player).lives as int
                };
                let dead = bumped && lives1 <= 0;
                let on_exit = spec_get_maze_cell(*maze, nx, ny, b) == Cell::Exit;
                &&& final(player).x == nx
                &&& final(player).y == ny
                &&& final(player).lives == lives1
                &&& final(player).angle == old(player).angle
                &&& final(player).speed == old(player).speed
                &&& final(player).max_lives == old(player).max_lives
                &&& ev.collided == collided
                &&& ev.bumped == bumped
                &&& ev.game_over == dead
                &&& ev.reached_exit == (!dead && on_exit)
                &&& final(self).mode == (if dead {
                    GameMode::GameOver
                } else if on_exit {
                    GameMode::Success
                } else {
                    GameMode::Playing
                })
                &&& final(self).damage_time == (if bumped {
                    FP_ONE / 2
                } else {
                    ticked_damage
                })
                &&& final(self).invulnerability_time == (if bumped {
                    FP_ONE as int
                } else {
                    ticked_invuln
                })
                &&& final(self).last_bump_time == (if bumped {
                    now as int
                } else {
                    old(self).last_bump_time as int
                })
                &&& spec_times_wf(*final(self))
            }),
    {
        if self.damage_time > 0 {
            self.damage_time = self.damage_time - dt;
        }
        if self.invulnerability_time > 0 {
            self.invulnerability_time = self.invulnerability_time - dt;
        }

        let collided = player.apply_move(dx, dy, maze, block_size);

        let mut bumped = false;
        let mut game_over = false;
        if collided && self.invulnerability_time <= 0 && now - self.last_bump_time > FP_ONE
            / 10 {
            bumped = true;
            self.last_bump_time = now;
            player.lose_life();
            self.damage_time = FP_ONE / 2;
            self.invulnerability_time = FP_ONE;
            if !player.is_alive() {
                self.mode = GameMode::GameOver;
                game_over = true;
            }
        }

        let mut reached_exit = false;
        if !game_over {
            let cell = get_maze_cell(maze, player.x, player.y, block_size);
            if cell == Cell::Exit {
                self.mode = GameMode::Success;
                reached_exit = true;
            }
        }

        FrameEvents { collided, bumped, game_over, reached_exit }
    }
}

} // verus!
