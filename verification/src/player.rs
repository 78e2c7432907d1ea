//! The player: fixed-point position and heading, the life counter, and
//! the per-axis collision probe that moves the player while walls block.

use vstd::prelude::*;
use crate::maze::{MazeGrid, spec_blocks_motion, spec_get_maze_cell, is_wall, MAX_BLOCK};
use crate::FP_ONE;

verus! {

/// Cap on world coordinates and movement deltas, far beyond any grid,
/// so position arithmetic stays well inside 64 bits.
pub const MAX_COORD: i64 = 0x100_0000_0000;

/// The player's pose and lives. Position and heading are 16.16 fixed
/// point: `x`, `y` in world units, `angle` in radians, `speed` in world
/// units per second.
pub struct Player {
    pub x: i64,
    pub y: i64,
    pub angle: i64,
    pub speed: i64,
    pub lives: i32,
    pub max_lives: i32,
}

impl Player {
    /// A fresh player at the given position, facing along positive x,
    /// with the standard speed and three lives.
    pub fn new(x: i64, y: i64) -> (p: Player)
        ensures
            p == (Player { x, y, angle: 0, speed: 9830400, lives: 3, max_lives: 3 }),
            p.speed == 150 * FP_ONE,
    {
        Player { x, y, angle: 0, speed: 150 * FP_ONE, lives: 3, max_lives: 3 }
    }

    /// Puts the player in the middle of the given cell, facing along
    /// positive x; lives are untouched.
    pub fn reset_position(&mut self, start_col: usize, start_row: usize, block_size: i64)
        requires
            start_col <= 0x10000,
            start_row <= 0x10000,
            1 <= block_size <= MAX_BLOCK,
        ensures
            final(self).x == start_col * (block_size * FP_ONE) + (block_size * FP_ONE) / 2,
            final(self).y == start_row * (block_size * FP_ONE) + (block_size * FP_ONE) / 2,
            final(self).angle == 0,
            final(self).speed == old(self).speed,
            final(self).lives == old(self).lives,
            final(self).max_lives == old(self).max_lives,
    {
        let bfp: i64 = block_size * FP_ONE;
        proof {
            assert(0 <= (start_col as int) * bfp <= 0x10000 * (MAX_BLOCK * FP_ONE)
                && 0 <= (start_row as int) * bfp <= 0x10000 * (MAX_BLOCK * FP_ONE))
                by (nonlinear_arith)
                requires
                    0 <= start_col <= 0x10000 && 0 <= start_row <= 0x10000 && 0 < bfp
                        <= MAX_BLOCK * FP_ONE,
            ;
        }
        self.x = (start_col as i64) * bfp + bfp / 2;
        self.y = (start_row as i64) * bfp + bfp / 2;
        self.angle = 0;
    }

    /// Takes one life away, never below zero.
    pub fn lose_life(&mut self)
        ensures
            final(self).lives == if old(self).lives > 0 {
                old(self).lives - 1
            } else {
                old(self).lives as int
            },
            final(self).x == old(self).x,
            final(self).y == old(self).y,
            final(self).angle == old(self).angle,
            final(self).speed == old(self).speed,
            final(self).max_lives == old(self).max_lives,
    {
        if self.lives > 0 {
            self.lives = self.lives - 1;
        }
    }

    /// Whether any lives remain.
    pub fn is_alive(&self) -> (r: bool)
        ensures
            r == (self.lives > 0),
    {
        self.lives > 0
    }

    /// Refills the lives to the maximum.
    pub fn reset_lives(&mut self)
        ensures
            *final(self) == (Player { lives: old(self).max_lives, ..*old(self) }),
    {
        self.lives = self.max_lives;
    }

    /// Moves the player by `(dx, dy)`, one axis at a time: an axis whose
    /// target cell blocks motion does not advance, and the move counts as
    /// a collision if that axis actually tried to move. The y probe uses
    /// the already-updated x, so the player slides along walls.
    pub fn apply_move(
        &mut self,
        dx: i64,
        dy: i64,
        maze: &MazeGrid,
        block_size: i64,
    ) -> (collided: bool)
        requires
            maze.wf(),
            1 <= block_size <= MAX_BLOCK,
            -MAX_COORD <= old(self).x <= MAX_COORD,
            -MAX_COORD <= old(self).y <= MAX_COORD,
            -MAX_COORD <= dx <= MAX_COORD,
            -MAX_COORD <= dy <= MAX_COORD,
        ensures
            final(self).x == if !spec_blocks_motion(spec_get_maze_cell(*maze, old(self).x
                + dx, old(self).y as int, block_size as int)) {
                old(self).x + dx
            } else {
                old(self).x as int
            },
            final(self).y == if !spec_blocks_motion(spec_get_maze_cell(*maze,
                final(self).x as int, old(self).y + dy, block_size as int)) {
                old(self).y + dy
            } else {
                old(self).y as int
            },
            collided == ((spec_blocks_motion(spec_get_maze_cell(*maze, old(self).x + dx,
                old(self).y as int, block_size as int)) && dx != 0) || (spec_blocks_motion(
                spec_get_maze_cell(*maze, final(self).x as int, old(self).y + dy,
                block_size as int)) && dy != 0)),
            final(self).angle == old(self).angle,
            final(self).speed == old(self).speed,
            final(self).lives == old(self).lives,
            final(self).max_lives == old(self).max_lives,
    {
        let mut collided = false;
        let next_x = self.x + dx;
        let next_y = self.y + dy;

        if !is_wall(maze, next_x, self.y, block_size) {
            self.x = next_x;
        } else if dx != 0 {
            collided = true;
        }

        if !is_wall(maze, self.x, next_y, block_size) {
            self.y = next_y;
        } else if dy != 0 {
            collided = true;
        }

        collided
    }
}

} // verus!
