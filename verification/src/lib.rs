//! A first-person maze renderer: a grid maze, a DDA ray caster, a CPU
//! framebuffer, and a per-column projector that turns ray distances into
//! vertical wall strips.
//!
//! All world geometry is carried in 16.16 fixed-point integers: a world
//! coordinate, a direction component (a cosine or sine scaled by `FP_ONE`)
//! and a ray distance are all `i64` values holding `value * FP_ONE`.
//! Callers that work in floating point convert at the boundary.

use vstd::prelude::*;

pub mod color;
pub mod maze;
pub mod framebuffer;
pub mod line;
pub mod dda;
pub mod ray;
pub mod renderer;
pub mod ui;
pub mod player;
pub mod game;

verus! {

/// One unit of the 16.16 fixed-point scale: fixed `x` stands for `x / 65536`.
pub const FP_ONE: i64 = 65536;

} // verus!
