//! The column projector: casts one ray per screen column, turns the
//! perpendicular distance into a vertical wall strip, shades it (side
//! darkening, distance fog, exit animation, damage blink) and writes it
//! over a sky-and-floor backdrop. Verified pixel for pixel against
//! `spec_scene_pixel`.

use vstd::prelude::*;
use crate::color::{Color, spec_scale_color, scale_color};
use crate::maze::{Cell, MazeGrid, spec_wall_color, MAX_BLOCK};
use crate::framebuffer::Framebuffer;
use crate::dda::{dda_final, hit_distance};
use crate::ray::{RayHit, cast_ray, spec_ray_query, valid_ray_args};
use crate::FP_ONE;

verus! {

/// The flat backdrop color above the horizon band.
pub open spec fn spec_sky_color() -> Color {
    Color { r: 66, g: 135, b: 245, a: 255 }
}

/// The flat backdrop color below the horizon band.
pub open spec fn spec_floor_color() -> Color {
    Color { r: 180, g: 180, b: 180, a: 255 }
}

/// The animated exit color: a blend from the resting pink toward white,
/// with `t` per mille of white.
pub open spec fn spec_exit_color(t: int) -> Color {
    Color {
        r: 255,
        g: ((99 * (1000 - t) + 255 * t) / 1000) as u8,
        b: ((130 * (1000 - t) + 255 * t) / 1000) as u8,
        a: 255,
    }
}

/// Blends the exit color for the given per-mille white share.
pub fn exit_color(t: u32) -> (c: Color)
    requires
        t <= 1000,
    ensures
        c == spec_exit_color(t as int),
{
    let g = ((99 * (1000 - t) + 255 * t) / 1000) as u8;
    let b = ((130 * (1000 - t) + 255 * t) / 1000) as u8;
    Color { r: 255, g, b, a: 255 }
}

/// The distance fog factor, per mille: full brightness up close, fading
/// linearly until fifteen cells away, never below 300.
pub open spec fn spec_fog_fade(distance: int, block_size: int) -> int {
    let raw = 1000 - distance * 1000 / (block_size * 15 * FP_ONE);
    if raw < 300 {
        300
    } else if raw > 1000 {
        1000
    } else {
        raw
    }
}

/// Computes the per-mille fog factor for a fixed-point distance.
pub fn fog_fade(distance: i64, block_size: i64) -> (fade: u32)
    requires
        0 <= distance <= 0x40_0000_0000_0000,
        1 <= block_size <= MAX_BLOCK,
    ensures
        fade == spec_fog_fade(distance as int, block_size as int),
        300 <= fade <= 1000,
{
    let maxd: i64 = block_size * 15 * FP_ONE;
    if distance >= maxd {
        proof {
            assert(distance * 1000 / (maxd as int) >= 1000) by (nonlinear_arith)
                requires
                    0 < maxd <= distance,
            ;
        }
        300
    } else {
        proof {
            assert(0 <= distance * 1000 / (maxd as int) < 1000) by (nonlinear_arith)
                requires
                    0 <= distance < maxd,
            ;
        }
        let raw: i64 = 1000 - distance * 1000 / maxd;
        if raw < 300 {
            300
        } else {
            raw as u32
        }
    }
}

/// The color one wall strip is drawn in: the cell's table color (the exit
/// animated by `exit_blend`), darkened 7/10 on a side hit, attenuated by
/// the fog factor, and halved while the damage blink is on.
pub open spec fn spec_shaded_color(
    cell: Cell,
    side: bool,
    distance: int,
    block_size: int,
    exit_blend: int,
    blink: bool,
) -> Color {
    let base = if cell == Cell::Exit {
        spec_exit_color(exit_blend)
    } else {
        spec_wall_color(cell)
    };
    let sided = if side {
        spec_scale_color(base, 7, 10)
    } else {
        base
    };
    let fogged = spec_scale_color(sided, spec_fog_fade(distance, block_size), 1000);
    if blink {
        spec_scale_color(fogged, 1, 2)
    } else {
        fogged
    }
}

/// Shades one wall strip.
pub fn shade_color(
    cell: Cell,
    side: bool,
    distance: i64,
    block_size: i64,
    exit_blend: u32,
    blink: bool,
) -> (c: Color)
    requires
        0 <= distance <= 0x40_0000_0000_0000,
        1 <= block_size <= MAX_BLOCK,
        exit_blend <= 1000,
    ensures
        c == spec_shaded_color(cell, side, distance as int, block_size as int,
            exit_blend as int, blink),
{
    let base = if cell == Cell::Exit {
        exit_color(exit_blend)
    } else {
        crate::maze::wall_color(cell)
    };
    let sided = if side {
        scale_color(base, 7, 10)
    } else {
        base
    };
    let fade = fog_fade(distance, block_size);
    let fogged = scale_color(sided, fade, 1000);
    if blink {
        scale_color(fogged, 1, 2)
    } else {
        fogged
    }
}

/// The color the rendered frame holds at row `py` of the column whose ray
/// direction is `dir`: the shaded wall strip where the projected wall
/// covers the row, else the sky band in the top quarter, else the floor.
pub open spec fn spec_scene_pixel(
    m: MazeGrid,
    ox: i64,
    oy: i64,
    dir: (i64, i64),
    block_size: i64,
    exit_blend: int,
    blink: bool,
    height: int,
    py: int,
) -> Color {
    let q = spec_ray_query(m, ox, oy, dir.0, dir.1, block_size);
    let s = dda_final(q);
    let dist = hit_distance(q, s);
    let wh = height * (block_size * FP_ONE) / (if dist < FP_ONE { FP_ONE as int } else {
        dist
    });
    let top = height / 2 - wh / 2;
    let bottom = top + wh;
    let ys = if top < 0 { 0 } else { top };
    if ys <= py <= bottom && py < height {
        spec_shaded_color(q.cell(s.mx, s.my), s.side, dist, block_size as int,
            exit_blend as int, blink)
    } else if py < height / 4 {
        spec_sky_color()
    } else {
        spec_floor_color()
    }
}

/// The shade the strip of one column is drawn in.
pub open spec fn spec_column_shade(
    m: MazeGrid,
    ox: i64,
    oy: i64,
    dir: (i64, i64),
    block_size: i64,
    exit_blend: int,
    blink: bool,
) -> Color {
    let q = spec_ray_query(m, ox, oy, dir.0, dir.1, block_size);
    let s = dda_final(q);
    spec_shaded_color(q.cell(s.mx, s.my), s.side, hit_distance(q, s), block_size as int,
        exit_blend as int, blink)
}

/// Renders one frame into the framebuffer: one ray per column, cast from
/// `(origin_x, origin_y)` along that column's direction from `dirs`.
/// Afterwards every pixel of the surface holds `spec_scene_pixel` for its
/// column and row, and the pen is left holding the last strip's shade.
pub fn render_scene(
    fb: &mut Framebuffer,
    maze: &MazeGrid,
    origin_x: i64,
    origin_y: i64,
    dirs: &Vec<(i64, i64)>,
    block_size: i64,
    exit_blend: u32,
    blink: bool,
)
    requires
        old(fb).wf(),
        dirs@.len() == old(fb).width,
        exit_blend <= 1000,
        forall|i: int|
            0 <= i < dirs@.len() ==> valid_ray_args(*maze, origin_x, origin_y, (
            #[trigger] dirs@[i]).0, dirs@[i].1, block_size),
    ensures
        final(fb).wf(),
        final(fb).width == old(fb).width,
        final(fb).height == old(fb).height,
        final(fb).background_color == old(fb).background_color,
        forall|px: int, py: int|
            old(fb).spec_in_bounds(px, py) ==> #[trigger] final(fb).pix(px, py)
                == spec_scene_pixel(*maze, origin_x, origin_y, dirs@[px], block_size,
                exit_blend as int, blink, old(fb).height as int, py),
        final(fb).current_color == if old(fb).width == 0 {
            spec_floor_color()
        } else {
            spec_column_shade(*maze, origin_x, origin_y, dirs@[old(fb).width - 1],
                block_size, exit_blend as int, blink)
        },
{
    fb.clear();

    // The flat backdrop: sky over the top quarter, floor below it.
    let width: u32 = fb.width;
    let height: u32 = fb.height;
    let sky_height: u32 = height / 4;
    fb.set_current_color(Color { r: 66, g: 135, b: 245, a: 255 });
    fb.draw_rectangle(0, 0, width, sky_height);
    fb.set_current_color(Color { r: 180, g: 180, b: 180, a: 255 });
    fb.draw_rectangle(0, sky_height, width, height - sky_height);

    // One ray and one strip per column.
    let mut x: u32 = 0;
    while x < width
        invariant
            fb.wf(),
            fb.width == width,
            fb.height == height,
            fb.background_color == old(fb).background_color,
            x <= width,
            dirs@.len() == width,
            exit_blend <= 1000,
            forall|i: int|
                0 <= i < dirs@.len() ==> valid_ray_args(*maze, origin_x, origin_y, (
                #[trigger] dirs@[i]).0, dirs@[i].1, block_size),
            forall|px: int, py: int|
                old(fb).spec_in_bounds(px, py) && px < x ==> #[trigger] fb.pix(px, py)
                    == spec_scene_pixel(*maze, origin_x, origin_y, dirs@[px], block_size,
                    exit_blend as int, blink, height as int, py),
            forall|px: int, py: int|
                old(fb).spec_in_bounds(px, py) && px >= x ==> #[trigger] fb.pix(px, py)
                    == (if py < height as int / 4 {
                    spec_sky_color()
                } else {
                    spec_floor_color()
                }),
            fb.current_color == if x == 0 {
                spec_floor_color()
            } else {
                spec_column_shade(*maze, origin_x, origin_y, dirs@[x - 1], block_size,
                    exit_blend as int, blink)
            },
        decreases width - x,
    {
        let dir = dirs[x as usize];
        let hit: RayHit = cast_ray(maze, origin_x, origin_y, dir.0, dir.1, block_size);
        let denom: i64 = if hit.distance < FP_ONE { FP_ONE } else { hit.distance };
        let bfp: i64 = block_size * FP_ONE;
        proof {
            assert(0 <= (height as int) * (bfp as int) <= 0x7fff_ffff * 0x1000_0000)
                by (nonlinear_arith)
                requires
                    0 <= height <= 0x7fff_ffff && 0 <= bfp <= 0x1000_0000,
            ;
        }
        let wall_height: i64 = (height as i64) * bfp / denom;
        let wall_top: i64 = (height as i64) / 2 - wall_height / 2;
        let wall_bottom: i64 = wall_top + wall_height;

        let col = shade_color(hit.cell, hit.side, hit.distance, block_size, exit_blend,
            blink);
        fb.set_current_color(col);
        let ys: i64 = if wall_top < 0 { 0 } else { wall_top };
        let ye: i64 = if wall_bottom > height as i64 { height as i64 } else { wall_bottom };
        fb.draw_vertical_line(x, ys as i32, ye as i32);
        proof {
            assert forall|px: int, py: int|
                old(fb).spec_in_bounds(px, py) && px < x + 1 implies #[trigger] fb.pix(px,
                py) == spec_scene_pixel(*maze, origin_x, origin_y, dirs@[px], block_size,
                exit_blend as int, blink, height as int, py) by {
                if px == x as int {
                    assert(valid_ray_args(*maze, origin_x, origin_y, dirs@[px].0,
                        dirs@[px].1, block_size));
                }
            }
        }
        x = x + 1;
    }
}

} // verus!
