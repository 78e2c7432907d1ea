//! The minimap overlay: a scaled-down top view of the maze with a marker
//! for the player and a short heading indicator, drawn into a corner of
//! the framebuffer. Verified pixel for pixel: the contract fixes, for
//! every position, which of the four paint layers — heading line over
//! player marker over cell block over backdrop — the overlay leaves
//! there, and that everything else is untouched.

use vstd::prelude::*;
use crate::color::Color;
use crate::maze::{Cell, MazeGrid, wall_color, spec_wall_color, MAX_BLOCK};
use crate::framebuffer::Framebuffer;
use crate::line::spec_line_points;
use crate::FP_ONE;

verus! {

/// Where the overlay's parts sit, in screen pixels: the map square's
/// corner, the cell edge, the player marker's center and edge, and the
/// heading indicator's offsets.
pub ghost struct MinimapLayout {
    pub mx: int,
    pub my: int,
    pub mb: int,
    pub marker_x: int,
    pub marker_y: int,
    pub ps: int,
    pub dir_dx: int,
    pub dir_dy: int,
}

/// The layout a call with these arguments draws: the 150-pixel map square
/// sits 10 pixels from the screen's top and right edges, a cell is
/// `150 / width` pixels, and the marker center is the player's world
/// position scaled into map pixels.
pub open spec fn spec_minimap_layout(
    maze: MazeGrid,
    player_x: i64,
    player_y: i64,
    block_size: i64,
    screen_width: u32,
    player_size: u32,
    dir_dx: i32,
    dir_dy: i32,
) -> MinimapLayout {
    let mx = screen_width - 160;
    let mb = 150 as int / maze.spec_width();
    let bfp = block_size * FP_ONE;
    MinimapLayout {
        mx,
        my: 10,
        mb,
        marker_x: mx + player_x * mb / bfp,
        marker_y: 10 + player_y * mb / bfp,
        ps: player_size as int,
        dir_dx: dir_dx as int,
        dir_dy: dir_dy as int,
    }
}

/// The translucent backdrop square: the map square plus a two-pixel
/// border.
pub open spec fn spec_on_backdrop(l: MinimapLayout, px: int, py: int) -> bool {
    &&& l.mx - 2 <= px < l.mx - 2 + 154
    &&& l.my - 2 <= py < l.my - 2 + 154
}

/// The backdrop's color.
pub open spec fn spec_backdrop_color() -> Color {
    Color { r: 66, g: 135, b: 245, a: 200 }
}

/// Whether `(px, py)` lies on the block of a wall cell: the blocks tile
/// the square from its corner, so dividing the offset by the cell edge
/// names the one cell whose block holds the position.
pub open spec fn spec_on_cell_block(maze: MazeGrid, l: MinimapLayout, px: int, py: int) -> bool {
    &&& l.mb >= 1
    &&& px >= l.mx
    &&& py >= l.my
    &&& (px - l.mx) / l.mb < maze.spec_width()
    &&& (py - l.my) / l.mb < maze.spec_height()
    &&& maze.spec_cell((py - l.my) / l.mb, (px - l.mx) / l.mb) != Cell::Empty
}

/// The table color of the cell whose block holds `(px, py)`.
pub open spec fn spec_cell_block_color(maze: MazeGrid, l: MinimapLayout, px: int, py: int) -> Color {
    spec_wall_color(maze.spec_cell((py - l.my) / l.mb, (px - l.mx) / l.mb))
}

/// The player marker: a `ps`-pixel square around the marker center, drawn
/// only when it does not poke past the screen's top or left edge.
pub open spec fn spec_on_marker(l: MinimapLayout, px: int, py: int) -> bool {
    let half = l.ps / 2;
    &&& l.marker_x >= half
    &&& l.marker_y >= half
    &&& l.marker_x - half <= px < l.marker_x - half + l.ps
    &&& l.marker_y - half <= py < l.marker_y - half + l.ps
}

/// The marker's color: red while the damage blink is on, else yellow.
pub open spec fn spec_marker_color(blink_red: bool) -> Color {
    if blink_red {
        Color { r: 230, g: 41, b: 55, a: 255 }
    } else {
        Color { r: 253, g: 249, b: 0, a: 255 }
    }
}

/// The heading indicator: the Bresenham line from the marker center to
/// the given pixel offsets away.
pub open spec fn spec_on_heading(l: MinimapLayout, px: int, py: int) -> bool {
    spec_line_points(
        l.marker_x,
        l.marker_y,
        l.marker_x + l.dir_dx,
        l.marker_y + l.dir_dy,
    ).contains((px, py))
}

/// Whether the overlay paints `(px, py)` at all.
pub open spec fn spec_minimap_covers(maze: MazeGrid, l: MinimapLayout, px: int, py: int) -> bool {
    ||| spec_on_heading(l, px, py)
    ||| spec_on_marker(l, px, py)
    ||| spec_on_cell_block(maze, l, px, py)
    ||| spec_on_backdrop(l, px, py)
}

/// The color the overlay leaves at a painted position: the white heading
/// line over the marker over the cell blocks over the backdrop.
pub open spec fn spec_minimap_color(
    maze: MazeGrid,
    l: MinimapLayout,
    blink_red: bool,
    px: int,
    py: int,
) -> Color {
    if spec_on_heading(l, px, py) {
        Color { r: 255, g: 255, b: 255, a: 255 }
    } else if spec_on_marker(l, px, py) {
        spec_marker_color(blink_red)
    } else if spec_on_cell_block(maze, l, px, py) {
        spec_cell_block_color(maze, l, px, py)
    } else {
        spec_backdrop_color()
    }
}

/// The wall cells already painted after the row-major walk has passed
/// `(row, col)`: the position's block belongs to an earlier cell.
pub open spec fn spec_cell_block_before(
    maze: MazeGrid,
    l: MinimapLayout,
    row: int,
    col: int,
    px: int,
    py: int,
) -> bool {
    &&& spec_on_cell_block(maze, l, px, py)
    &&& ((py - l.my) / l.mb < row || ((py - l.my) / l.mb == row && (px - l.mx) / l.mb
        < col))
}

/// A position lies in the block tiled at index `idx` exactly when the
/// offset division names that index.
proof fn lemma_block_index(base: int, mb: int, idx: int, p: int)
    requires
        mb >= 1,
        idx >= 0,
    ensures
        (base + idx * mb <= p < base + idx * mb + mb) <==> (p >= base && (p - base) / mb
            == idx),
{
    assert((base + idx * mb <= p < base + idx * mb + mb) <==> (p >= base && (p - base) / mb
        == idx)) by (nonlinear_arith)
        requires
            mb >= 1 && idx >= 0,
    ;
}

/// Draws the minimap: a translucent backdrop square, one small square per
/// wall cell in that cell's table color (passable cells show the backdrop
/// through), the player marker (red while the damage blink is on, else
/// yellow) and a white heading line from the marker center to
/// `(dir_dx, dir_dy)` pixels away. The player position is in fixed-point
/// world units; `player_size` is the marker edge in pixels. Every pixel
/// of the surface ends as `spec_minimap_color` where the overlay covers
/// it and untouched elsewhere, and the pen is left white.
pub fn draw_minimap_to_framebuffer(
    fb: &mut Framebuffer,
    maze: &MazeGrid,
    player_x: i64,
    player_y: i64,
    block_size: i64,
    screen_width: u32,
    player_size: u32,
    blink_red: bool,
    dir_dx: i32,
    dir_dy: i32,
)
    requires
        old(fb).wf(),
        maze.wf(),
        1 <= block_size <= MAX_BLOCK,
        0 <= player_x < maze.spec_width() * (block_size * FP_ONE),
        0 <= player_y < maze.spec_height() * (block_size * FP_ONE),
        162 <= screen_width <= 0x10000,
        2 <= player_size <= 150,
        -512 <= dir_dx <= 512,
        -512 <= dir_dy <= 512,
    ensures
        final(fb).wf(),
        final(fb).width == old(fb).width,
        final(fb).height == old(fb).height,
        final(fb).background_color == old(fb).background_color,
        final(fb).current_color == (Color { r: 255, g: 255, b: 255, a: 255 }),
        forall|px: int, py: int|
            ({
                let l = spec_minimap_layout(*maze, player_x, player_y, block_size,
                    screen_width, player_size, dir_dx, dir_dy);
                #[trigger] final(fb).pix(px, py) == if spec_minimap_covers(*maze, l, px,
                    py) && old(fb).spec_in_bounds(px, py) {
                    spec_minimap_color(*maze, l, blink_red, px, py)
                } else {
                    old(fb).pix(px, py)
                }
            }),
{
    let ghost l = spec_minimap_layout(*maze, player_x, player_y, block_size, screen_width,
        player_size, dir_dx, dir_dy);
    let minimap_x: u32 = screen_width - 160;
    let minimap_y: u32 = 10;
    let maze_width: u32 = maze.rows[0].len() as u32;
    let maze_height: u32 = maze.rows.len() as u32;
    let mini_block: u32 = 150 / maze_width;
    proof {
        assert(mini_block * maze_width <= 150 && mini_block <= 150 && maze_width
            * mini_block <= 150) by (nonlinear_arith)
            requires
                1 <= maze_width && mini_block == 150 as int / maze_width as int,
        ;
        assert(maze_height * mini_block <= 1024 * 150) by (nonlinear_arith)
            requires
                0 <= maze_height <= 1024 && 0 <= mini_block <= 150,
        ;
    }

    // The translucent backdrop square with a two-pixel border.
    fb.set_current_color(Color { r: 66, g: 135, b: 245, a: 200 });
    fb.draw_rectangle(minimap_x - 2, minimap_y - 2, 154, 154);

    // One small square per wall cell, walked in row-major order.
    let mut row: u32 = 0;
    while row < maze_height
        invariant
            fb.wf(),
            fb.width == old(fb).width,
            fb.height == old(fb).height,
            fb.background_color == old(fb).background_color,
            maze.wf(),
            maze_width == maze.spec_width(),
            maze_height == maze.spec_height(),
            row <= maze_height,
            l == spec_minimap_layout(*maze, player_x, player_y, block_size, screen_width,
                player_size, dir_dx, dir_dy),
            minimap_x == l.mx,
            minimap_y == l.my,
            mini_block == l.mb,
            162 <= screen_width <= 0x10000,
            maze_width * mini_block <= 150,
            mini_block <= 150,
            maze_height * mini_block <= 1024 * 150,
            forall|px: int, py: int|
                #[trigger] fb.pix(px, py) == if spec_cell_block_before(*maze, l, row as int,
                    0, px, py) && old(fb).spec_in_bounds(px, py) {
                    spec_cell_block_color(*maze, l, px, py)
                } else if spec_on_backdrop(l, px, py) && old(fb).spec_in_bounds(px, py) {
                    spec_backdrop_color()
                } else {
                    old(fb).pix(px, py)
                },
        decreases maze_height - row,
    {
        let mut col: u32 = 0;
        while col < maze_width
            invariant
                fb.wf(),
                fb.width == old(fb).width,
                fb.height == old(fb).height,
                fb.background_color == old(fb).background_color,
                maze.wf(),
                maze_width == maze.spec_width(),
                maze_height == maze.spec_height(),
                row < maze_height,
                col <= maze_width,
                l == spec_minimap_layout(*maze, player_x, player_y, block_size,
                    screen_width, player_size, dir_dx, dir_dy),
                minimap_x == l.mx,
                minimap_y == l.my,
                mini_block == l.mb,
                162 <= screen_width <= 0x10000,
                maze_width * mini_block <= 150,
                mini_block <= 150,
                maze_height * mini_block <= 1024 * 150,
                forall|px: int, py: int|
                    #[trigger] fb.pix(px, py) == if spec_cell_block_before(*maze, l,
                        row as int, col as int, px, py) && old(fb).spec_in_bounds(px, py) {
                        spec_cell_block_color(*maze, l, px, py)
                    } else if spec_on_backdrop(l, px, py) && old(fb).spec_in_bounds(px,
                        py) {
                        spec_backdrop_color()
                    } else {
                        old(fb).pix(px, py)
                    },
            decreases maze_width - col,
        {
            proof {
                assert(0 <= col * mini_block && col * mini_block + mini_block <= maze_width
                    * mini_block && 0 <= row * mini_block && row * mini_block + mini_block
                    <= maze_height * mini_block) by (nonlinear_arith)
                    requires
                        0 <= col < maze_width && 0 <= row < maze_height && 0 <= mini_block,
                ;
            }
            let cell = maze.rows[row as usize][col as usize];
            let draw = match cell {
                Cell::Empty => false,
                _ => true,
            };
            if draw {
                let color = wall_color(cell);
                fb.set_current_color(color);
                let cx: u32 = minimap_x + col * mini_block;
                let cy: u32 = minimap_y + row * mini_block;
                fb.draw_rectangle(cx, cy, mini_block, mini_block);
            }
            proof {
                if mini_block >= 1 {
                    lemma_block_index(l.mx, l.mb, col as int, 0);
                }
                assert forall|px: int, py: int|
                    #[trigger] fb.pix(px, py) == if spec_cell_block_before(*maze, l,
                        row as int, col as int + 1, px, py) && old(fb).spec_in_bounds(px,
                        py) {
                        spec_cell_block_color(*maze, l, px, py)
                    } else if spec_on_backdrop(l, px, py) && old(fb).spec_in_bounds(px,
                        py) {
                        spec_backdrop_color()
                    } else {
                        old(fb).pix(px, py)
                    } by {
                    if mini_block >= 1 {
                        lemma_block_index(l.mx, l.mb, col as int, px);
                        lemma_block_index(l.my, l.mb, row as int, py);
                    }
                }
            }
            col = col + 1;
        }
        proof {
            // A full row walked equals the walk standing at the start of
            // the next row: the column index of any block is below the
            // width.
            assert forall|px: int, py: int|
                spec_cell_block_before(*maze, l, row as int, maze_width as int, px, py)
                    == spec_cell_block_before(*maze, l, row as int + 1, 0, px, py) by {}
        }
        row = row + 1;
    }
    proof {
        // The whole grid walked covers exactly the wall-cell blocks: any
        // block's row index is below the height.
        assert forall|px: int, py: int|
            spec_cell_block_before(*maze, l, maze_height as int, 0, px, py)
                == spec_on_cell_block(*maze, l, px, py) by {}
    }

    // The player marker, scaled into map pixels from the world position;
    // skipped if it would poke past the screen's top or left edge.
    let bfp: i64 = block_size * FP_ONE;
    proof {
        assert(0 <= player_x * mini_block && player_x * mini_block <= (maze_width
            * mini_block) * bfp && (maze_width * mini_block) * bfp <= 0x4000_0000_0000)
            by (nonlinear_arith)
            requires
                0 <= player_x <= maze_width * bfp && 0 < bfp <= 0x1000_0000 && 0
                    <= mini_block && maze_width * mini_block <= 150,
        ;
        assert(0 <= player_y * mini_block && player_y * mini_block <= (maze_height
            * mini_block) * bfp && (maze_height * mini_block) * bfp <= 0x9_0000_0000_0000)
            by (nonlinear_arith)
            requires
                0 <= player_y <= maze_height * bfp && 0 < bfp <= 0x1000_0000 && 0
                    <= mini_block && maze_height * mini_block <= 1024 * 150,
        ;
        assert(player_x * mini_block / (bfp as int) <= maze_width * mini_block && player_y
            * mini_block / (bfp as int) <= maze_height * mini_block) by (nonlinear_arith)
            requires
                0 < bfp && 0 <= player_x * mini_block <= (maze_width * mini_block) * bfp
                    && 0 <= player_y * mini_block <= (maze_height * mini_block) * bfp,
        ;
    }
    let mini_px: u32 = minimap_x + ((player_x * mini_block as i64) / bfp) as u32;
    let mini_py: u32 = minimap_y + ((player_y * mini_block as i64) / bfp) as u32;

    let player_color = if blink_red {
        Color { r: 230, g: 41, b: 55, a: 255 }
    } else {
        Color { r: 253, g: 249, b: 0, a: 255 }
    };
    fb.set_current_color(player_color);
    let half: u32 = player_size / 2;
    if mini_px >= half && mini_py >= half {
        fb.draw_rectangle(mini_px - half, mini_py - half, player_size, player_size);
    }

    // The heading indicator.
    fb.set_current_color(Color { r: 255, g: 255, b: 255, a: 255 });
    let lx0: i32 = mini_px as i32;
    let ly0: i32 = mini_py as i32;
    let lx1: i32 = lx0 + dir_dx;
    let ly1: i32 = ly0 + dir_dy;
    fb.draw_line(lx0, ly0, lx1, ly1);
}

} // verus!
