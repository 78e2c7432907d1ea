use raycasting::maze::{Cell, MazeGrid};
use raycasting::framebuffer::Framebuffer;
use raycasting::color::Color;
use raycasting::renderer::{exit_color, fog_fade, render_scene, shade_color};
use raycasting::ui::draw_minimap_to_framebuffer;
use raycasting::FP_ONE;

fn grid_from(rows: &[&str]) -> MazeGrid {
    let lines: Vec<Vec<char>> = rows.iter().map(|r| r.chars().collect()).collect();
    MazeGrid::from_chars(&lines).expect("rectangular maze")
}

fn rgba(r: u8, g: u8, b: u8, a: u8) -> Color {
    Color { r, g, b, a }
}

#[test]
fn fog_fade_follows_the_linear_formula() {
    // No fade right at the camera, a third of the way at five cells.
    assert_eq!(fog_fade(0, 64), 1000);
    assert_eq!(fog_fade(320 * FP_ONE, 64), 1000 - 333);
    // Far beyond fifteen cells the fade floors at 300.
    assert_eq!(fog_fade(64 * 64 * FP_ONE, 64), 300);
}

#[test]
fn exit_color_blends_from_pink_to_white() {
    assert_eq!(exit_color(0), rgba(255, 99, 130, 255));
    assert_eq!(exit_color(1000), rgba(255, 255, 255, 255));
    assert_eq!(exit_color(500), rgba(255, 177, 192, 255));
}

#[test]
fn shading_applies_side_darkening_and_fog() {
    // A green wall 32 units away: fade is 1000 - 33 = 967 per mille.
    let c = shade_color(Cell::Green, false, 32 * FP_ONE, 64, 0, false);
    assert_eq!(c, rgba(58, 174, 58, 255));
    // The same hit on a side face is first darkened 7/10.
    let s = shade_color(Cell::Green, true, 32 * FP_ONE, 64, 0, false);
    assert_eq!(s, rgba(40, 121, 40, 255));
    // The damage blink halves the channels at the end.
    let b = shade_color(Cell::Green, false, 32 * FP_ONE, 64, 0, true);
    assert_eq!(b, rgba(29, 87, 29, 255));
}

#[test]
fn close_wall_fills_whole_columns() {
    // A 3x3 room of green walls: every eastward ray hits the wall 32
    // units out, so the strip covers each whole 4-pixel column.
    let m = grid_from(&[
        "AAA",
        "A A",
        "AAA",
    ]);
    let mut fb = Framebuffer::new(4, 4);
    let dirs: Vec<(i64, i64)> = vec![(FP_ONE, 0); 4];
    render_scene(&mut fb, &m, 96 * FP_ONE, 96 * FP_ONE, &dirs, 64, 0, false);
    let want = rgba(58, 174, 58, 255);
    for y in 0..4 {
        for x in 0..4 {
            assert_eq!(fb.get_pixel(x, y), want);
        }
    }
}

#[test]
fn far_wall_leaves_sky_above_and_floor_below() {
    // A corridor: the eastward wall face sits 224 units out, so on an
    // 8-pixel-high screen the strip is 2 pixels tall at rows 3 and 4.
    let m = grid_from(&[
        "######",
        "#    #",
        "######",
    ]);
    let mut fb = Framebuffer::new(8, 8);
    let dirs: Vec<(i64, i64)> = vec![(FP_ONE, 0); 8];
    render_scene(&mut fb, &m, 96 * FP_ONE, 96 * FP_ONE, &dirs, 64, 0, false);
    let sky = rgba(66, 135, 245, 255);
    let floor = rgba(180, 180, 180, 255);
    // fade = 1000 - 224000 / 960 = 767 per mille on the brick color.
    let strip = rgba(138, 46, 46, 255);
    for x in 0..8 {
        assert_eq!(fb.get_pixel(x, 0), sky);
        assert_eq!(fb.get_pixel(x, 1), sky);
        assert_eq!(fb.get_pixel(x, 2), floor);
        assert_eq!(fb.get_pixel(x, 3), strip);
        assert_eq!(fb.get_pixel(x, 4), strip);
        assert_eq!(fb.get_pixel(x, 5), strip);
        assert_eq!(fb.get_pixel(x, 6), floor);
        assert_eq!(fb.get_pixel(x, 7), floor);
    }
}

#[test]
fn minimap_paints_cells_marker_and_heading() {
    let m = grid_from(&[
        "AAAAAAAAAAAA",
        "A     A    A",
        "A BBB A CC A",
        "A B   A C  A",
        "A B BBB CCCC",
        "A   A      A",
        "BBB A DDDD A",
        "A   A    A A",
        "A DDDDD CC A",
        "A       A  A",
        "AAAAAAAAAAEA",
        "AAAAAAAAAAAA",
    ]);
    let mut fb = Framebuffer::new(200, 200);
    // Player in the middle of cell (1, 1); heading indicator points east.
    draw_minimap_to_framebuffer(&mut fb, &m, 96 * FP_ONE, 96 * FP_ONE, 64, 200, 6, false,
        5, 0);
    // The map square starts at x = 200 - 160 = 40 with 12-pixel cells.
    // Cell (0, 0) is a green wall.
    assert_eq!(fb.get_pixel(40, 12), rgba(60, 180, 60, 255));
    // Cell (1, 2) is open, so the translucent backdrop shows through.
    assert_eq!(fb.get_pixel(70, 25), rgba(66, 135, 245, 200));
    // The player marker (yellow, 6 pixels) sits around (58, 28).
    assert_eq!(fb.get_pixel(56, 26), rgba(253, 249, 0, 255));
    // The heading line is white just right of the marker center.
    assert_eq!(fb.get_pixel(61, 28), rgba(255, 255, 255, 255));
    // Far from the minimap's corner nothing was painted.
    assert_eq!(fb.get_pixel(5, 190), rgba(0, 0, 0, 255));
}
