use raycasting::framebuffer::Framebuffer;
use raycasting::color::Color;

fn rgba(r: u8, g: u8, b: u8, a: u8) -> Color {
    Color { r, g, b, a }
}

#[test]
fn pixel_write_read_round_trip() {
    let mut fb = Framebuffer::new(8, 8);
    let c = rgba(10, 20, 30, 255);
    fb.set_pixel_color(3, 4, c);
    assert_eq!(fb.get_pixel(3, 4), c);
    // Every other pixel still holds the initial black.
    assert_eq!(fb.get_pixel(4, 3), rgba(0, 0, 0, 255));
}

#[test]
fn out_of_bounds_reads_return_background_writes_are_noops() {
    let mut fb = Framebuffer::new(8, 8);
    let c = rgba(10, 20, 30, 255);
    fb.set_pixel_color(100, 1, c);
    fb.set_pixel_color(1, 100, c);
    for y in 0..8 {
        for x in 0..8 {
            assert_eq!(fb.get_pixel(x, y), rgba(0, 0, 0, 255));
        }
    }
    assert_eq!(fb.get_pixel(100, 1), rgba(0, 0, 0, 255));
    // The out-of-range read tracks the configured background color.
    fb.set_background_color(rgba(1, 2, 3, 255));
    assert_eq!(fb.get_pixel(100, 1), rgba(1, 2, 3, 255));
}

#[test]
fn clear_twice_equals_clear_once() {
    let mut fb = Framebuffer::new(6, 6);
    fb.set_background_color(rgba(9, 9, 9, 255));
    fb.set_pixel_color(2, 2, rgba(200, 0, 0, 255));
    fb.set_pixel_color(5, 0, rgba(0, 200, 0, 255));
    fb.clear();
    let mut once: Vec<Color> = Vec::new();
    for y in 0..6 {
        for x in 0..6 {
            once.push(fb.get_pixel(x, y));
        }
    }
    fb.clear();
    let mut i = 0;
    for y in 0..6 {
        for x in 0..6 {
            assert_eq!(fb.get_pixel(x, y), once[i]);
            assert_eq!(fb.get_pixel(x, y), rgba(9, 9, 9, 255));
            i += 1;
        }
    }
}

#[test]
fn vertical_line_is_clamped_to_the_surface() {
    let mut fb = Framebuffer::new(8, 8);
    let c = rgba(7, 7, 7, 255);
    fb.set_current_color(c);
    fb.draw_vertical_line(2, -5, 100);
    for y in 0..8 {
        assert_eq!(fb.get_pixel(2, y), c);
        assert_eq!(fb.get_pixel(3, y), rgba(0, 0, 0, 255));
        assert_eq!(fb.get_pixel(1, y), rgba(0, 0, 0, 255));
    }
}

#[test]
fn rectangle_fills_its_clipped_area() {
    let mut fb = Framebuffer::new(8, 8);
    let c = rgba(40, 50, 60, 255);
    fb.set_current_color(c);
    fb.draw_rectangle(5, 6, 10, 10);
    for y in 0..8 {
        for x in 0..8 {
            if x >= 5 && y >= 6 {
                assert_eq!(fb.get_pixel(x, y), c);
            } else {
                assert_eq!(fb.get_pixel(x, y), rgba(0, 0, 0, 255));
            }
        }
    }
}

#[test]
fn line_walks_the_diagonal() {
    let mut fb = Framebuffer::new(8, 8);
    let c = rgba(255, 255, 255, 255);
    fb.set_current_color(c);
    fb.draw_line(0, 0, 3, 3);
    for i in 0..4 {
        assert_eq!(fb.get_pixel(i, i), c);
    }
    assert_eq!(fb.get_pixel(0, 1), rgba(0, 0, 0, 255));
    assert_eq!(fb.get_pixel(4, 4), rgba(0, 0, 0, 255));
}

#[test]
fn line_covers_a_horizontal_run() {
    let mut fb = Framebuffer::new(8, 8);
    let c = rgba(1, 2, 3, 255);
    fb.set_current_color(c);
    fb.draw_line(1, 2, 5, 2);
    for x in 1..=5 {
        assert_eq!(fb.get_pixel(x, 2), c);
    }
    assert_eq!(fb.get_pixel(0, 2), rgba(0, 0, 0, 255));
    assert_eq!(fb.get_pixel(6, 2), rgba(0, 0, 0, 255));
}
