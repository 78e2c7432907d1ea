//! The CPU-side framebuffer: a width x height grid of colors written a
//! pixel, a vertical strip, or a rectangle at a time, and read back pixel
//! by pixel. Every access is bounds-checked: a write outside the surface
//! is a no-op and a read outside it returns the background color, never an
//! error, so the renderer's hot loop needs no checks of its own.

use vstd::prelude::*;
use vstd::pervasive::VecAdditionalExecFns;
use crate::color::Color;

verus! {

/// An off-screen pixel surface plus the two pens the drawing calls use:
/// the current color that writes paint with, and the background color
/// that `clear` fills with and out-of-range reads return.
pub struct Framebuffer {
    pub pixels: Vec<Color>,
    pub width: u32,
    pub height: u32,
    pub current_color: Color,
    pub background_color: Color,
}

/// Pixel rows are stored back to back, so position `(x, y)` lives at
/// index `y * width + x`.
pub open spec fn pixel_index(width: int, x: int, y: int) -> int {
    y * width + x
}

/// Distinct in-bounds positions live at distinct indices.
proof fn lemma_pixel_index_distinct(w: int, x1: int, y1: int, x2: int, y2: int)
    requires
        0 <= x1 < w,
        0 <= x2 < w,
        0 <= y1,
        0 <= y2,
        x1 != x2 || y1 != y2,
    ensures
        pixel_index(w, x1, y1) != pixel_index(w, x2, y2),
{
    assert(y1 * w + x1 != y2 * w + x2) by (nonlinear_arith)
        requires
            0 <= x1 < w && 0 <= x2 < w && 0 <= y1 && 0 <= y2 && (x1 != x2 || y1 != y2),
    ;
}

/// An in-bounds position's index lies within the pixel array.
proof fn lemma_pixel_index_bounds(w: int, h: int, x: int, y: int)
    requires
        0 <= x < w,
        0 <= y < h,
    ensures
        0 <= pixel_index(w, x, y) < w * h,
{
    assert(0 <= y * w + x < w * h) by (nonlinear_arith)
        requires
            0 <= x < w && 0 <= y < h,
    ;
}

impl Framebuffer {
    /// The pixel array matches the surface size, and the dimensions are
    /// small enough that index arithmetic stays within `u32`.
    pub open spec fn wf(self) -> bool {
        &&& self.pixels@.len() == self.width * self.height
        &&& self.width * self.height <= u32::MAX
        &&& self.width <= 0x7fff_ffff
        &&& self.height <= 0x7fff_ffff
    }

    /// Whether `(x, y)` lies on the surface.
    pub open spec fn spec_in_bounds(self, x: int, y: int) -> bool {
        0 <= x < self.width && 0 <= y < self.height
    }

    /// The color seen at `(x, y)`: the stored pixel on the surface, the
    /// background color off it.
    pub open spec fn pix(self, x: int, y: int) -> Color {
        if self.spec_in_bounds(x, y) {
            self.pixels@[pixel_index(self.width as int, x, y)]
        } else {
            self.background_color
        }
    }

    /// The surface size and both pens are those of `other`: everything
    /// but the pixel contents agrees.
    pub open spec fn same_config(self, other: Framebuffer) -> bool {
        &&& self.width == other.width
        &&& self.height == other.height
        &&& self.current_color == other.current_color
        &&& self.background_color == other.background_color
    }

    /// Creates a surface of the given size with every pixel black, a
    /// white pen and a black background, as a fresh window starts out.
    pub fn new(width: u32, height: u32) -> (fb: Framebuffer)
        requires
            width * height <= u32::MAX,
            width <= 0x7fff_ffff,
            height <= 0x7fff_ffff,
        ensures
            fb.wf(),
            fb.width == width,
            fb.height == height,
            fb.current_color == (Color { r: 255, g: 255, b: 255, a: 255 }),
            fb.background_color == (Color { r: 0, g: 0, b: 0, a: 255 }),
            forall|x: int, y: int|
                #[trigger] fb.pix(x, y) == (Color { r: 0, g: 0, b: 0, a: 255 }),
    {
        proof {
            assert(width * height <= u32::MAX as int ==> (width as u32 as int) * (
            height as int) <= u32::MAX);
        }
        let total_pixels: usize = (width as usize) * (height as usize);
        let pixels: Vec<Color> = vec![Color::black(); total_pixels];
        let fb = Framebuffer {
            pixels,
            width,
            height,
            current_color: Color::white(),
            background_color: Color::black(),
        };
        proof {
            assert forall|x: int, y: int|
                #[trigger] fb.pix(x, y) == (Color { r: 0, g: 0, b: 0, a: 255 }) by {
                if fb.spec_in_bounds(x, y) {
                    lemma_pixel_index_bounds(fb.width as int, fb.height as int, x, y);
                }
            }
        }
        fb
    }

    /// Fills every pixel with the background color; run once at the start
    /// of each frame before any writes.
    pub fn clear(&mut self)
        requires
            old(self).wf(),
        ensures
            final(self).wf(),
            final(self).same_config(*old(self)),
            forall|x: int, y: int|
                #[trigger] final(self).pix(x, y) == final(self).background_color,
    {
        let total: usize = self.pixels.len();
        let mut i: usize = 0;
        while i < total
            invariant
                self.wf(),
                self.same_config(*old(self)),
                total == self.pixels@.len(),
                i <= total,
                forall|j: int| 0 <= j < i ==> self.pixels@[j] == self.background_color,
            decreases total - i,
        {
            let bg = self.background_color;
            self.pixels.set(i, bg);
            i = i + 1;
        }
        proof {
            assert forall|x: int, y: int|
                #[trigger] self.pix(x, y) == self.background_color by {
                if self.spec_in_bounds(x, y) {
                    lemma_pixel_index_bounds(self.width as int, self.height as int, x, y);
                }
            }
        }
    }

    /// Sets the background color that `clear` fills with.
    pub fn set_background_color(&mut self, color: Color)
        ensures
            *final(self) == (Framebuffer { background_color: color, ..*old(self) }),
    {
        self.background_color = color;
    }

    /// Sets the pen that the drawing calls paint with.
    pub fn set_current_color(&mut self, color: Color)
        ensures
            *final(self) == (Framebuffer { current_color: color, ..*old(self) }),
            forall|px: int, py: int|
                #[trigger] final(self).pix(px, py) == old(self).pix(px, py),
    {
        self.current_color = color;
    }

    /// Paints `(x, y)` with `color` if it lies on the surface; off the
    /// surface the call is a no-op, never an error.
    pub fn set_pixel_color(&mut self, x: u32, y: u32, color: Color)
        requires
            old(self).wf(),
        ensures
            final(self).wf(),
            final(self).same_config(*old(self)),
            forall|px: int, py: int|
                #[trigger] final(self).pix(px, py) == if px == x && py == y
                    && old(self).spec_in_bounds(x as int, y as int) {
                    color
                } else {
                    old(self).pix(px, py)
                },
    {
        if x < self.width && y < self.height {
            proof {
                lemma_pixel_index_bounds(self.width as int, self.height as int, x as int,
                    y as int);
            }
            let index = (y * self.width + x) as usize;
            self.pixels.set(index, color);
            proof {
                assert forall|px: int, py: int|
                    #[trigger] self.pix(px, py) == if px == x && py == y {
                        color
                    } else {
                        old(self).pix(px, py)
                    } by {
                    if self.spec_in_bounds(px, py) {
                        lemma_pixel_index_bounds(self.width as int, self.height as int, px,
                            py);
                        if px != x || py != y {
                            lemma_pixel_index_distinct(self.width as int, px, py, x as int,
                                y as int);
                        }
                    }
                }
            }
        }
    }

    /// Paints `(x, y)` with the current pen; bounds-checked the same way.
    pub fn set_pixel(&mut self, x: u32, y: u32)
        requires
            old(self).wf(),
        ensures
            final(self).wf(),
            final(self).same_config(*old(self)),
            forall|px: int, py: int|
                #[trigger] final(self).pix(px, py) == if px == x && py == y
                    && old(self).spec_in_bounds(x as int, y as int) {
                    old(self).current_color
                } else {
                    old(self).pix(px, py)
                },
    {
        let color = self.current_color;
        self.set_pixel_color(x, y, color);
    }

    /// Reads the pixel at `(x, y)`; off the surface the background color
    /// comes back, whatever was written before.
    pub fn get_pixel(&self, x: u32, y: u32) -> (c: Color)
        requires
            self.wf(),
        ensures
            c == self.pix(x as int, y as int),
    {
        if x < self.width && y < self.height {
            proof {
                lemma_pixel_index_bounds(self.width as int, self.height as int, x as int,
                    y as int);
            }
            let index = (y * self.width + x) as usize;
            self.pixels[index]
        } else {
            self.background_color
        }
    }

    /// Writing a pixel and then reading it back yields the color written,
    /// for every in-bounds position; a read outside the surface yields the
    /// background color regardless of prior writes. `after` is any state
    /// that `set_pixel_color(x, y, c)` may leave `before` in.
    pub proof fn lemma_pixel_round_trip(
        before: Framebuffer,
        after: Framebuffer,
        x: u32,
        y: u32,
        c: Color,
    )
        requires
            before.wf(),
            after.same_config(before),
            forall|px: int, py: int|
                #[trigger] after.pix(px, py) == if px == x && py == y
                    && before.spec_in_bounds(x as int, y as int) {
                    c
                } else {
                    before.pix(px, py)
                },
        ensures
            before.spec_in_bounds(x as int, y as int) ==> after.pix(x as int, y as int)
                == c,
            forall|px: int, py: int|
                !after.spec_in_bounds(px, py) ==> #[trigger] after.pix(px, py)
                    == after.background_color,
    {
    }

    /// Clearing twice in a row is the same as clearing once: a second
    /// clear leaves the framebuffer exactly as the first did, pixel array
    /// included. `mid` is any state one `clear` may leave `start` in, and
    /// `end` any state a second `clear` may leave `mid` in.
    pub proof fn lemma_clear_idempotent(start: Framebuffer, mid: Framebuffer, end: Framebuffer)
        requires
            mid.wf(),
            end.wf(),
            mid.same_config(start),
            end.same_config(mid),
            forall|x: int, y: int| #[trigger] mid.pix(x, y) == mid.background_color,
            forall|x: int, y: int| #[trigger] end.pix(x, y) == end.background_color,
        ensures
            end.pixels@ =~= mid.pixels@,
            end.same_config(mid),
            forall|x: int, y: int| #[trigger] end.pix(x, y) == mid.pix(x, y),
    {
        assert forall|i: int| 0 <= i < mid.pixels@.len() implies mid.pixels@[i]
            == end.pixels@[i] by {
            let w = mid.width as int;
            let h = mid.height as int;
            assert(w >= 1 && h >= 1) by (nonlinear_arith)
                requires
                    w >= 0 && h >= 0 && w * h > 0,
            ;
            let x = i % w;
            let y = i / w;
            assert(0 <= x < w && 0 <= y < h && y * w + x == i) by (nonlinear_arith)
                requires
                    0 <= i < w * h && x == i % w && y == i / w && w >= 1,
            ;
            assert(mid.pix(x, y) == mid.pixels@[i]);
            assert(end.pix(x, y) == end.pixels@[i]);
        }
    }

    /// Whether `py` lies in the painted span of a vertical line asked to
    /// run from `y_start` to `y_end`: the span clamped to the surface.
    pub open spec fn spec_in_vspan(self, y_start: int, y_end: int, py: int) -> bool {
        &&& py >= y_start
        &&& py >= 0
        &&& py <= y_end
        &&& py < self.height
    }

    /// Draws a vertical line in column `x` with the current pen, from
    /// `y_start` to `y_end` inclusive, both clamped to the surface.
    pub fn draw_vertical_line(&mut self, x: u32, y_start: i32, y_end: i32)
        requires
            old(self).wf(),
        ensures
            final(self).wf(),
            final(self).same_config(*old(self)),
            forall|px: int, py: int|
                #[trigger] final(self).pix(px, py) == if px == x
                    && old(self).spec_in_vspan(y_start as int, y_end as int, py)
                    && x < old(self).width {
                    old(self).current_color
                } else {
                    old(self).pix(px, py)
                },
    {
        if self.height == 0 {
            return;
        }
        let ys: i32 = if y_start < 0 { 0 } else { y_start };
        let h_minus_1: i32 = (self.height - 1) as i32;
        let ye: i32 = if y_end > h_minus_1 { h_minus_1 } else { y_end };
        if ye < ys {
            return;
        }
        let mut y: i32 = ys;
        while y <= ye
            invariant
                self.wf(),
                self.same_config(*old(self)),
                ys == if y_start < 0 { 0 } else { y_start as int },
                ye == if y_end > old(self).height - 1 { old(self).height - 1 } else {
                    y_end as int
                },
                ys <= y,
                y <= ye + 1,
                forall|px: int, py: int|
                    #[trigger] self.pix(px, py) == if px == x && ys <= py < y
                        && x < old(self).width {
                        old(self).current_color
                    } else {
                        old(self).pix(px, py)
                    },
            decreases ye + 1 - y,
        {
            self.set_pixel(x, y as u32);
            y = y + 1;
        }
    }

    /// Fills the axis-aligned rectangle with corner `(x, y)` and the given
    /// width and height with the current pen, clipped to the surface.
    pub fn draw_rectangle(&mut self, x: u32, y: u32, width: u32, height: u32)
        requires
            old(self).wf(),
            x + width <= u32::MAX,
            y + height <= u32::MAX,
        ensures
            final(self).wf(),
            final(self).same_config(*old(self)),
            forall|px: int, py: int|
                #[trigger] final(self).pix(px, py) == if x <= px < x + width
                    && y <= py < y + height && old(self).spec_in_bounds(px, py) {
                    old(self).current_color
                } else {
                    old(self).pix(px, py)
                },
    {
        let mut dy: u32 = 0;
        while dy < height
            invariant
                self.wf(),
                self.same_config(*old(self)),
                x + width <= u32::MAX,
                y + height <= u32::MAX,
                dy <= height,
                forall|px: int, py: int|
                    #[trigger] self.pix(px, py) == if x <= px < x + width
                        && y <= py < y + dy && old(self).spec_in_bounds(px, py) {
                        old(self).current_color
                    } else {
                        old(self).pix(px, py)
                    },
            decreases height - dy,
        {
            let mut dx: u32 = 0;
            while dx < width
                invariant
                    self.wf(),
                    self.same_config(*old(self)),
                    x + width <= u32::MAX,
                    y + height <= u32::MAX,
                    dx <= width,
                    dy < height,
                    forall|px: int, py: int|
                        #[trigger] self.pix(px, py) == if ((x <= px < x + width
                            && y <= py < y + dy) || (py == y + dy && x <= px < x + dx))
                            && old(self).spec_in_bounds(px, py) {
                            old(self).current_color
                        } else {
                            old(self).pix(px, py)
                        },
                decreases width - dx,
            {
                self.set_pixel(x + dx, y + dy);
                dx = dx + 1;
            }
            dy = dy + 1;
        }
    }
}

} // verus!
