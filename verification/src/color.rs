//! RGBA colors and the integer channel arithmetic the renderer shades with.

use vstd::prelude::*;

verus! {

/// An RGBA color, one byte per channel.
#[derive(Clone, Copy, PartialEq, Eq, Structural, Debug)]
pub struct Color {
    pub r: u8,
    pub g: u8,
    pub b: u8,
    pub a: u8,
}

/// What scaling a channel by the fraction `num / den` yields.
pub open spec fn spec_scale_channel(c: u8, num: int, den: int) -> int {
    c * num / den
}

impl Color {
    /// Builds a color from its four channels.
    pub fn new(r: u8, g: u8, b: u8, a: u8) -> (c: Color)
        ensures
            c == (Color { r, g, b, a }),
    {
        Color { r, g, b, a }
    }

    /// The all-black, fully opaque color.
    pub fn black() -> (c: Color)
        ensures
            c == (Color { r: 0, g: 0, b: 0, a: 255 }),
    {
        Color { r: 0, g: 0, b: 0, a: 255 }
    }

    /// The all-white, fully opaque color.
    pub fn white() -> (c: Color)
        ensures
            c == (Color { r: 255, g: 255, b: 255, a: 255 }),
    {
        Color { r: 255, g: 255, b: 255, a: 255 }
    }
}

/// What scaling a whole color by `num / den` yields: each of the three
/// color channels is scaled and truncated, alpha becomes opaque.
pub open spec fn spec_scale_color(c: Color, num: int, den: int) -> Color {
    Color {
        r: spec_scale_channel(c.r, num, den) as u8,
        g: spec_scale_channel(c.g, num, den) as u8,
        b: spec_scale_channel(c.b, num, den) as u8,
        a: 255,
    }
}

/// Scales one channel by `num / den`, truncating toward zero.
pub fn scale_channel(c: u8, num: u32, den: u32) -> (r: u8)
    requires
        0 < den,
        num <= den,
    ensures
        r == spec_scale_channel(c, num as int, den as int),
{
    proof {
        assert(c * num <= 255 * den && c * num >= 0) by (nonlinear_arith)
            requires
                c <= 255 && 0 < den && num <= den,
        ;
        assert(c * num / (den as int) <= 255) by (nonlinear_arith)
            requires
                0 < den && c * num <= 255 * den && c * num >= 0,
        ;
    }
    ((c as u64 * num as u64) / den as u64) as u8
}

/// Scales the color channels of `c` by `num / den`; the result is opaque.
pub fn scale_color(c: Color, num: u32, den: u32) -> (r: Color)
    requires
        0 < den,
        num <= den,
    ensures
        r == spec_scale_color(c, num as int, den as int),
{
    Color {
        r: scale_channel(c.r, num, den),
        g: scale_channel(c.g, num, den),
        b: scale_channel(c.b, num, den),
        a: 255,
    }
}

} // verus!
