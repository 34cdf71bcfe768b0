//! An RGBA colour with byte channels and the source-over blend operator.
//!
//! All four channels run from 0 to 255; alpha 0 is fully transparent and
//! alpha 255 fully opaque. Blending is pure integer arithmetic, so repeated
//! composites of the same scene are bit-for-bit reproducible.

use vstd::prelude::*;

verus! {

use vstd::arithmetic::div_mod::lemma_multiply_divide_lt;
use vstd::arithmetic::mul::{lemma_mul_inequality, lemma_mul_left_inequality, lemma_mul_upper_bound};

/// An RGBA colour. Equality is exact on all four channels.
#[derive(Clone, Copy, PartialEq, Eq, Structural, Debug)]
pub struct Color {
    pub r: u8,
    pub g: u8,
    pub b: u8,
    pub a: u8,
}

impl Color {
    pub fn new(r: u8, g: u8, b: u8, a: u8) -> (c: Color)
        ensures
            c == (Color { r, g, b, a }),
    {
        Color { r, g, b, a }
    }

    pub fn r(&self) -> (v: u8)
        ensures
            v == self.r,
    {
        self.r
    }

    pub fn g(&self) -> (v: u8)
        ensures
            v == self.g,
    {
        self.g
    }

    pub fn b(&self) -> (v: u8)
        ensures
            v == self.b,
    {
        self.b
    }

    pub fn a(&self) -> (v: u8)
        ensures
            v == self.a,
    {
        self.a
    }

    pub fn rgb(&self) -> (t: (u8, u8, u8))
        ensures
            t == (self.r, self.g, self.b),
    {
        (self.r, self.g, self.b)
    }

    pub fn rgba(&self) -> (t: (u8, u8, u8, u8))
        ensures
            t == (self.r, self.g, self.b, self.a),
    {
        (self.r, self.g, self.b, self.a)
    }

    /// Opaque white.
    pub fn white() -> (c: Color)
        ensures
            c == (Color { r: 255u8, g: 255u8, b: 255u8, a: 255u8 }),
    {
        Color { r: 255, g: 255, b: 255, a: 255 }
    }

    /// Opaque black.
    pub fn black() -> (c: Color)
        ensures
            c == (Color { r: 0u8, g: 0u8, b: 0u8, a: 255u8 }),
    {
        Color { r: 0, g: 0, b: 0, a: 255 }
    }

    /// Fully transparent black.
    pub fn clear() -> (c: Color)
        ensures
            c == (Color { r: 0u8, g: 0u8, b: 0u8, a: 0u8 }),
    {
        Color { r: 0, g: 0, b: 0, a: 0 }
    }
}

/// The combined alpha weight of a source-over composite, scaled by 255:
/// `255 * out_alpha` where `out_alpha = top_a + bottom_a * (1 - top_a / 255)`.
pub open spec fn blend_weight(bottom_a: int, top_a: int) -> int {
    255 * top_a + bottom_a * (255 - top_a)
}

/// One colour channel of a source-over composite with byte alphas:
/// the alpha-weighted average of the two channels, rounded to nearest.
pub open spec fn spec_blend_channel(bottom_c: int, bottom_a: int, top_c: int, top_a: int) -> int {
    let aa = blend_weight(bottom_a, top_a);
    let nn = 255 * top_a * top_c + bottom_a * (255 - top_a) * bottom_c;
    (2 * nn + aa) / (2 * aa)
}

/// The alpha of a source-over composite, rounded to the nearest byte.
pub open spec fn spec_blend_alpha(bottom_a: int, top_a: int) -> int {
    (blend_weight(bottom_a, top_a) + 127) / 255
}

/// Source-over compositing of `top` onto `bottom`. An opaque top wins
/// outright and a fully transparent top leaves the bottom untouched; when
/// both alphas are zero the result is defined as fully transparent black.
/// The remaining cases take the rounded alpha-weighted channel average.
pub open spec fn spec_blend_over(bottom: Color, top: Color) -> Color {
    if top.a == 255 {
        top
    } else if top.a == 0 {
        if bottom.a == 0 {
            Color { r: 0u8, g: 0u8, b: 0u8, a: 0u8 }
        } else {
            bottom
        }
    } else {
        Color {
            r: spec_blend_channel(bottom.r as int, bottom.a as int, top.r as int, top.a as int) as u8,
            g: spec_blend_channel(bottom.g as int, bottom.a as int, top.g as int, top.a as int) as u8,
            b: spec_blend_channel(bottom.b as int, bottom.a as int, top.b as int, top.a as int) as u8,
            a: spec_blend_alpha(bottom.a as int, top.a as int) as u8,
        }
    }
}

/// Bounds on the blended channel value: it always fits in a byte.
proof fn lemma_blend_channel_bounds(bottom_c: int, bottom_a: int, top_c: int, top_a: int)
    requires
        0 <= bottom_c <= 255,
        0 <= bottom_a <= 255,
        0 <= top_c <= 255,
        1 <= top_a <= 254,
    ensures
        0 <= spec_blend_channel(bottom_c, bottom_a, top_c, top_a) <= 255,
        255 <= blend_weight(bottom_a, top_a) <= 65025,
        0 <= 255 * top_a * top_c + bottom_a * (255 - top_a) * bottom_c <= 255 * blend_weight(
            bottom_a,
            top_a,
        ),
{
    let aa = blend_weight(bottom_a, top_a);
    let nn = 255 * top_a * top_c + bottom_a * (255 - top_a) * bottom_c;
    lemma_mul_inequality(bottom_a, 255, 255 - top_a);
    assert(aa <= 255 * top_a + 255 * (255 - top_a));
    lemma_mul_upper_bound(bottom_a, 255, 255 - top_a, 255);
    assert(255 * top_a * top_c + bottom_a * (255 - top_a) * bottom_c <= 255 * (255 * top_a
        + bottom_a * (255 - top_a))) by (nonlinear_arith)
        requires
            0 <= bottom_c <= 255,
            0 <= bottom_a,
            0 <= top_c <= 255,
            0 <= top_a <= 255,
    ;
    assert(nn <= 255 * aa);
    assert(2 * nn + aa < (2 * aa) * 256);
    lemma_multiply_divide_lt(2 * nn + aa, 2 * aa, 256);
    assert(0 <= nn) by {
        lemma_mul_upper_bound(255 * top_a, 65025int, top_c, 255);
        assert(0 <= 255 * top_a * top_c) by (nonlinear_arith)
            requires
                0 <= top_a,
                0 <= top_c,
        ;
        assert(0 <= bottom_a * (255 - top_a) * bottom_c) by (nonlinear_arith)
            requires
                0 <= bottom_a,
                top_a <= 255,
                0 <= bottom_c,
        ;
    }
}

/// One blended channel, computed exactly as `spec_blend_channel` states.
fn blend_channel(bottom_c: u8, bottom_a: u8, top_c: u8, top_a: u8) -> (v: u8)
    requires
        1 <= top_a <= 254,
    ensures
        v as int == spec_blend_channel(bottom_c as int, bottom_a as int, top_c as int, top_a as int),
{
    proof {
        lemma_blend_channel_bounds(bottom_c as int, bottom_a as int, top_c as int, top_a as int);
    }
    let tw: u32 = 255 * (top_a as u32);
    let bw: u32 = (bottom_a as u32) * (255 - (top_a as u32));
    proof {
        lemma_mul_upper_bound(bottom_a as int, 255, 255 - top_a as int, 255);
    }
    let aa: u32 = tw + bw;
    let nn: u32 = tw * (top_c as u32) + bw * (bottom_c as u32);
    proof {
        lemma_mul_upper_bound(tw as int, 65025, top_c as int, 255);
        lemma_mul_upper_bound(bw as int, 65025, bottom_c as int, 255);
    }
    ((2 * nn + aa) / (2 * aa)) as u8
}

/// Porter-Duff source-over composite of `top` onto `bottom`.
///
/// With a fully opaque top the result is exactly `top`; with a fully
/// transparent top it is exactly `bottom` (or fully transparent black when
/// the bottom is itself fully transparent). All arithmetic is integral, so
/// the same inputs always blend to the same output.
pub fn blend_over(bottom: Color, top: Color) -> (out: Color)
    ensures
        out == spec_blend_over(bottom, top),
{
    if top.a == 255 {
        return top;
    }
    if top.a == 0 {
        if bottom.a == 0 {
            return Color::clear();
        }
        return bottom;
    }
    proof {
        lemma_blend_channel_bounds(bottom.r as int, bottom.a as int, top.r as int, top.a as int);
        lemma_mul_inequality(bottom.a as int, 255, 255 - top.a as int);
        lemma_mul_upper_bound(bottom.a as int, 255, 255 - top.a as int, 255);
    }
    let tw: u32 = 255 * (top.a as u32);
    let bw: u32 = (bottom.a as u32) * (255 - (top.a as u32));
    let aa: u32 = tw + bw;
    let out_a: u32 = (aa + 127) / 255;
    Color {
        r: blend_channel(bottom.r, bottom.a, top.r, top.a),
        g: blend_channel(bottom.g, bottom.a, top.g, top.a),
        b: blend_channel(bottom.b, bottom.a, top.b, top.a),
        a: out_a as u8,
    }
}

/// Law: blending with a fully opaque top colour yields exactly the top
/// colour; blending with a fully transparent top yields exactly the bottom
/// colour, except that when the bottom is itself fully transparent the
/// result is the defined fully transparent black.
pub proof fn lemma_blend_opacity_edge_cases(bottom: Color, top: Color)
    ensures
        top.a == 255 ==> spec_blend_over(bottom, top) == top,
        top.a == 0 && bottom.a != 0 ==> spec_blend_over(bottom, top) == bottom,
        top.a == 0 && bottom.a == 0 ==> spec_blend_over(bottom, top) == (Color {
            r: 0u8,
            g: 0u8,
            b: 0u8,
            a: 0u8,
        }),
{
}

} // verus!

