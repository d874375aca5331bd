//! RGBA pixels with 8-bit channels, the fixed canvas background and header
//! foreground colors, and the integer "over" alpha-blend used when glyph
//! coverage is painted onto the canvas.

use vstd::prelude::*;
use vstd::arithmetic::div_mod::lemma_div_is_ordered;

verus! {

/// One RGBA pixel, 8 bits per channel.
#[derive(Clone, Copy, PartialEq, Eq, Structural, Debug)]
pub struct Rgba {
    /// Red channel.
    pub r: u8,
    /// Green channel.
    pub g: u8,
    /// Blue channel.
    pub b: u8,
    /// Alpha channel; 255 is fully opaque.
    pub a: u8,
}

/// The fixed background fill of the canvas, a dark slate, fully opaque.
pub open spec fn spec_background() -> Rgba {
    Rgba { r: 48, g: 48, b: 54, a: 255 }
}

/// The fixed foreground color of header text, a light gray, fully opaque.
pub open spec fn spec_foreground() -> Rgba {
    Rgba { r: 240, g: 240, b: 240, a: 255 }
}

/// The fixed background fill of the canvas.
pub fn background() -> (c: Rgba)
    ensures
        c == spec_background(),
{
    Rgba { r: 48, g: 48, b: 54, a: 255 }
}

/// The fixed foreground color of header text.
pub fn foreground() -> (c: Rgba)
    ensures
        c == spec_foreground(),
{
    Rgba { r: 240, g: 240, b: 240, a: 255 }
}

/// One channel of the "over" blend, in 8-bit arithmetic with rounding to
/// nearest: `dst * (1 - alpha) + fg * alpha`, with `alpha` scaled out of
/// 255.
pub open spec fn spec_blend_channel(dst: int, fg: int, alpha: int) -> int {
    (dst * (255 - alpha) + fg * alpha + 127) / 255
}

/// Blends `src` over `dst`: the three color channels composite with
/// `src`'s alpha as the coverage, and the destination alpha composites
/// toward fully opaque by the same coverage.
pub open spec fn spec_blend(dst: Rgba, src: Rgba) -> Rgba {
    Rgba {
        r: spec_blend_channel(dst.r as int, src.r as int, src.a as int) as u8,
        g: spec_blend_channel(dst.g as int, src.g as int, src.a as int) as u8,
        b: spec_blend_channel(dst.b as int, src.b as int, src.a as int) as u8,
        a: spec_blend_channel(dst.a as int, 255, src.a as int) as u8,
    }
}

/// The blended channel value stays in 8-bit range.
pub proof fn lemma_blend_channel_bounds(dst: int, fg: int, alpha: int)
    requires
        0 <= dst <= 255,
        0 <= fg <= 255,
        0 <= alpha <= 255,
    ensures
        0 <= spec_blend_channel(dst, fg, alpha) <= 255,
{
    let num = dst * (255 - alpha) + fg * alpha + 127;
    assert(0 <= dst * (255 - alpha) + fg * alpha + 127 <= 65152) by (nonlinear_arith)
        requires
            0 <= dst <= 255 && 0 <= fg <= 255 && 0 <= alpha <= 255;
    lemma_div_is_ordered(0, num, 255);
    lemma_div_is_ordered(num, 65152, 255);
    assert(65152int / 255 == 255) by (nonlinear_arith);
}

/// One channel of the "over" blend, executable.
pub fn blend_channel(dst: u8, fg: u8, alpha: u8) -> (r: u8)
    ensures
        r == spec_blend_channel(dst as int, fg as int, alpha as int),
{
    let d = dst as u32;
    let f = fg as u32;
    let a = alpha as u32;
    proof {
        assert(d * (255 - a) <= 65025 && f * a <= 65025) by (nonlinear_arith)
            requires
                0 <= d <= 255 && 0 <= f <= 255 && 0 <= a <= 255;
        lemma_blend_channel_bounds(dst as int, fg as int, alpha as int);
    }
    let num = d * (255 - a) + f * a + 127;
    (num / 255) as u8
}

/// Blends `src` over `dst` with `src.a` as the coverage.
pub fn blend(dst: Rgba, src: Rgba) -> (r: Rgba)
    ensures
        r == spec_blend(dst, src),
{
    proof {
        lemma_blend_channel_bounds(dst.r as int, src.r as int, src.a as int);
        lemma_blend_channel_bounds(dst.g as int, src.g as int, src.a as int);
        lemma_blend_channel_bounds(dst.b as int, src.b as int, src.a as int);
        lemma_blend_channel_bounds(dst.a as int, 255, src.a as int);
    }
    Rgba {
        r: blend_channel(dst.r, src.r, src.a),
        g: blend_channel(dst.g, src.g, src.a),
        b: blend_channel(dst.b, src.b, src.a),
        a: blend_channel(dst.a, 255, src.a),
    }
}

} // verus!
