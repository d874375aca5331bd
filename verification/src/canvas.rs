//! The output bitmap: a width-by-height grid of RGBA pixels, filled with
//! the background color at creation and written by region blits (tiles)
//! and per-pixel alpha blends (glyph coverage).

use vstd::prelude::*;
use vstd::arithmetic::div_mod::{
    lemma_fundamental_div_mod, lemma_fundamental_div_mod_converse_div,
    lemma_fundamental_div_mod_converse_mod, lemma_mod_division_less_than_divisor,
};
use vstd::arithmetic::mul::lemma_mul_inequality;
use crate::pixel::{spec_blend, Rgba};
use crate::tile::{Tile, TILE_PIXELS};

verus! {

/// Whether flat canvas index `k` falls inside the `tw`-by-`th` rectangle
/// whose top-left corner is `(ox, oy)`, on a canvas `w` pixels wide.
pub open spec fn rect_contains(w: int, ox: int, oy: int, tw: int, th: int, k: int) -> bool {
    &&& ox <= k % w < ox + tw
    &&& oy <= k / w < oy + th
}

/// The row-major index within that rectangle of the pixel at flat canvas
/// index `k`.
pub open spec fn rect_index(w: int, ox: int, oy: int, tw: int, k: int) -> int {
    (k / w - oy) * tw + (k % w - ox)
}

/// The flat canvas index of the rectangle's `i`-th pixel, row-major.
pub open spec fn rect_flat(w: int, ox: int, oy: int, tw: int, i: int) -> int {
    (oy + i / tw) * w + ox + i % tw
}

/// In a `tw`-wide row-major grid of `tw * th` cells, the `i`-th cell's
/// column is `i % tw` and its row `i / tw`, both inside the grid.
pub proof fn lemma_row_major_coords(tw: int, th: int, i: int)
    requires
        0 < tw,
        0 <= i < tw * th,
    ensures
        0 <= i % tw < tw,
        0 <= i / tw < th,
{
    let x = i % tw;
    let y = i / tw;
    lemma_mod_division_less_than_divisor(i, tw);
    lemma_fundamental_div_mod(i, tw);
    assert(y < th) by {
        if y >= th {
            assert(i >= tw * y) by (nonlinear_arith)
                requires
                    i == tw * y + i % tw && i % tw >= 0;
            assert(tw * y >= tw * th) by (nonlinear_arith)
                requires
                    y >= th && tw > 0;
        }
    };
    assert(y >= 0) by {
        if y < 0 {
            assert(tw * y + x < tw * 0 + x) by (nonlinear_arith)
                requires
                    y < 0 && tw > 0 && tw * y + x == i;
        }
    };
}

/// The rectangle's `i`-th pixel lies inside the rectangle and inside the
/// canvas, and `rect_index` inverts `rect_flat`.
pub proof fn lemma_rect_flat_in_bounds(w: int, h: int, ox: int, oy: int, tw: int, th: int, i: int)
    requires
        0 < tw,
        0 < w,
        0 <= ox,
        0 <= oy,
        ox + tw <= w,
        oy + th <= h,
        0 <= i < tw * th,
    ensures
        0 <= rect_flat(w, ox, oy, tw, i) < w * h,
        rect_contains(w, ox, oy, tw, th, rect_flat(w, ox, oy, tw, i)),
        rect_index(w, ox, oy, tw, rect_flat(w, ox, oy, tw, i)) == i,
{
    let x = i % tw;
    let y = i / tw;
    lemma_row_major_coords(tw, th, i);
    lemma_fundamental_div_mod(i, tw);
    let k = rect_flat(w, ox, oy, tw, i);
    // k == (oy + y) * w + (ox + x), with 0 <= ox + x < w
    lemma_fundamental_div_mod_converse_div(k, w, oy + y, ox + x);
    lemma_fundamental_div_mod_converse_mod(k, w, oy + y, ox + x);
    assert(k / w == oy + y && k % w == ox + x);
    // upper bound: (oy + y) * w + ox + x < (oy + y + 1) * w <= h * w
    assert((oy + y) * w + w == (oy + y + 1) * w) by (nonlinear_arith);
    lemma_mul_inequality(oy + y + 1, h, w);
    assert(k < h * w);
    assert(h * w == w * h) by (nonlinear_arith);
    assert((oy + y) * w >= 0) by (nonlinear_arith)
        requires
            oy + y >= 0 && w > 0;
    assert(y * tw == tw * y) by (nonlinear_arith);
}

/// A flat canvas index inside a rectangle is reached from its rectangle
/// index: `rect_flat` inverts `rect_index`.
pub proof fn lemma_rect_index_inverse(w: int, ox: int, oy: int, tw: int, th: int, k: int)
    requires
        0 < tw,
        0 < w,
        0 <= ox,
        0 <= oy,
        ox + tw <= w,
        0 <= k,
        rect_contains(w, ox, oy, tw, th, k),
    ensures
        0 <= rect_index(w, ox, oy, tw, k) < tw * th,
        rect_flat(w, ox, oy, tw, rect_index(w, ox, oy, tw, k)) == k,
{
    let x = k % w - ox;
    let y = k / w - oy;
    let i = rect_index(w, ox, oy, tw, k);
    assert(i == y * tw + x);
    lemma_fundamental_div_mod_converse_div(i, tw, y, x);
    lemma_fundamental_div_mod_converse_mod(i, tw, y, x);
    assert(i / tw == y && i % tw == x);
    assert(0 <= y * tw) by (nonlinear_arith)
        requires
            y >= 0 && tw > 0;
    assert(y * tw + tw <= th * tw) by (nonlinear_arith)
        requires
            y < th && tw > 0;
    assert(th * tw == tw * th) by (nonlinear_arith);
    lemma_fundamental_div_mod(k, w);
    assert(k == w * (k / w) + k % w);
    assert((k / w) * w == w * (k / w)) by (nonlinear_arith);
}

/// The flat index of the pixel at `(x, y)` stays inside a `w`-by-`h`
/// canvas.
pub proof fn lemma_pixel_index(w: int, h: int, x: int, y: int)
    requires
        0 <= x < w,
        0 <= y < h,
    ensures
        0 <= y * w,
        y * w + x < w * h,
{
    assert(0 <= y * w && y * w + x < w * h) by (nonlinear_arith)
        requires
            0 <= x < w && 0 <= y < h;
}

/// The canvas: the full output bitmap accumulated across the pipeline.
#[derive(Debug)]
pub struct Canvas {
    /// Width in pixels.
    pub width: u32,
    /// Height in pixels.
    pub height: u32,
    /// Row-major pixel data, `width * height` entries.
    pub pixels: Vec<Rgba>,
}

/// The result of overwriting the `tw`-by-`th` rectangle at `(ox, oy)` of
/// canvas sequence `c` with the pixels `t`, row-major.
pub open spec fn spec_blit(
    c: Seq<Rgba>,
    w: int,
    t: Seq<Rgba>,
    ox: int,
    oy: int,
    tw: int,
    th: int,
) -> Seq<Rgba> {
    Seq::new(
        c.len(),
        |k: int|
            if rect_contains(w, ox, oy, tw, th, k) {
                t[rect_index(w, ox, oy, tw, k)]
            } else {
                c[k]
            },
    )
}

/// `spec_blit` restricted to the first `n` tile pixels: the loop invariant
/// of the blit.
pub open spec fn spec_blit_upto(
    c: Seq<Rgba>,
    w: int,
    t: Seq<Rgba>,
    ox: int,
    oy: int,
    tw: int,
    th: int,
    n: int,
) -> Seq<Rgba> {
    Seq::new(
        c.len(),
        |k: int|
            if rect_contains(w, ox, oy, tw, th, k) && rect_index(w, ox, oy, tw, k) < n {
                t[rect_index(w, ox, oy, tw, k)]
            } else {
                c[k]
            },
    )
}

impl Canvas {
    /// A canvas is well formed when it holds exactly one pixel per cell.
    pub open spec fn wf(self) -> bool {
        self.pixels@.len() == (self.width as int) * (self.height as int)
    }

    /// The canvas's pixels as a row-major sequence.
    pub open spec fn view(self) -> Seq<Rgba> {
        self.pixels@
    }

    /// Allocates a canvas with every pixel set to `background`.
    pub fn new(width: u32, height: u32, background: Rgba) -> (c: Canvas)
        requires
            (width as int) * (height as int) <= usize::MAX,
        ensures
            c.wf(),
            c.width == width,
            c.height == height,
            c@ == Seq::new((width as int * height as int) as nat, |i: int| background),
    {
        proof {
            assert((width as int) * (height as int) >= 0) by (nonlinear_arith);
        }
        let total: usize = (width as usize) * (height as usize);
        let mut pixels: Vec<Rgba> = Vec::new();
        let mut i: usize = 0;
        while i < total
            invariant
                0 <= i <= total,
                pixels@.len() == i,
                total == (width as int) * (height as int),
                forall|j: int| 0 <= j < i ==> pixels@[j] == background,
            decreases total - i,
        {
            pixels.push(background);
            i = i + 1;
        }
        assert(pixels@ =~= Seq::new((width as int * height as int) as nat, |j: int| background));
        Canvas { width, height, pixels }
    }

    /// Reads the pixel at `(x, y)`.
    pub fn get_pixel(&self, x: u32, y: u32) -> (p: Rgba)
        requires
            self.wf(),
            x < self.width,
            y < self.height,
        ensures
            p == self@[y as int * self.width as int + x as int],
    {
        let _len = self.pixels.len();
        proof {
            lemma_pixel_index(self.width as int, self.height as int, x as int, y as int);
        }
        let idx: usize = (y as usize) * (self.width as usize) + (x as usize);
        self.pixels[idx]
    }

    /// Blends `color` over the pixel at `(x, y)`, with `color.a` as the
    /// coverage.
    pub fn blend_pixel(&mut self, x: u32, y: u32, color: Rgba)
        requires
            old(self).wf(),
            x < old(self).width,
            y < old(self).height,
        ensures
            final(self).wf(),
            final(self).width == old(self).width,
            final(self).height == old(self).height,
            final(self)@ == old(self)@.update(
                y as int * old(self).width as int + x as int,
                spec_blend(old(self)@[y as int * old(self).width as int + x as int], color),
            ),
    {
        let _len = self.pixels.len();
        proof {
            lemma_pixel_index(self.width as int, self.height as int, x as int, y as int);
        }
        let idx: usize = (y as usize) * (self.width as usize) + (x as usize);
        let blended = crate::pixel::blend(self.pixels[idx], color);
        self.pixels.set(idx, blended);
    }

    /// Copies every pixel of `tile` into the canvas with its top-left
    /// corner at `(ox, oy)`, overwriting the destination unconditionally.
    pub fn blit(&mut self, tile: &Tile, ox: u32, oy: u32)
        requires
            old(self).wf(),
            tile.wf(),
            ox + 128 <= old(self).width,
            oy + 128 <= old(self).height,
        ensures
            final(self).wf(),
            final(self).width == old(self).width,
            final(self).height == old(self).height,
            final(self)@ == spec_blit(
                old(self)@,
                old(self).width as int,
                tile@,
                ox as int,
                oy as int,
                128,
                128,
            ),
    {
        let ghost w = self.width as int;
        let ghost h = self.height as int;
        let ghost c0 = self.pixels@;
        let _len = self.pixels.len();
        assert(w * h <= usize::MAX);
        let mut i: usize = 0;
        while i < TILE_PIXELS
            invariant
                0 <= i <= TILE_PIXELS,
                w * h <= usize::MAX,
                self.width == old(self).width,
                self.height == old(self).height,
                w == self.width as int,
                h == self.height as int,
                c0 == old(self)@,
                tile.wf(),
                ox + 128 <= w,
                oy + 128 <= h,
                self.pixels@.len() == c0.len(),
                c0.len() == w * h,
                self.pixels@ == spec_blit_upto(c0, w, tile@, ox as int, oy as int, 128, 128, i as int),
            decreases TILE_PIXELS - i,
        {
            let x = (i % 128) as u32;
            let y = (i / 128) as u32;
            proof {
                lemma_rect_flat_in_bounds(w, h, ox as int, oy as int, 128, 128, i as int);
            }
            let idx: usize = ((oy + y) as usize) * (self.width as usize) + ((ox + x) as usize);
            let p = tile.get_pixel(x, y);
            self.pixels.set(idx, p);
            proof {
                let ghost n = i as int;
                let prev = spec_blit_upto(c0, w, tile@, ox as int, oy as int, 128, 128, n);
                let next = spec_blit_upto(c0, w, tile@, ox as int, oy as int, 128, 128, n + 1);
                let ki = rect_flat(w, ox as int, oy as int, 128, n);
                assert(idx == ki);
                assert(tile@[n] == tile@[(i / 128) as int * 128 + (i % 128) as int]) by {
                    lemma_fundamental_div_mod(n, 128);
                };
                assert forall|k: int| 0 <= k < c0.len() implies prev.update(ki, tile@[n])[k]
                    == next[k] by {
                    if k == ki {
                    } else {
                        if rect_contains(w, ox as int, oy as int, 128, 128, k)
                            && rect_index(w, ox as int, oy as int, 128, k) == n {
                            lemma_rect_index_inverse(w, ox as int, oy as int, 128, 128, k);
                            assert(k == ki);
                        }
                    }
                }
                assert(self.pixels@ =~= next);
            }
            i = i + 1;
        }
        proof {
            let done = spec_blit_upto(c0, w, tile@, ox as int, oy as int, 128, 128, TILE_PIXELS as int);
            let full = spec_blit(c0, w, tile@, ox as int, oy as int, 128, 128);
            assert forall|k: int| 0 <= k < c0.len() implies done[k] == full[k] by {
                if rect_contains(w, ox as int, oy as int, 128, 128, k) {
                    lemma_rect_index_inverse(w, ox as int, oy as int, 128, 128, k);
                }
            }
            assert(done =~= full);
        }
    }
}

} // verus!
