//! Header text rendering: glyph coverage rasters, produced by a font
//! shaper from a text string, are centered in the header band and
//! alpha-blended onto the canvas with the fixed foreground color.
//!
//! A raster carries plain integer geometry and one 8-bit coverage value
//! per pixel of its footprint; laying out a string against a font is the
//! caller's concern.

use vstd::prelude::*;
use vstd::arithmetic::div_mod::lemma_fundamental_div_mod;
use crate::canvas::{rect_contains, rect_flat, rect_index, Canvas};
use crate::canvas::{lemma_rect_flat_in_bounds, lemma_rect_index_inverse};
use crate::error::CompositorError;
use crate::pixel::{spec_blend, spec_foreground, Rgba};

verus! {

/// One rasterized glyph: a placement rectangle relative to the text run's
/// origin, and a row-major 8-bit coverage value for every pixel of it
/// (0 is empty, 255 is fully inked).
pub struct GlyphRaster {
    /// Horizontal offset of the raster within the run.
    pub left: u32,
    /// Vertical offset of the raster within the run.
    pub top: u32,
    /// Width of the raster in pixels.
    pub width: u32,
    /// Height of the raster in pixels.
    pub height: u32,
    /// Row-major coverage, `width * height` entries.
    pub coverage: Vec<u8>,
}

impl GlyphRaster {
    /// A raster is well formed when it holds one coverage value per pixel
    /// of its footprint.
    pub open spec fn wf(self) -> bool {
        self.coverage@.len() == (self.width as int) * (self.height as int)
    }
}

/// A laid-out text run: its glyph rasters, in paint order, and the pixel
/// width and height of the whole run, as the shaper measured it.
pub struct GlyphRun {
    /// The rasters, in the order they are painted.
    pub rasters: Vec<GlyphRaster>,
    /// Measured width of the run.
    pub width: u32,
    /// Measured height of the run.
    pub height: u32,
}

impl GlyphRun {
    /// A run is well formed when every raster is.
    pub open spec fn wf(self) -> bool {
        forall|i: int| 0 <= i < self.rasters@.len() ==> self.rasters@[i].wf()
    }

    /// A run with no rasters at all, of zero measured size: what an empty
    /// string shapes to.
    pub fn empty() -> (r: GlyphRun)
        ensures
            r.wf(),
            r.rasters@.len() == 0,
            r.width == 0,
            r.height == 0,
    {
        GlyphRun { rasters: Vec::new(), width: 0, height: 0 }
    }
}

/// Centering of a `inner`-pixel-long span within an `outer`-pixel-long
/// span: the left margin, or zero when the span does not fit.
pub open spec fn spec_center(outer: int, inner: int) -> int {
    if inner <= outer {
        (outer - inner) / 2
    } else {
        0
    }
}

/// The top-left origin of a text run centered in the header band:
/// horizontally within the canvas width, vertically within the band.
pub fn header_offsets(canvas_width: u32, band_height: u32, run_width: u32, run_height: u32) -> (r: (
    u32,
    u32,
))
    ensures
        r.0 == spec_center(canvas_width as int, run_width as int),
        r.1 == spec_center(band_height as int, run_height as int),
{
    let x = if run_width <= canvas_width {
        (canvas_width - run_width) / 2
    } else {
        0
    };
    let y = if run_height <= band_height {
        (band_height - run_height) / 2
    } else {
        0
    };
    (x, y)
}

/// Whether a raster, painted at run origin `(ox, oy)`, stays inside a
/// `w`-by-`h` canvas.
pub open spec fn spec_raster_fits(g: GlyphRaster, ox: int, oy: int, w: int, h: int) -> bool {
    &&& ox + g.left + g.width <= w
    &&& oy + g.top + g.height <= h
}

/// Whether every raster of a run fits.
pub open spec fn spec_run_fits(rasters: Seq<GlyphRaster>, ox: int, oy: int, w: int, h: int) -> bool {
    forall|i: int| 0 <= i < rasters.len() ==> spec_raster_fits(#[trigger] rasters[i], ox, oy, w, h)
}

/// The foreground color carrying one coverage value as its alpha.
pub open spec fn spec_ink(fg: Rgba, coverage: u8) -> Rgba {
    Rgba { r: fg.r, g: fg.g, b: fg.b, a: coverage }
}

/// The canvas sequence after one raster is blended at run origin
/// `(ox, oy)`: every pixel of the raster's rectangle composites the
/// foreground over the canvas with that pixel's coverage as alpha; all
/// other pixels are untouched.
pub open spec fn spec_place_raster(
    c: Seq<Rgba>,
    w: int,
    fg: Rgba,
    g: GlyphRaster,
    ox: int,
    oy: int,
) -> Seq<Rgba> {
    Seq::new(
        c.len(),
        |k: int|
            if rect_contains(w, ox + g.left, oy + g.top, g.width as int, g.height as int, k) {
                spec_blend(
                    c[k],
                    spec_ink(fg, g.coverage@[rect_index(w, ox + g.left, oy + g.top, g.width as int, k)]),
                )
            } else {
                c[k]
            },
    )
}

/// `spec_place_raster` restricted to the raster's first `n` pixels: the
/// invariant of the blending loop.
pub open spec fn spec_place_raster_upto(
    c: Seq<Rgba>,
    w: int,
    fg: Rgba,
    g: GlyphRaster,
    ox: int,
    oy: int,
    n: int,
) -> Seq<Rgba> {
    Seq::new(
        c.len(),
        |k: int|
            if rect_contains(w, ox + g.left, oy + g.top, g.width as int, g.height as int, k)
                && rect_index(w, ox + g.left, oy + g.top, g.width as int, k) < n {
                spec_blend(
                    c[k],
                    spec_ink(fg, g.coverage@[rect_index(w, ox + g.left, oy + g.top, g.width as int, k)]),
                )
            } else {
                c[k]
            },
    )
}

/// The canvas sequence after a whole run is blended, raster by raster in
/// paint order, at run origin `(ox, oy)`.
pub open spec fn spec_render(
    c: Seq<Rgba>,
    w: int,
    fg: Rgba,
    rasters: Seq<GlyphRaster>,
    ox: int,
    oy: int,
) -> Seq<Rgba>
    decreases rasters.len(),
{
    if rasters.len() == 0 {
        c
    } else {
        spec_place_raster(
            spec_render(c, w, fg, rasters.drop_last(), ox, oy),
            w,
            fg,
            rasters.last(),
            ox,
            oy,
        )
    }
}

/// Whether a raster, painted at `(ox, oy)`, stays inside the canvas,
/// executable.
fn raster_fits(g: &GlyphRaster, ox: u32, oy: u32, w: u32, h: u32) -> (r: bool)
    ensures
        r == spec_raster_fits(*g, ox as int, oy as int, w as int, h as int),
{
    let x_end = ox as u64 + g.left as u64 + g.width as u64;
    let y_end = oy as u64 + g.top as u64 + g.height as u64;
    x_end <= w as u64 && y_end <= h as u64
}

/// Blends one raster onto the canvas at run origin `(ox, oy)`.
fn place_raster(canvas: &mut Canvas, fg: Rgba, g: &GlyphRaster, ox: u32, oy: u32)
    requires
        old(canvas).wf(),
        g.wf(),
        spec_raster_fits(*g, ox as int, oy as int, old(canvas).width as int, old(canvas).height as int),
    ensures
        final(canvas).wf(),
        final(canvas).width == old(canvas).width,
        final(canvas).height == old(canvas).height,
        final(canvas)@ == spec_place_raster(old(canvas)@, old(canvas).width as int, fg, *g, ox as int, oy as int),
{
    let ghost w = canvas.width as int;
    let ghost h = canvas.height as int;
    let ghost c0 = canvas.pixels@;
    let ghost rox = ox as int + g.left as int;
    let ghost roy = oy as int + g.top as int;
    let gw = g.width;
    let gh = g.height;
    if gw == 0 || gh == 0 {
        proof {
            assert forall|k: int| 0 <= k < c0.len() implies spec_place_raster(c0, w, fg, *g, ox as int, oy as int)[k] == c0[k] by {
                assert(!rect_contains(w, rox, roy, gw as int, gh as int, k));
            }
            assert(canvas@ =~= spec_place_raster(c0, w, fg, *g, ox as int, oy as int));
        }
        return ;
    }
    let total = g.coverage.len();
    proof {
        assert(total == (gw as int) * (gh as int));
    }
    let mut j: usize = 0;
    while j < total
        invariant
            0 <= j <= total,
            gw >= 1,
            gh >= 1,
            gw == g.width,
            gh == g.height,
            g.wf(),
            total == (gw as int) * (gh as int),
            rox == ox as int + g.left as int,
            roy == oy as int + g.top as int,
            rox + gw <= w,
            roy + gh <= h,
            canvas.width == old(canvas).width,
            canvas.height == old(canvas).height,
            w == canvas.width as int,
            h == canvas.height as int,
            c0 == old(canvas)@,
            canvas.pixels@.len() == c0.len(),
            c0.len() == w * h,
            canvas.pixels@ == spec_place_raster_upto(c0, w, fg, *g, ox as int, oy as int, j as int),
        decreases total - j,
    {
        proof {
            crate::canvas::lemma_row_major_coords(gw as int, gh as int, j as int);
            lemma_rect_flat_in_bounds(w, h, rox, roy, gw as int, gh as int, j as int);
            lemma_fundamental_div_mod(j as int, gw as int);
        }
        let x = (j % (gw as usize)) as u32;
        let y = (j / (gw as usize)) as u32;
        let cov = g.coverage[j];
        let px = ox + g.left + x;
        let py = oy + g.top + y;
        let ink = Rgba { r: fg.r, g: fg.g, b: fg.b, a: cov };
        let ghost prev = canvas.pixels@;
        canvas.blend_pixel(px, py, ink);
        proof {
            let n = j as int;
            let kj = rect_flat(w, rox, roy, gw as int, n);
            let next = spec_place_raster_upto(c0, w, fg, *g, ox as int, oy as int, n + 1);
            assert(py as int * w + px as int == kj);
            assert(prev[kj] == c0[kj]);
            assert forall|k: int| 0 <= k < c0.len() implies prev.update(
                kj,
                spec_blend(prev[kj], ink),
            )[k] == next[k] by {
                if k != kj {
                    if rect_contains(w, rox, roy, gw as int, gh as int, k)
                        && rect_index(w, rox, roy, gw as int, k) == n {
                        lemma_rect_index_inverse(w, rox, roy, gw as int, gh as int, k);
                        assert(k == kj);
                    }
                }
            }
            assert(canvas.pixels@ =~= next);
        }
        j = j + 1;
    }
    proof {
        let done = spec_place_raster_upto(c0, w, fg, *g, ox as int, oy as int, total as int);
        let full = spec_place_raster(c0, w, fg, *g, ox as int, oy as int);
        assert forall|k: int| 0 <= k < c0.len() implies done[k] == full[k] by {
            if rect_contains(w, rox, roy, gw as int, gh as int, k) {
                lemma_rect_index_inverse(w, rox, roy, gw as int, gh as int, k);
            }
        }
        assert(canvas.pixels@ =~= full);
    }
}

/// Renders a text run into the header band: the run is centered
/// horizontally in the canvas and vertically in the band, and every
/// raster is alpha-blended with the fixed light-gray foreground.
///
/// Succeeds exactly when every raster falls inside the canvas; a run that
/// would paint outside it is refused loudly, with the canvas untouched.
/// An empty run (an empty header string) leaves the canvas untouched and
/// succeeds.
pub fn render_header(canvas: &mut Canvas, band_height: u32, run: &GlyphRun) -> (r: Result<
    (),
    CompositorError,
>)
    requires
        old(canvas).wf(),
        run.wf(),
    ensures
        final(canvas).wf(),
        final(canvas).width == old(canvas).width,
        final(canvas).height == old(canvas).height,
        ({
            let ox = spec_center(old(canvas).width as int, run.width as int);
            let oy = spec_center(band_height as int, run.height as int);
            &&& r is Ok <==> spec_run_fits(
                run.rasters@,
                ox,
                oy,
                old(canvas).width as int,
                old(canvas).height as int,
            )
            &&& r is Ok ==> final(canvas)@ == spec_render(
                old(canvas)@,
                old(canvas).width as int,
                spec_foreground(),
                run.rasters@,
                ox,
                oy,
            )
            &&& r is Err ==> final(canvas)@ == old(canvas)@ && r == Err::<(), CompositorError>(
                CompositorError::HeaderOutOfBounds,
            )
        }),
        run.rasters@.len() == 0 ==> final(canvas)@ == old(canvas)@,
{
    let w = canvas.width;
    let h = canvas.height;
    let (ox, oy) = header_offsets(w, band_height, run.width, run.height);
    let count = run.rasters.len();
    // first pass: nothing is painted unless the whole run fits
    let mut i: usize = 0;
    while i < count
        invariant
            0 <= i <= count,
            count == run.rasters@.len(),
            run.wf(),
            w == canvas.width,
            h == canvas.height,
            ox == spec_center(canvas.width as int, run.width as int),
            oy == spec_center(band_height as int, run.height as int),
            canvas == old(canvas),
            canvas.wf(),
            forall|k: int|
                0 <= k < i ==> spec_raster_fits(
                    #[trigger] run.rasters@[k],
                    ox as int,
                    oy as int,
                    w as int,
                    h as int,
                ),
        decreases count - i,
    {
        if !raster_fits(&run.rasters[i], ox, oy, w, h) {
            return Err(CompositorError::HeaderOutOfBounds);
        }
        i = i + 1;
    }
    // second pass: blend raster by raster, in paint order
    let ghost c0 = canvas.pixels@;
    let fg = crate::pixel::foreground();
    let mut i: usize = 0;
    while i < count
        invariant
            0 <= i <= count,
            count == run.rasters@.len(),
            run.wf(),
            spec_run_fits(run.rasters@, ox as int, oy as int, w as int, h as int),
            w == old(canvas).width,
            h == old(canvas).height,
            canvas.width == w,
            canvas.height == h,
            canvas.wf(),
            fg == spec_foreground(),
            c0 == old(canvas)@,
            canvas.pixels@ == spec_render(c0, w as int, fg, run.rasters@.take(i as int), ox as int, oy as int),
        decreases count - i,
    {
        let g = &run.rasters[i];
        place_raster(canvas, fg, g, ox, oy);
        proof {
            let taken = run.rasters@.take(i as int);
            let taken1 = run.rasters@.take(i as int + 1);
            assert(taken1.drop_last() =~= taken);
            assert(taken1.last() == run.rasters@[i as int]);
        }
        i = i + 1;
    }
    proof {
        assert(run.rasters@.take(count as int) =~= run.rasters@);
    }
    Ok(())
}

} // verus!
