//! The compositor pipeline: grid layout, background fill, header
//! rendering, then one masked tile blitted per avatar, and finally the
//! lossless PNG encoding of the canvas.

use vstd::prelude::*;
use vstd::arithmetic::div_mod::lemma_fundamental_div_mod;
use crate::canvas::{spec_blit, Canvas};
use crate::codec::{
    bytes_from_pixels, decoded_image, encode_png, lemma_pixels_of_bytes_of, png_encoding,
    spec_bytes_of, spec_pixels_of,
};
use crate::error::CompositorError;
use crate::layout::{
    ceil_sqrt, compute_layout, max_u32, spec_div_ceil, spec_effective_row_width, tile_offset,
    LayoutPlan,
};
use crate::loader::{load_tile, spec_loaded_tile};
use crate::pixel::{background, spec_background, spec_foreground, Rgba};
use crate::text::{render_header, spec_center, spec_render, spec_run_fits, GlyphRun};
use crate::tile::spec_masked;

verus! {

/// Whether every avatar byte stream decodes as an image.
pub open spec fn spec_all_decode(avatars: Seq<Seq<u8>>) -> bool {
    forall|i: int| 0 <= i < avatars.len() ==> decoded_image(#[trigger] avatars[i]) is Some
}

/// One avatar's tile after loading, normalizing and circular masking.
pub open spec fn spec_masked_tile(bytes: Seq<u8>, radius: int) -> Seq<Rgba> {
    spec_masked(spec_loaded_tile(bytes), radius, spec_background())
}

/// The layout plan a composition uses, written out from its inputs.
pub open spec fn spec_plan(item_count: int, row_width: Option<u32>, header_height: int) -> LayoutPlan {
    let rw = spec_effective_row_width(item_count, row_width);
    let rows = spec_div_ceil(item_count, rw);
    LayoutPlan {
        item_count: item_count as u32,
        row_width: rw as u32,
        row_count: rows as u32,
        header_height: header_height as u32,
        tile_size: 128,
        canvas_width: (128 * rw) as u32,
        canvas_height: (header_height + 128 * rows) as u32,
    }
}

/// The machine limits a composition needs: a positive row width, canvas
/// dimensions that fit in `u32`, and a pixel buffer whose bytes fit in
/// `usize`.
pub open spec fn spec_within_limits(
    item_count: int,
    row_width: Option<u32>,
    header_height: int,
) -> bool {
    let rw = spec_effective_row_width(item_count, row_width);
    let rows = spec_div_ceil(item_count, rw);
    &&& rw >= 1
    &&& 128 * rw <= u32::MAX
    &&& header_height + 128 * rows <= u32::MAX
    &&& 4 * ((128 * rw) * (header_height + 128 * rows)) <= usize::MAX
}

/// The background-filled canvas of a plan.
pub open spec fn spec_base_canvas(plan: LayoutPlan) -> Seq<Rgba> {
    Seq::new(
        ((plan.canvas_width as int) * (plan.canvas_height as int)) as nat,
        |i: int| spec_background(),
    )
}

/// The canvas after the first `n` avatars' masked tiles are blitted at
/// their grid placements, in order.
pub open spec fn spec_place_tiles(
    c: Seq<Rgba>,
    plan: LayoutPlan,
    avatars: Seq<Seq<u8>>,
    radius: int,
    n: int,
) -> Seq<Rgba>
    decreases n,
{
    if n <= 0 {
        c
    } else {
        spec_blit(
            spec_place_tiles(c, plan, avatars, radius, n - 1),
            plan.canvas_width as int,
            spec_masked_tile(avatars[n - 1], radius),
            plan.spec_x_offset(n - 1),
            plan.spec_y_offset(n - 1),
            128,
            128,
        )
    }
}

/// The fully composed canvas: the background fill, then the header run
/// centered in the band, then every masked tile, in the order the avatars
/// were supplied.
pub open spec fn spec_composed(
    plan: LayoutPlan,
    avatars: Seq<Seq<u8>>,
    run: GlyphRun,
    radius: int,
) -> Seq<Rgba> {
    let base = spec_base_canvas(plan);
    let hdr = spec_render(
        base,
        plan.canvas_width as int,
        spec_foreground(),
        run.rasters@,
        spec_center(plan.canvas_width as int, run.width as int),
        spec_center(plan.header_height as int, run.height as int),
    );
    spec_place_tiles(hdr, plan, avatars, radius, avatars.len() as int)
}

/// Whether a composition's inputs respect the machine limits, computed at
/// run time so that callers can test before composing.
pub fn within_limits(item_count: u32, row_width: Option<u32>, header_height: u32) -> (r: bool)
    ensures
        r == spec_within_limits(item_count as int, row_width, header_height as int),
{
    let rw: u64 = match row_width {
        Some(w) => w as u64,
        None => max_u32(ceil_sqrt(item_count), 5) as u64,
    };
    proof {
        crate::layout::lemma_ceil_sqrt(item_count as int);
    }
    if rw < 1 {
        return false;
    }
    if 128 * rw > u32::MAX as u64 {
        return false;
    }
    let rows: u64 = (item_count as u64 + (rw - 1)) / rw;
    proof {
        crate::layout::lemma_div_plus_multiple_bound(item_count as int, rw as int);
    }
    if header_height as u64 + 128 * rows > u32::MAX as u64 {
        return false;
    }
    let cw: u128 = (128 * rw) as u128;
    let ch: u128 = (header_height as u128) + 128 * (rows as u128);
    proof {
        assert(cw * ch <= 0xFFFF_FFFF * 0xFFFF_FFFF) by (nonlinear_arith)
            requires
                0 <= cw <= 0xFFFF_FFFF && 0 <= ch <= 0xFFFF_FFFF;
    }
    4 * (cw * ch) <= usize::MAX as u128
}

/// Composes the group picture's canvas from the avatars' file bytes, a
/// column choice, the header band height, the shaped header run, and the
/// mask radius.
///
/// Succeeds exactly when the header run fits on the canvas and every
/// avatar decodes; the grid geometry follows the layout plan, tiles are
/// placed row-major in the order supplied, and a zero-avatar request
/// yields the header band over plain background.
pub fn compose_canvas(
    avatars: &Vec<Vec<u8>>,
    row_width: Option<u32>,
    header_height: u32,
    run: &GlyphRun,
    mask_radius: u32,
) -> (r: Result<Canvas, CompositorError>)
    requires
        run.wf(),
        avatars@.len() <= u32::MAX,
        spec_within_limits(avatars@.len() as int, row_width, header_height as int),
    ensures
        ({
            let avs = avatars@.map_values(|v: Vec<u8>| v@);
            let plan = spec_plan(avatars@.len() as int, row_width, header_height as int);
            let ox = spec_center(plan.canvas_width as int, run.width as int);
            let oy = spec_center(header_height as int, run.height as int);
            let fits = spec_run_fits(run.rasters@, ox, oy, plan.canvas_width as int, plan.canvas_height as int);
            &&& r is Ok <==> fits && spec_all_decode(avs)
            &&& !fits ==> r == Err::<Canvas, CompositorError>(CompositorError::HeaderOutOfBounds)
            &&& fits && !spec_all_decode(avs) ==> r == Err::<Canvas, CompositorError>(
                CompositorError::Decode,
            )
            &&& r matches Ok(c) ==> c.wf() && c.width == plan.canvas_width && c.height
                == plan.canvas_height && c@ == spec_composed(plan, avs, *run, mask_radius as int)
            &&& avatars@.len() == 0 && run.rasters@.len() == 0 ==> r is Ok && r->Ok_0@ == Seq::new(
                ((plan.canvas_width as int) * (header_height as int)) as nat,
                |i: int| spec_background(),
            )
        }),
{
    let ghost avs = avatars@.map_values(|v: Vec<u8>| v@);
    let ghost splan = spec_plan(avatars@.len() as int, row_width, header_height as int);
    let count = avatars.len();
    let item_count = count as u32;
    let plan = compute_layout(item_count, row_width, header_height, 128);
    proof {
        assert(plan.canvas_width == 128 * (plan.row_width as int));
        assert(plan == splan);
        assert((plan.canvas_width as int) * (plan.canvas_height as int) >= 0) by (nonlinear_arith);
        assert(4 * ((plan.canvas_width as int) * (plan.canvas_height as int)) <= usize::MAX);
    }
    let mut canvas = Canvas::new(plan.canvas_width, plan.canvas_height, background());
    let ghost base = canvas@;
    proof {
        assert(base =~= spec_base_canvas(plan));
    }
    let ghost ox = spec_center(plan.canvas_width as int, run.width as int);
    let ghost oy = spec_center(header_height as int, run.height as int);
    match render_header(&mut canvas, header_height, run) {
        Ok(_) => (),
        Err(e) => {
            return Err(e);
        },
    };
    let ghost hdr = canvas@;
    let ghost radius = mask_radius as int;
    let mut i: usize = 0;
    while i < count
        invariant
            0 <= i <= count,
            count == avatars@.len(),
            count <= u32::MAX,
            avs == avatars@.map_values(|v: Vec<u8>| v@),
            plan.wf(),
            plan == spec_plan(avatars@.len() as int, row_width, header_height as int),
            plan.item_count == count,
            plan.tile_size == 128,
            canvas.wf(),
            canvas.width == plan.canvas_width,
            canvas.height == plan.canvas_height,
            radius == mask_radius as int,
            ox == spec_center(plan.canvas_width as int, run.width as int),
            oy == spec_center(header_height as int, run.height as int),
            spec_run_fits(run.rasters@, ox, oy, plan.canvas_width as int, plan.canvas_height as int),
            base == spec_base_canvas(plan),
            hdr == spec_render(base, plan.canvas_width as int, spec_foreground(), run.rasters@, ox, oy),
            forall|k: int| 0 <= k < i ==> decoded_image(#[trigger] avs[k]) is Some,
            canvas@ == spec_place_tiles(hdr, plan, avs, radius, i as int),
        decreases count - i,
    {
        let mut tile = match load_tile(&avatars[i]) {
            Ok(t) => t,
            Err(e) => {
                proof {
                    assert(avs[i as int] == avatars@[i as int]@);
                    assert(!spec_all_decode(avs));
                }
                return Err(e);
            },
        };
        tile.apply_circle_mask(mask_radius, background());
        let (x, y) = tile_offset(&plan, i as u32);
        canvas.blit(&tile, x, y);
        proof {
            assert(avs[i as int] == avatars@[i as int]@);
            assert(tile@ == spec_masked_tile(avs[i as int], radius));
            assert(canvas@ == spec_place_tiles(hdr, plan, avs, radius, i as int + 1));
        }
        i = i + 1;
    }
    proof {
        if avatars@.len() == 0 && run.rasters@.len() == 0 {
            assert(canvas@ == base);
            assert(plan.row_count == spec_div_ceil(0, plan.row_width as int));
            lemma_fundamental_div_mod(plan.row_width as int - 1, plan.row_width as int);
            assert(spec_div_ceil(0, plan.row_width as int) == 0) by {
                vstd::arithmetic::div_mod::lemma_basic_div(
                    plan.row_width as int - 1,
                    plan.row_width as int,
                );
            };
            assert(plan.canvas_height == header_height);
        }
    }
    Ok(canvas)
}

/// Encodes a composed canvas as PNG bytes.
///
/// The encoding is lossless: decoding the returned bytes yields the
/// canvas's dimensions and pixel data exactly. Encoding succeeds for every
/// canvas with at least one pixel; only a zero-width or zero-height
/// canvas, which PNG forbids, surfaces as an input/output error, as
/// saving does.
pub fn encode_canvas(canvas: &Canvas) -> (r: Result<Vec<u8>, CompositorError>)
    requires
        canvas.wf(),
        4 * canvas@.len() <= usize::MAX,
    ensures
        canvas.width >= 1 && canvas.height >= 1 ==> r is Ok,
        r matches Ok(b) ==> b@ == png_encoding(canvas.width, canvas.height, spec_bytes_of(canvas@)),
        r matches Ok(b) ==> decoded_image(b@) == Some(
            (canvas.width, canvas.height, spec_bytes_of(canvas@)),
        ),
        spec_pixels_of(spec_bytes_of(canvas@)) == canvas@,
        r matches Err(e) ==> e == CompositorError::Io,
{
    proof {
        lemma_pixels_of_bytes_of(canvas@);
    }
    let bytes = bytes_from_pixels(&canvas.pixels);
    proof {
        assert(bytes@.len() == 4 * (canvas.width as int) * (canvas.height as int)) by {
            assert(4 * ((canvas.width as int) * (canvas.height as int)) == 4 * (canvas.width as int)
                * (canvas.height as int)) by (nonlinear_arith);
        };
    }
    match encode_png(canvas.width, canvas.height, &bytes) {
        Ok(b) => Ok(b),
        Err(_) => Err(CompositorError::Io),
    }
}

/// Composes the group picture and encodes it: the avatars' file bytes, a
/// column choice, the header band height, the shaped header run and the
/// mask radius, to lossless PNG bytes of the composed canvas.
///
/// Succeeds whenever the header run fits, every avatar decodes, and the
/// canvas has at least one pixel row: only a zero header band with zero
/// avatars yields a zero-height canvas, which PNG cannot encode.
pub fn compose_group_picture(
    avatars: &Vec<Vec<u8>>,
    row_width: Option<u32>,
    header_height: u32,
    run: &GlyphRun,
    mask_radius: u32,
) -> (r: Result<Vec<u8>, CompositorError>)
    requires
        run.wf(),
        avatars@.len() <= u32::MAX,
        spec_within_limits(avatars@.len() as int, row_width, header_height as int),
    ensures
        ({
            let avs = avatars@.map_values(|v: Vec<u8>| v@);
            let plan = spec_plan(avatars@.len() as int, row_width, header_height as int);
            let ox = spec_center(plan.canvas_width as int, run.width as int);
            let oy = spec_center(header_height as int, run.height as int);
            let fits = spec_run_fits(run.rasters@, ox, oy, plan.canvas_width as int, plan.canvas_height as int);
            let composed = spec_composed(plan, avs, *run, mask_radius as int);
            &&& !fits ==> r == Err::<Vec<u8>, CompositorError>(CompositorError::HeaderOutOfBounds)
            &&& fits && !spec_all_decode(avs) ==> r == Err::<Vec<u8>, CompositorError>(
                CompositorError::Decode,
            )
            &&& r is Ok ==> fits && spec_all_decode(avs)
            &&& fits && spec_all_decode(avs) && (header_height >= 1 || avatars@.len() > 0)
                ==> r is Ok
            &&& fits && spec_all_decode(avs) && r is Err ==> r == Err::<Vec<u8>, CompositorError>(
                CompositorError::Io,
            )
            &&& r matches Ok(b) ==> b@ == png_encoding(
                plan.canvas_width,
                plan.canvas_height,
                spec_bytes_of(composed),
            )
            &&& r matches Ok(b) ==> decoded_image(b@) == Some(
                (plan.canvas_width, plan.canvas_height, spec_bytes_of(composed)),
            )
        }),
{
    let canvas = match compose_canvas(avatars, row_width, header_height, run, mask_radius) {
        Ok(c) => c,
        Err(e) => {
            return Err(e);
        },
    };
    proof {
        assert(4 * ((canvas.width as int) * (canvas.height as int)) <= usize::MAX);
        let count = avatars@.len() as int;
        let rw = spec_effective_row_width(count, row_width);
        crate::layout::lemma_div_plus_multiple_bound(count, rw);
        if count > 0 {
            vstd::arithmetic::div_mod::lemma_div_is_ordered(rw, count + rw - 1, rw);
            vstd::arithmetic::div_mod::lemma_div_by_self(rw);
        }
    }
    encode_canvas(&canvas)
}

} // verus!
