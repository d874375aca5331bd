//! Image loading and normalization: an avatar file's bytes are decoded to
//! RGBA and brought to the canonical 128-by-128 tile size, resampling
//! only when the decoded dimensions differ.

use vstd::prelude::*;
use vstd::arithmetic::div_mod::lemma_mod_multiples_basic;
use crate::codec::{
    decode_image, decoded_image, lanczos_resized, pixels_from_bytes, resize_rgba, spec_pixels_of,
};
use crate::error::CompositorError;
use crate::pixel::Rgba;
use crate::tile::Tile;

verus! {

/// The tile pixels that loading an image file's bytes yields: the decoded
/// bitmap as is when it is already 128-by-128, the Lanczos-resampled
/// bitmap otherwise.
pub open spec fn spec_loaded_tile(bytes: Seq<u8>) -> Seq<Rgba>
    recommends
        decoded_image(bytes) is Some,
{
    let t = decoded_image(bytes)->Some_0;
    if t.0 == 128 && t.1 == 128 {
        spec_pixels_of(t.2)
    } else {
        spec_pixels_of(lanczos_resized(t.0, t.1, t.2, 128, 128))
    }
}

/// A byte count of four per pixel splits back into whole pixels.
proof fn lemma_rgba_byte_count(w: int, h: int, len: int)
    requires
        len == 4 * w * h,
        0 <= w,
        0 <= h,
    ensures
        len % 4 == 0,
        len / 4 == w * h,
{
    let n = w * h;
    assert((4 * w) * h == 4 * (w * h)) by (nonlinear_arith);
    assert(w * h >= 0) by (nonlinear_arith)
        requires
            w >= 0 && h >= 0;
    assert(4 * n == n * 4);
    lemma_mod_multiples_basic(n, 4);
    assert((4 * n) / 4 == n) by {
        vstd::arithmetic::div_mod::lemma_fundamental_div_mod_converse_div(4 * n, 4, n, 0);
    };
}

/// Decodes an avatar image and normalizes it to one canonical tile.
///
/// Succeeds exactly when the bytes decode as an image; a decoded bitmap
/// of any other size is resampled to 128-by-128, and one already at the
/// canonical size is taken as is.
pub fn load_tile(bytes: &Vec<u8>) -> (r: Result<Tile, CompositorError>)
    ensures
        r is Ok <==> decoded_image(bytes@) is Some,
        r matches Ok(t) ==> t.wf() && t@ == spec_loaded_tile(bytes@),
        r matches Err(e) ==> e == CompositorError::Decode,
{
    let (w, h, data) = match decode_image(bytes) {
        Ok(t) => t,
        Err(e) => { return Err(e) },
    };
    proof {
        lemma_rgba_byte_count(w as int, h as int, data@.len() as int);
    }
    if w == 128 && h == 128 {
        // already canonical: no resampling
        let pixels = pixels_from_bytes(&data);
        Ok(Tile::new(pixels))
    } else {
        let resized = resize_rgba(&data, w, h, 128, 128);
        proof {
            lemma_rgba_byte_count(128, 128, resized@.len() as int);
        }
        let pixels = pixels_from_bytes(&resized);
        Ok(Tile::new(pixels))
    }
}

} // verus!
