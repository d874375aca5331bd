//! Image codecs, through the `image` crate: decoding a byte stream to an
//! RGBA bitmap, Lanczos resampling to the canonical tile size, and
//! lossless PNG encoding of the finished canvas. The calls are trusted
//! with contracts over named results; everything around them is verified.

use vstd::prelude::*;
use vstd::arithmetic::div_mod::{
    lemma_fundamental_div_mod_converse_div, lemma_fundamental_div_mod_converse_mod,
};
use crate::error::CompositorError;
use crate::pixel::Rgba;

verus! {

/// The `image` crate's error type, carried opaquely out of the trusted
/// wrappers and mapped to [`CompositorError`] in verified code.
#[verifier::external_type_specification]
#[verifier::external_body]
pub struct ExImageError(image::ImageError);

/// What decoding a byte stream to 8-bit RGBA yields: `None` when the
/// bytes are not a supported image, otherwise the width, the height and
/// the row-major RGBA bytes. Decoding is a function of the bytes alone.
pub uninterp spec fn decoded_image(bytes: Seq<u8>) -> Option<(u32, u32, Seq<u8>)>;

/// What Lanczos-resampling a `width`-by-`height` RGBA bitmap to
/// `new_width`-by-`new_height` yields. The resampling arithmetic is a
/// function of its inputs alone.
pub uninterp spec fn lanczos_resized(
    width: u32,
    height: u32,
    pixels: Seq<u8>,
    new_width: u32,
    new_height: u32,
) -> Seq<u8>;

/// What PNG-encoding a `width`-by-`height` RGBA bitmap yields. The
/// encoder is deterministic: a function of the bitmap alone.
pub uninterp spec fn png_encoding(width: u32, height: u32, pixels: Seq<u8>) -> Seq<u8>;

/// Relies on `image::ImageReader` (the format guessed from the bytes,
/// decoding limits off so the bytes alone decide) and
/// `DynamicImage::to_rgba8`: a supported image decodes to 8-bit RGBA,
/// four bytes per pixel, deterministically; alpha is preserved and absent
/// alpha becomes fully opaque.
#[verifier::external_body]
pub(crate) fn decode_rgba(bytes: &Vec<u8>) -> (r: Result<(u32, u32, Vec<u8>), image::ImageError>)
    ensures
        r is Ok <==> decoded_image(bytes@) is Some,
        r matches Ok(t) ==> decoded_image(bytes@) == Some((t.0, t.1, t.2@)) && t.2@.len() == 4 * (
        t.0 as int) * (t.1 as int),
{
    let mut reader = image::ImageReader::new(std::io::Cursor::new(bytes.as_slice()))
        .with_guessed_format()?;
    reader.no_limits();
    let img = reader.decode()?.to_rgba8();
    let (w, h) = img.dimensions();
    Ok((w, h, img.into_raw()))
}

/// Relies on `image::imageops::resize` with the Lanczos3 filter: the
/// result is a `new_width`-by-`new_height` RGBA bitmap computed from the
/// source bitmap alone.
#[verifier::external_body]
pub(crate) fn resize_rgba(
    pixels: &Vec<u8>,
    width: u32,
    height: u32,
    new_width: u32,
    new_height: u32,
) -> (r: Vec<u8>)
    requires
        pixels@.len() == 4 * (width as int) * (height as int),
    ensures
        r@ == lanczos_resized(width, height, pixels@, new_width, new_height),
        r@.len() == 4 * (new_width as int) * (new_height as int),
{
    let img: image::RgbaImage = image::ImageBuffer::from_raw(width, height, pixels.clone())
        .expect("pixel buffer length matches the dimensions");
    let out = image::imageops::resize(&img, new_width, new_height, image::imageops::FilterType::Lanczos3);
    out.into_raw()
}

/// Relies on `ImageBuffer::write_to` with the PNG format: the encoding is
/// deterministic, and PNG stores 8-bit RGBA losslessly, so decoding the
/// encoded bytes restores the dimensions and the pixel data exactly.
/// Writing an exactly-sized RGBA bitmap to an in-memory buffer fails only
/// when the width or the height is zero, which the PNG format forbids.
#[verifier::external_body]
pub(crate) fn encode_png(width: u32, height: u32, pixels: &Vec<u8>) -> (r: Result<
    Vec<u8>,
    image::ImageError,
>)
    requires
        pixels@.len() == 4 * (width as int) * (height as int),
    ensures
        width >= 1 && height >= 1 ==> r is Ok,
        r matches Ok(b) ==> b@ == png_encoding(width, height, pixels@),
        r matches Ok(b) ==> decoded_image(b@) == Some((width, height, pixels@)),
{
    let img: image::RgbaImage = image::ImageBuffer::from_raw(width, height, pixels.clone())
        .expect("pixel buffer length matches the dimensions");
    let mut out: Vec<u8> = Vec::new();
    img.write_to(&mut std::io::Cursor::new(&mut out), image::ImageFormat::Png)?;
    Ok(out)
}

/// The byte at channel `c` of a pixel, in RGBA order.
pub open spec fn spec_channel_byte(p: Rgba, c: int) -> u8 {
    if c == 0 {
        p.r
    } else if c == 1 {
        p.g
    } else if c == 2 {
        p.b
    } else {
        p.a
    }
}

/// The pixel sequence read out of flat RGBA bytes, four bytes per pixel.
pub open spec fn spec_pixels_of(b: Seq<u8>) -> Seq<Rgba> {
    Seq::new(
        (b.len() / 4) as nat,
        |i: int| Rgba { r: b[4 * i], g: b[4 * i + 1], b: b[4 * i + 2], a: b[4 * i + 3] },
    )
}

/// The flat RGBA bytes of a pixel sequence, four bytes per pixel.
pub open spec fn spec_bytes_of(p: Seq<Rgba>) -> Seq<u8> {
    Seq::new(4 * p.len(), |j: int| spec_channel_byte(p[j / 4], j % 4))
}

/// Division and remainder of the four byte offsets of pixel `i`.
proof fn lemma_channel_offsets(i: int)
    requires
        0 <= i,
    ensures
        (4 * i) / 4 == i && (4 * i) % 4 == 0,
        (4 * i + 1) / 4 == i && (4 * i + 1) % 4 == 1,
        (4 * i + 2) / 4 == i && (4 * i + 2) % 4 == 2,
        (4 * i + 3) / 4 == i && (4 * i + 3) % 4 == 3,
{
    let ghost four = 4int;
    assert(4 * i == i * four + 0);
    lemma_fundamental_div_mod_converse_div(4 * i, 4, i, 0);
    lemma_fundamental_div_mod_converse_mod(4 * i, 4, i, 0);
    assert(4 * i + 1 == i * four + 1);
    lemma_fundamental_div_mod_converse_div(4 * i + 1, 4, i, 1);
    lemma_fundamental_div_mod_converse_mod(4 * i + 1, 4, i, 1);
    assert(4 * i + 2 == i * four + 2);
    lemma_fundamental_div_mod_converse_div(4 * i + 2, 4, i, 2);
    lemma_fundamental_div_mod_converse_mod(4 * i + 2, 4, i, 2);
    assert(4 * i + 3 == i * four + 3);
    lemma_fundamental_div_mod_converse_div(4 * i + 3, 4, i, 3);
    lemma_fundamental_div_mod_converse_mod(4 * i + 3, 4, i, 3);
}

/// Reading pixels out of the bytes of a pixel sequence gives the sequence
/// back: the flat RGBA layout loses nothing.
pub proof fn lemma_pixels_of_bytes_of(p: Seq<Rgba>)
    ensures
        spec_pixels_of(spec_bytes_of(p)) == p,
{
    let b = spec_bytes_of(p);
    assert(b.len() == 4 * p.len());
    assert((4 * p.len()) / 4 == p.len()) by {
        lemma_channel_offsets(p.len() as int);
    };
    assert forall|i: int| 0 <= i < p.len() implies spec_pixels_of(b)[i] == p[i] by {
        lemma_channel_offsets(i);
    }
    assert(spec_pixels_of(b) =~= p);
}

/// Unpacks flat RGBA bytes, four per pixel, into pixels.
pub fn pixels_from_bytes(bytes: &Vec<u8>) -> (r: Vec<Rgba>)
    requires
        bytes@.len() % 4 == 0,
    ensures
        r@ == spec_pixels_of(bytes@),
{
    let n = bytes.len() / 4;
    proof {
        assert(4 * (bytes@.len() / 4) == bytes@.len());
    }
    let mut out: Vec<Rgba> = Vec::new();
    let mut i: usize = 0;
    while i < n
        invariant
            0 <= i <= n,
            n == bytes@.len() / 4,
            4 * n == bytes@.len(),
            bytes@.len() <= usize::MAX,
            out@.len() == i,
            forall|j: int| 0 <= j < i ==> out@[j] == spec_pixels_of(bytes@)[j],
        decreases n - i,
    {
        proof {
            assert(4 * (i as int) + 3 < 4 * n) by {
                assert(4 * (i as int) + 4 <= 4 * n);
            };
        }
        let p = Rgba {
            r: bytes[4 * i],
            g: bytes[4 * i + 1],
            b: bytes[4 * i + 2],
            a: bytes[4 * i + 3],
        };
        out.push(p);
        i = i + 1;
    }
    assert(out@ =~= spec_pixels_of(bytes@));
    out
}

/// Packs pixels into flat RGBA bytes, four per pixel.
pub fn bytes_from_pixels(pixels: &Vec<Rgba>) -> (r: Vec<u8>)
    requires
        4 * pixels@.len() <= usize::MAX,
    ensures
        r@ == spec_bytes_of(pixels@),
{
    let n = pixels.len();
    let mut out: Vec<u8> = Vec::new();
    let mut i: usize = 0;
    while i < n
        invariant
            0 <= i <= n,
            n == pixels@.len(),
            4 * n <= usize::MAX,
            out@.len() == 4 * i,
            forall|j: int| 0 <= j < 4 * i ==> out@[j] == spec_bytes_of(pixels@)[j],
        decreases n - i,
    {
        let p = pixels[i];
        out.push(p.r);
        out.push(p.g);
        out.push(p.b);
        out.push(p.a);
        proof {
            lemma_channel_offsets(i as int);
        }
        i = i + 1;
    }
    assert(out@ =~= spec_bytes_of(pixels@));
    out
}

/// Decodes a byte stream into an RGBA bitmap: the width, the height and
/// four bytes per pixel. Fails with a decode error exactly when the bytes
/// are not a supported image.
pub fn decode_image(bytes: &Vec<u8>) -> (r: Result<(u32, u32, Vec<u8>), CompositorError>)
    ensures
        r is Ok <==> decoded_image(bytes@) is Some,
        r matches Ok(t) ==> decoded_image(bytes@) == Some((t.0, t.1, t.2@)) && t.2@.len() == 4 * (
        t.0 as int) * (t.1 as int),
        r matches Err(e) ==> e == CompositorError::Decode,
{
    match decode_rgba(bytes) {
        Ok(t) => Ok(t),
        Err(_) => Err(CompositorError::Decode),
    }
}

} // verus!
