use groupic::canvas::Canvas;
use groupic::codec::decode_image;
use groupic::compose::{compose_canvas, compose_group_picture, encode_canvas, within_limits};
use groupic::error::CompositorError;
use groupic::pixel::{background, Rgba};
use groupic::text::{GlyphRaster, GlyphRun};

fn solid_avatar_png(color: Rgba, size: u32) -> Vec<u8> {
    let canvas = Canvas::new(size, size, color);
    encode_canvas(&canvas).expect("encoding succeeds")
}

#[test]
fn zero_items_give_a_solid_background_header_band() {
    let bg = background();
    for row_width in [1u32, 3, 5, 50] {
        let canvas = compose_canvas(&Vec::new(), Some(row_width), 64, &GlyphRun::empty(), 64)
            .expect("composing succeeds");
        assert_eq!(canvas.width, 128 * row_width);
        assert_eq!(canvas.height, 64);
        for p in &canvas.pixels {
            assert_eq!(*p, bg);
        }
    }
}

#[test]
fn grid_of_seven_tiles() {
    let bg = background();
    let colors: Vec<Rgba> = (0..7)
        .map(|i| Rgba { r: 30 * i as u8, g: 255 - 30 * i as u8, b: 7 * i as u8, a: 255 })
        .collect();
    let avatars: Vec<Vec<u8>> = colors.iter().map(|c| solid_avatar_png(*c, 128)).collect();
    let canvas = compose_canvas(&avatars, Some(5), 64, &GlyphRun::empty(), 64)
        .expect("composing succeeds");
    assert_eq!(canvas.width, 640);
    assert_eq!(canvas.height, 320);
    // tile 0 sits at (0, 64), tile 5 at (0, 192), tile 6 at (128, 192);
    // the tile center is inside the circle and keeps the avatar color
    assert_eq!(canvas.get_pixel(64, 64 + 64), colors[0]);
    assert_eq!(canvas.get_pixel(64, 192 + 64), colors[5]);
    assert_eq!(canvas.get_pixel(128 + 64, 192 + 64), colors[6]);
    // a tile corner is outside the circle and was masked to background
    assert_eq!(canvas.get_pixel(0, 64), bg);
    assert_eq!(canvas.get_pixel(129, 193), bg);
    // the header band stayed background (the run was empty)
    assert_eq!(canvas.get_pixel(320, 10), bg);
    // the eighth grid cell holds no tile and stays background
    assert_eq!(canvas.get_pixel(2 * 128 + 64, 192 + 64), bg);
}

#[test]
fn placement_follows_input_order() {
    let red = Rgba { r: 200, g: 0, b: 0, a: 255 };
    let blue = Rgba { r: 0, g: 0, b: 200, a: 255 };
    let avatars = vec![solid_avatar_png(red, 128), solid_avatar_png(blue, 128)];
    let canvas = compose_canvas(&avatars, Some(5), 64, &GlyphRun::empty(), 64)
        .expect("composing succeeds");
    assert_eq!(canvas.get_pixel(64, 128), red);
    assert_eq!(canvas.get_pixel(128 + 64, 128), blue);
}

#[test]
fn auto_columns_compose_like_explicit_five() {
    let color = Rgba { r: 77, g: 77, b: 77, a: 255 };
    let avatars = vec![solid_avatar_png(color, 128); 3];
    // three avatars: the automatic row width still spans five columns
    let auto = compose_canvas(&avatars, None, 64, &GlyphRun::empty(), 64)
        .expect("composing succeeds");
    let explicit = compose_canvas(&avatars, Some(5), 64, &GlyphRun::empty(), 64)
        .expect("composing succeeds");
    assert_eq!(auto.width, explicit.width);
    assert_eq!(auto.height, explicit.height);
    assert_eq!(auto.pixels, explicit.pixels);
}

#[test]
fn undecodable_avatar_fails_with_decode_error() {
    let avatars = vec![solid_avatar_png(background(), 128), vec![1u8, 2, 3]];
    let r = compose_canvas(&avatars, Some(5), 64, &GlyphRun::empty(), 64);
    assert_eq!(r.unwrap_err(), CompositorError::Decode);
}

#[test]
fn oversized_header_run_fails_loudly() {
    let raster = GlyphRaster { left: 0, top: 0, width: 2, height: 900, coverage: vec![255; 1800] };
    let run = GlyphRun { rasters: vec![raster], width: 2, height: 900 };
    let r = compose_canvas(&Vec::new(), Some(5), 64, &run, 64);
    assert_eq!(r.unwrap_err(), CompositorError::HeaderOutOfBounds);
}

#[test]
fn within_limits_accepts_ordinary_requests_and_refuses_absurd_ones() {
    assert!(within_limits(0, None, 64));
    assert!(within_limits(500, Some(50), 64));
    assert!(within_limits(500, None, 0));
    assert!(!within_limits(0, Some(0), 64));
    assert!(!within_limits(0, Some(u32::MAX), 64));
    assert!(!within_limits(u32::MAX, Some(1), u32::MAX));
}

#[test]
fn encoding_succeeds_whenever_the_canvas_has_a_pixel() {
    // zero avatars over a header band still encode
    let png = compose_group_picture(&Vec::new(), Some(5), 64, &GlyphRun::empty(), 64)
        .expect("composing succeeds");
    let (w, h, _) = decode_image(&png).expect("decoding succeeds");
    assert_eq!((w, h), (640, 64));
    // the one exception: no avatars and no header band make a zero-height
    // canvas, which PNG cannot hold
    let r = compose_group_picture(&Vec::new(), Some(5), 0, &GlyphRun::empty(), 64);
    assert_eq!(r.unwrap_err(), CompositorError::Io);
}

#[test]
fn composed_picture_round_trips_through_png() {
    let avatars = vec![solid_avatar_png(Rgba { r: 10, g: 200, b: 90, a: 255 }, 128)];
    let run = GlyphRun {
        rasters: vec![GlyphRaster { left: 0, top: 0, width: 3, height: 3, coverage: vec![128; 9] }],
        width: 3,
        height: 3,
    };
    let png = compose_group_picture(&avatars, Some(5), 64, &run, 64).expect("composing succeeds");
    let canvas = compose_canvas(&avatars, Some(5), 64, &run, 64).expect("composing succeeds");
    let (w, h, bytes) = decode_image(&png).expect("decoding succeeds");
    assert_eq!((w, h), (canvas.width, canvas.height));
    assert_eq!(bytes, groupic::codec::bytes_from_pixels(&canvas.pixels));
}
