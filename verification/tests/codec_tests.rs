use groupic::canvas::Canvas;
use groupic::codec::{bytes_from_pixels, decode_image, pixels_from_bytes};
use groupic::compose::encode_canvas;
use groupic::error::CompositorError;
use groupic::loader::load_tile;
use groupic::pixel::Rgba;
use groupic::tile::TILE_PIXELS;

fn small_canvas() -> Canvas {
    let mut canvas = Canvas::new(3, 2, Rgba { r: 0, g: 0, b: 0, a: 255 });
    canvas.pixels = vec![
        Rgba { r: 255, g: 0, b: 0, a: 255 },
        Rgba { r: 0, g: 255, b: 0, a: 255 },
        Rgba { r: 0, g: 0, b: 255, a: 255 },
        Rgba { r: 10, g: 20, b: 30, a: 40 },
        Rgba { r: 200, g: 100, b: 50, a: 255 },
        Rgba { r: 1, g: 2, b: 3, a: 254 },
    ];
    canvas
}

#[test]
fn png_round_trip_is_pixel_identical() {
    let canvas = small_canvas();
    let png = encode_canvas(&canvas).expect("encoding succeeds");
    // the encoding is a real PNG stream, not the raw pixels
    assert_eq!(&png[1..4], b"PNG");
    let (w, h, bytes) = decode_image(&png).expect("decoding succeeds");
    assert_eq!((w, h), (3, 2));
    assert_eq!(bytes, bytes_from_pixels(&canvas.pixels));
}

#[test]
fn garbage_bytes_fail_with_decode_error() {
    let garbage = vec![7u8, 13, 99, 42, 0, 1, 2, 3];
    assert_eq!(decode_image(&garbage).unwrap_err(), CompositorError::Decode);
    assert_eq!(load_tile(&garbage).unwrap_err(), CompositorError::Decode);
    let empty: Vec<u8> = Vec::new();
    assert_eq!(decode_image(&empty).unwrap_err(), CompositorError::Decode);
}

#[test]
fn bytes_and_pixels_round_trip() {
    let pixels = vec![
        Rgba { r: 1, g: 2, b: 3, a: 4 },
        Rgba { r: 5, g: 6, b: 7, a: 8 },
    ];
    let bytes = bytes_from_pixels(&pixels);
    assert_eq!(bytes, vec![1, 2, 3, 4, 5, 6, 7, 8]);
    assert_eq!(pixels_from_bytes(&bytes), pixels);
}

#[test]
fn canonical_size_loads_without_resampling() {
    // a 128-by-128 image loads pixel for pixel
    let mut canvas = Canvas::new(128, 128, Rgba { r: 9, g: 9, b: 9, a: 255 });
    for i in 0..canvas.pixels.len() {
        canvas.pixels[i] = Rgba { r: (i % 256) as u8, g: (i % 31) as u8, b: (i % 5) as u8, a: 255 };
    }
    let png = encode_canvas(&canvas).expect("encoding succeeds");
    let tile = load_tile(&png).expect("loading succeeds");
    assert_eq!(tile.pixels.len(), TILE_PIXELS);
    for i in 0..TILE_PIXELS {
        assert_eq!(tile.pixels[i], canvas.pixels[i], "pixel {} differs", i);
    }
}

#[test]
fn other_sizes_are_resampled_to_canonical() {
    // a solid 64-by-64 image comes out 128-by-128 and still solid
    let color = Rgba { r: 120, g: 30, b: 200, a: 255 };
    let canvas = Canvas::new(64, 64, color);
    let png = encode_canvas(&canvas).expect("encoding succeeds");
    let tile = load_tile(&png).expect("loading succeeds");
    assert_eq!(tile.pixels.len(), TILE_PIXELS);
    for i in 0..TILE_PIXELS {
        assert_eq!(tile.pixels[i], color, "pixel {} differs", i);
    }
}
