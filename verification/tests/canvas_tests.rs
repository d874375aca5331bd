use groupic::canvas::Canvas;
use groupic::pixel::{background, blend_channel, Rgba};
use groupic::text::header_offsets;
use groupic::tile::{Tile, TILE_PIXELS};

#[test]
fn new_canvas_is_background_filled() {
    let bg = background();
    let canvas = Canvas::new(10, 7, bg);
    assert_eq!(canvas.width, 10);
    assert_eq!(canvas.height, 7);
    assert_eq!(canvas.pixels.len(), 70);
    for p in &canvas.pixels {
        assert_eq!(*p, bg);
    }
}

#[test]
fn blit_overwrites_the_tile_rectangle_only() {
    let bg = background();
    let red = Rgba { r: 200, g: 10, b: 10, a: 255 };
    let mut canvas = Canvas::new(256, 256, bg);
    let tile = Tile::solid(red);
    canvas.blit(&tile, 64, 32);
    assert_eq!(canvas.get_pixel(64, 32), red);
    assert_eq!(canvas.get_pixel(191, 159), red);
    assert_eq!(canvas.get_pixel(63, 32), bg);
    assert_eq!(canvas.get_pixel(64, 31), bg);
    assert_eq!(canvas.get_pixel(192, 159), bg);
    assert_eq!(canvas.get_pixel(191, 160), bg);
}

#[test]
fn blend_channel_formula() {
    // full coverage paints the foreground
    assert_eq!(blend_channel(48, 240, 255), 240);
    // zero coverage keeps the destination
    assert_eq!(blend_channel(48, 240, 0), 48);
    // half coverage: (48 * 127 + 240 * 128 + 127) / 255 = 144
    assert_eq!(blend_channel(48, 240, 128), 144);
}

#[test]
fn blend_pixel_composites_over_background() {
    let bg = background();
    let mut canvas = Canvas::new(4, 4, bg);
    canvas.blend_pixel(2, 1, Rgba { r: 240, g: 240, b: 240, a: 128 });
    let p = canvas.get_pixel(2, 1);
    assert_eq!(p.r, blend_channel(48, 240, 128));
    assert_eq!(p.g, blend_channel(48, 240, 128));
    assert_eq!(p.b, blend_channel(54, 240, 128));
    assert_eq!(p.a, blend_channel(255, 255, 128));
    // neighbors untouched
    assert_eq!(canvas.get_pixel(1, 1), bg);
    assert_eq!(canvas.get_pixel(2, 2), bg);
}

#[test]
fn header_offsets_center_the_run() {
    assert_eq!(header_offsets(640, 64, 100, 40), (270, 12));
    // a run wider than the canvas starts at the left edge
    assert_eq!(header_offsets(64, 64, 100, 40), (0, 12));
    // an empty run centers trivially
    assert_eq!(header_offsets(640, 64, 0, 0), (320, 32));
}

#[test]
fn tile_pixel_count_is_canonical() {
    let tile = Tile::solid(background());
    assert_eq!(tile.pixels.len(), TILE_PIXELS);
    assert_eq!(TILE_PIXELS, 128 * 128);
}
