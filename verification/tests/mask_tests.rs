use groupic::pixel::{background, Rgba};
use groupic::tile::{Tile, TILE_PIXELS};

fn patterned_tile() -> Tile {
    let mut pixels: Vec<Rgba> = Vec::new();
    for i in 0..TILE_PIXELS {
        pixels.push(Rgba {
            r: (i % 251) as u8,
            g: (i % 7) as u8,
            b: (i % 13) as u8,
            a: 255,
        });
    }
    Tile::new(pixels)
}

#[test]
fn mask_is_idempotent() {
    let bg = background();
    let mut once = patterned_tile();
    once.apply_circle_mask(64, bg);
    let mut twice = patterned_tile();
    twice.apply_circle_mask(64, bg);
    twice.apply_circle_mask(64, bg);
    for i in 0..TILE_PIXELS {
        assert_eq!(once.pixels[i], twice.pixels[i], "pixel {} differs", i);
    }
}

#[test]
fn mask_cuts_corners_and_keeps_center() {
    let bg = background();
    let mut tile = patterned_tile();
    let before_center = tile.get_pixel(64, 64);
    tile.apply_circle_mask(64, bg);
    // the corner is far outside the circle
    assert_eq!(tile.get_pixel(0, 0), bg);
    assert_eq!(tile.get_pixel(127, 0), bg);
    assert_eq!(tile.get_pixel(0, 127), bg);
    assert_eq!(tile.get_pixel(127, 127), bg);
    // the center is inside and untouched
    assert_eq!(tile.get_pixel(64, 64), before_center);
    // the boundary rule is "squared distance >= radius squared": the point
    // at (0, 64) sits at distance exactly 64 and is cut
    assert_eq!(tile.get_pixel(0, 64), bg);
    // one pixel inward survives
    let before = patterned_tile().get_pixel(1, 64);
    assert_eq!(tile.get_pixel(1, 64), before);
}

#[test]
fn zero_radius_masks_everything() {
    let bg = background();
    let mut tile = patterned_tile();
    tile.apply_circle_mask(0, bg);
    for i in 0..TILE_PIXELS {
        assert_eq!(tile.pixels[i], bg);
    }
}
