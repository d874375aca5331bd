use groupic::canvas::Canvas;
use groupic::error::CompositorError;
use groupic::pixel::{background, blend_channel};
use groupic::text::{render_header, GlyphRaster, GlyphRun};

#[test]
fn empty_header_leaves_canvas_untouched() {
    let bg = background();
    let mut canvas = Canvas::new(640, 128, bg);
    let run = GlyphRun::empty();
    let r = render_header(&mut canvas, 64, &run);
    assert!(r.is_ok());
    for p in &canvas.pixels {
        assert_eq!(*p, bg);
    }
}

#[test]
fn single_raster_blends_where_covered() {
    let bg = background();
    let mut canvas = Canvas::new(100, 64, bg);
    // a 2-by-2 raster at the run origin; the run is measured 2-by-2, so
    // it is centered at ((100 - 2) / 2, (64 - 2) / 2) = (49, 31)
    let raster = GlyphRaster { left: 0, top: 0, width: 2, height: 2, coverage: vec![0, 255, 255, 128] };
    let run = GlyphRun { rasters: vec![raster], width: 2, height: 2 };
    let r = render_header(&mut canvas, 64, &run);
    assert!(r.is_ok());
    // coverage 0: untouched background
    assert_eq!(canvas.get_pixel(49, 31), bg);
    // coverage 255: the foreground
    let full = canvas.get_pixel(50, 31);
    assert_eq!((full.r, full.g, full.b, full.a), (240, 240, 240, 255));
    let full = canvas.get_pixel(49, 32);
    assert_eq!((full.r, full.g, full.b, full.a), (240, 240, 240, 255));
    // coverage 128: the blend formula per channel
    let half = canvas.get_pixel(50, 32);
    assert_eq!(half.r, blend_channel(48, 240, 128));
    assert_eq!(half.g, blend_channel(48, 240, 128));
    assert_eq!(half.b, blend_channel(54, 240, 128));
    assert_eq!(half.a, blend_channel(255, 255, 128));
    // outside the raster: untouched
    assert_eq!(canvas.get_pixel(51, 31), bg);
    assert_eq!(canvas.get_pixel(48, 31), bg);
}

#[test]
fn raster_outside_canvas_is_refused_loudly() {
    let bg = background();
    let mut canvas = Canvas::new(64, 64, bg);
    // 80 pixels tall: deeper than the canvas wherever it lands
    let raster = GlyphRaster { left: 0, top: 0, width: 4, height: 80, coverage: vec![255; 4 * 80] };
    let run = GlyphRun { rasters: vec![raster], width: 4, height: 80 };
    let r = render_header(&mut canvas, 64, &run);
    assert_eq!(r, Err(CompositorError::HeaderOutOfBounds));
    // nothing was painted
    for p in &canvas.pixels {
        assert_eq!(*p, bg);
    }
}

#[test]
fn overlapping_rasters_blend_in_paint_order() {
    let bg = background();
    let mut canvas = Canvas::new(10, 10, bg);
    let a = GlyphRaster { left: 0, top: 0, width: 1, height: 1, coverage: vec![255] };
    let b = GlyphRaster { left: 0, top: 0, width: 1, height: 1, coverage: vec![128] };
    let run = GlyphRun { rasters: vec![a, b], width: 1, height: 1 };
    let r = render_header(&mut canvas, 10, &run);
    assert!(r.is_ok());
    // first full ink, then another half-coverage pass over it
    let p = canvas.get_pixel(4, 4);
    assert_eq!(p.r, blend_channel(240, 240, 128));
}
