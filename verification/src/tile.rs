//! Normalized avatar tiles and the circular mask: every pixel whose
//! squared distance from the tile center reaches the squared radius is
//! replaced by the canvas background color.

use vstd::prelude::*;
use crate::pixel::Rgba;

verus! {

/// Number of pixels in one canonical 128-by-128 tile.
pub const TILE_PIXELS: usize = 16384;

/// Whether the pixel at `(x, y)` lies outside the circle of the given
/// radius centered at `(64, 64)`, by pure squared-distance arithmetic.
pub open spec fn spec_out_of_circle(x: int, y: int, radius: int) -> bool {
    (x - 64) * (x - 64) + (y - 64) * (y - 64) >= radius * radius
}

/// The result of masking a tile's pixel row-major sequence: out-of-circle
/// pixels become `bg`, the rest keep their value.
pub open spec fn spec_masked(s: Seq<Rgba>, radius: int, bg: Rgba) -> Seq<Rgba> {
    Seq::new(s.len(), |i: int| if spec_out_of_circle(i % 128, i / 128, radius) { bg } else { s[i] })
}

/// Masking twice with the same radius and background gives the same tile
/// as masking once.
pub proof fn lemma_mask_idempotent(s: Seq<Rgba>, radius: int, bg: Rgba)
    ensures
        spec_masked(spec_masked(s, radius, bg), radius, bg) == spec_masked(s, radius, bg),
{
    let once = spec_masked(s, radius, bg);
    let twice = spec_masked(once, radius, bg);
    assert forall|i: int| 0 <= i < twice.len() implies twice[i] == once[i] by {
    }
    assert(twice =~= once);
}

/// One avatar bitmap, normalized to 128-by-128 RGBA pixels stored
/// row-major.
#[derive(Debug)]
pub struct Tile {
    /// Row-major pixel data, exactly `TILE_PIXELS` entries.
    pub pixels: Vec<Rgba>,
}

impl Tile {
    /// A tile is well formed when it holds exactly one canonical square
    /// of pixels.
    pub open spec fn wf(self) -> bool {
        self.pixels@.len() == TILE_PIXELS
    }

    /// The tile's pixels as a sequence.
    pub open spec fn view(self) -> Seq<Rgba> {
        self.pixels@
    }

    /// Builds a tile from exactly one square's worth of pixels.
    pub fn new(pixels: Vec<Rgba>) -> (t: Tile)
        requires
            pixels@.len() == TILE_PIXELS,
        ensures
            t.wf(),
            t@ == pixels@,
    {
        Tile { pixels }
    }

    /// A tile filled with one color.
    pub fn solid(color: Rgba) -> (t: Tile)
        ensures
            t.wf(),
            t@ == Seq::new(TILE_PIXELS as nat, |i: int| color),
    {
        let mut pixels: Vec<Rgba> = Vec::new();
        let mut i: usize = 0;
        while i < TILE_PIXELS
            invariant
                0 <= i <= TILE_PIXELS,
                pixels@.len() == i,
                forall|j: int| 0 <= j < i ==> pixels@[j] == color,
            decreases TILE_PIXELS - i,
        {
            pixels.push(color);
            i = i + 1;
        }
        assert(pixels@ =~= Seq::new(TILE_PIXELS as nat, |j: int| color));
        Tile { pixels }
    }

    /// Reads the pixel at `(x, y)`.
    pub fn get_pixel(&self, x: u32, y: u32) -> (p: Rgba)
        requires
            self.wf(),
            x < 128,
            y < 128,
        ensures
            p == self@[y as int * 128 + x as int],
    {
        let idx: usize = (y as usize) * 128 + (x as usize);
        self.pixels[idx]
    }

    /// Applies the circular cutout: every pixel at squared distance of at
    /// least `radius * radius` from the center `(64, 64)` is overwritten
    /// with `background`; pixels inside the circle are untouched.
    pub fn apply_circle_mask(&mut self, radius: u32, background: Rgba)
        requires
            old(self).wf(),
        ensures
            final(self).wf(),
            final(self)@ == spec_masked(old(self)@, radius as int, background),
    {
        proof {
            assert((radius as int) * (radius as int) <= u32::MAX * u32::MAX) by (nonlinear_arith)
                requires
                    0 <= radius <= u32::MAX;
        }
        let r2: u64 = (radius as u64) * (radius as u64);
        let mut i: usize = 0;
        while i < TILE_PIXELS
            invariant
                0 <= i <= TILE_PIXELS,
                self.pixels@.len() == TILE_PIXELS,
                old(self).pixels@.len() == TILE_PIXELS,
                r2 == (radius as int) * (radius as int),
                forall|j: int|
                    0 <= j < i ==> self.pixels@[j] == (if spec_out_of_circle(
                        j % 128,
                        j / 128,
                        radius as int,
                    ) {
                        background
                    } else {
                        old(self).pixels@[j]
                    }),
                forall|j: int| i <= j < TILE_PIXELS ==> self.pixels@[j] == old(self).pixels@[j],
            decreases TILE_PIXELS - i,
        {
            let x = (i % 128) as i64;
            let y = (i / 128) as i64;
            let dx = x - 64;
            let dy = y - 64;
            proof {
                assert(0 <= dx * dx <= 4096 && 0 <= dy * dy <= 4096) by (nonlinear_arith)
                    requires
                        -64 <= dx <= 63 && -64 <= dy <= 63;
            }
            let dist2 = (dx * dx + dy * dy) as u64;
            if dist2 >= r2 {
                self.pixels.set(i, background);
            }
            i = i + 1;
        }
        assert(self.pixels@ =~= spec_masked(old(self).pixels@, radius as int, background));
    }
}

} // verus!
