//! Group-picture compositor: lays a rendered text header over a grid of
//! circularly masked, uniformly sized avatar tiles and produces one RGBA
//! canvas, encoded as lossless PNG.
//!
//! The pipeline, leaves first: [`layout`] fixes the grid geometry from an
//! item count and a row width, [`canvas`] owns the background-filled
//! output bitmap, [`text`] blends glyph coverage rasters into the header
//! band, [`loader`] decodes and normalizes each avatar through [`codec`],
//! [`tile`] cuts it to a circle, and [`compose`] runs the stages in order
//! and encodes the result. [`cdn`] builds the avatar URLs the surrounding
//! application downloads from.
//!
//! Reading files, writing the output, and shaping text against a font
//! (floating-point glyph metrics) are the caller's concern: the library
//! computes from plain values.

pub mod canvas;
pub mod cdn;
pub mod codec;
pub mod compose;
pub mod error;
pub mod layout;
pub mod loader;
pub mod pixel;
pub mod text;
pub mod tile;
