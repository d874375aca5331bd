//! Failures of one compositor invocation. All are terminal: no partial
//! output is produced, and errors travel by value to the caller.

use vstd::prelude::*;

verus! {

/// Why a compositor invocation failed.
#[derive(Clone, Copy, Debug, PartialEq, Eq, Structural)]
pub enum CompositorError {
    /// A file was missing, unreadable or unwritable.
    Io,
    /// An avatar file was not a supported image format, or was corrupt.
    Decode,
    /// The bundled font resource could not be parsed.
    FontLoad,
    /// A glyph raster would have painted outside the canvas; the layout
    /// owes every placement a spot inside it, so this is reported loudly
    /// instead of being clipped.
    HeaderOutOfBounds,
}

impl CompositorError {
    /// A short human-readable name for the failure.
    pub fn describe(&self) -> (s: &'static str)
        ensures
            (*self is Io) ==> s@ == "input or output failed"@,
            (*self is Decode) ==> s@ == "could not decode an avatar image"@,
            (*self is FontLoad) ==> s@ == "could not load the font"@,
            (*self is HeaderOutOfBounds) ==> s@ == "header text would leave the canvas"@,
    {
        match self {
            CompositorError::Io => "input or output failed",
            CompositorError::Decode => "could not decode an avatar image",
            CompositorError::FontLoad => "could not load the font",
            CompositorError::HeaderOutOfBounds => "header text would leave the canvas",
        }
    }
}

} // verus!
