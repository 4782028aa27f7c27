//! The errors that end an overlay.

use vstd::prelude::*;

verus! {

/// The ways in which overlaying text onto an image can fail.
///
/// Every one of them is terminal for the whole call.
#[derive(Clone, Copy, Debug, PartialEq, Eq, Structural)]
pub enum OverlayError {
    /// A block's rectangle lies outside the image or is degenerate.
    GeometryError,
    /// A run names a font that the catalog does not hold.
    FontNotFound,
    /// A color string is not 6 or 8 hex digits, after an optional leading `#`.
    ColorParseError,
    /// No font size in the block's range lets its text fit.
    FitError,
}

} // verus!
