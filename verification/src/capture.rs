//! The capture capability: anything that can reflect the live screen as
//! bitmaps and colors.  What a capture returns depends on the screen at
//! call time, so nothing is promised about it; the logic that consumes a
//! capture is verified for every possible content.

use vstd::prelude::*;

use crate::bitmap::Rgb8;
use crate::error::ScanError;
use crate::geometry::{Pos, Rect};

verus! {

/// Screen capture over some image type.  Coordinates are in milli-pixels
/// of the screen.
pub trait Capturer<ImageType> {
    /// Capture the given screen rectangle.
    fn capture_rect(&self, rect: Rect) -> Result<ImageType, ScanError>;

    /// Capture a rectangle given relative to an origin point.
    fn capture_relative_to(&self, rect: Rect, origin: Pos) -> Result<ImageType, ScanError>;

    /// Sample the color of one screen pixel.
    fn capture_color(&self, pos: Pos) -> Result<Rgb8, ScanError>;
}

} // verus!
