//! Geometry values in milli-pixel fixed point.
//!
//! A calibrated coordinate is stored as an `i64` count of milli-pixels
//! (one pixel is `MP_PER_PX` units).  Rescaling to a live window size
//! multiplies by the target width and divides by the reference width,
//! truncating toward zero, which is exact whenever the reference width
//! divides the product.

use vstd::prelude::*;

verus! {

/// Number of milli-pixel units in one pixel.
pub const MP_PER_PX: i64 = 1000;

/// Raw calibration values stay strictly below this bound (about 16 thousand
/// pixels in milli-pixel units), so that scaling stays inside `i64`.
pub const CAL_BOUND: i64 = 0x100_0000;

/// Window sizes (in pixels) stay strictly below this bound.
pub const SIZE_BOUND: i64 = 0x10_0000;

/// Bound on a calibration value after scaling by a width ratio.
pub const SCALED_BOUND: i64 = CAL_BOUND * SIZE_BOUND;

/// A point, in milli-pixels.
#[derive(Clone, Copy, PartialEq, Eq, Structural, Debug)]
pub struct Pos {
    pub x: i64,
    pub y: i64,
}

/// A width and height, in milli-pixels.
#[derive(Clone, Copy, PartialEq, Eq, Structural, Debug)]
pub struct Size {
    pub width: i64,
    pub height: i64,
}

/// A rectangle, in milli-pixels.
#[derive(Clone, Copy, PartialEq, Eq, Structural, Debug)]
pub struct Rect {
    pub left: i64,
    pub top: i64,
    pub width: i64,
    pub height: i64,
}

/// Truncating-toward-zero division of `v * tw` by `rw`: the exact scaling
/// of a coordinate authored at reference width `rw` to target width `tw`.
pub open spec fn scale_mp(v: int, tw: int, rw: int) -> int
    recommends
        rw > 0,
        tw > 0,
{
    if v >= 0 {
        (v * tw) / rw
    } else {
        -(((-v) * tw) / rw)
    }
}

/// Milli-pixels to whole pixels, truncating toward zero (as a float-to-int
/// cast would).
pub open spec fn mp_to_px(v: int) -> int {
    if v >= 0 {
        v / (MP_PER_PX as int)
    } else {
        -((-v) / (MP_PER_PX as int))
    }
}

/// A raw calibration value small enough to be scaled without overflow.
pub open spec fn cal_in_bounds(v: int) -> bool {
    -CAL_BOUND < v < CAL_BOUND
}

/// Bounds on a scale pair (target width, reference width), in pixels.
pub open spec fn scale_pair_in_bounds(tw: int, rw: int) -> bool {
    0 < tw < SIZE_BOUND && 0 < rw < SIZE_BOUND
}

/// The sum of two values fits in an `i64`.
pub open spec fn addable(a: int, b: int) -> bool {
    i64::MIN <= a + b <= i64::MAX
}

proof fn lemma_scale_bounds(v: int, tw: int, rw: int)
    requires
        0 <= v < CAL_BOUND,
        scale_pair_in_bounds(tw, rw),
    ensures
        0 <= v * tw < CAL_BOUND * SIZE_BOUND,
        0 <= (v * tw) / rw < CAL_BOUND * SIZE_BOUND,
{
    assert(0 <= v * tw < CAL_BOUND * SIZE_BOUND) by (nonlinear_arith)
        requires
            0 <= v < CAL_BOUND,
            0 < tw < SIZE_BOUND,
    ;
    assert(0 <= (v * tw) / rw <= v * tw) by (nonlinear_arith)
        requires
            0 <= v * tw,
            0 < rw,
    ;
}

/// Scale one milli-pixel value by the width ratio `tw / rw`.
pub fn scale_value(v: i64, tw: i64, rw: i64) -> (r: i64)
    requires
        cal_in_bounds(v as int),
        scale_pair_in_bounds(tw as int, rw as int),
    ensures
        r == scale_mp(v as int, tw as int, rw as int),
        -SCALED_BOUND < r < SCALED_BOUND,
{
    if v >= 0 {
        proof {
            lemma_scale_bounds(v as int, tw as int, rw as int);
        }
        (v * tw) / rw
    } else {
        proof {
            lemma_scale_bounds(-v as int, tw as int, rw as int);
        }
        let m = (-v) * tw;
        -(m / rw)
    }
}

/// Milli-pixels to whole pixels, truncating toward zero.
pub fn to_px(v: i64) -> (r: i64)
    requires
        v != i64::MIN,
    ensures
        r == mp_to_px(v as int),
{
    if v >= 0 {
        v / MP_PER_PX
    } else {
        -((-v) / MP_PER_PX)
    }
}

impl Pos {
    /// Componentwise translation.
    pub fn translate(&self, d: Pos) -> (r: Pos)
        requires
            addable(self.x as int, d.x as int),
            addable(self.y as int, d.y as int),
        ensures
            r.x == self.x + d.x,
            r.y == self.y + d.y,
    {
        Pos { x: self.x + d.x, y: self.y + d.y }
    }

    /// Scale both components by the width ratio `tw / rw`.
    pub fn scaled(&self, tw: i64, rw: i64) -> (r: Pos)
        requires
            cal_in_bounds(self.x as int),
            cal_in_bounds(self.y as int),
            scale_pair_in_bounds(tw as int, rw as int),
        ensures
            r.x == scale_mp(self.x as int, tw as int, rw as int),
            r.y == scale_mp(self.y as int, tw as int, rw as int),
            -SCALED_BOUND < r.x < SCALED_BOUND,
            -SCALED_BOUND < r.y < SCALED_BOUND,
    {
        Pos { x: scale_value(self.x, tw, rw), y: scale_value(self.y, tw, rw) }
    }
}

impl Size {
    /// Scale both components by the width ratio `tw / rw`.
    pub fn scaled(&self, tw: i64, rw: i64) -> (r: Size)
        requires
            cal_in_bounds(self.width as int),
            cal_in_bounds(self.height as int),
            scale_pair_in_bounds(tw as int, rw as int),
        ensures
            r.width == scale_mp(self.width as int, tw as int, rw as int),
            r.height == scale_mp(self.height as int, tw as int, rw as int),
            -SCALED_BOUND < r.width < SCALED_BOUND,
            -SCALED_BOUND < r.height < SCALED_BOUND,
    {
        Size { width: scale_value(self.width, tw, rw), height: scale_value(self.height, tw, rw) }
    }
}

impl Rect {
    /// Translate the origin corner, keeping the extent.
    pub fn translate(&self, d: Pos) -> (r: Rect)
        requires
            addable(self.left as int, d.x as int),
            addable(self.top as int, d.y as int),
        ensures
            r.left == self.left + d.x,
            r.top == self.top + d.y,
            r.width == self.width,
            r.height == self.height,
    {
        Rect { left: self.left + d.x, top: self.top + d.y, width: self.width, height: self.height }
    }

    /// Scale all four components by the width ratio `tw / rw`.
    pub fn scaled(&self, tw: i64, rw: i64) -> (r: Rect)
        requires
            cal_in_bounds(self.left as int),
            cal_in_bounds(self.top as int),
            cal_in_bounds(self.width as int),
            cal_in_bounds(self.height as int),
            scale_pair_in_bounds(tw as int, rw as int),
        ensures
            r.left == scale_mp(self.left as int, tw as int, rw as int),
            r.top == scale_mp(self.top as int, tw as int, rw as int),
            r.width == scale_mp(self.width as int, tw as int, rw as int),
            r.height == scale_mp(self.height as int, tw as int, rw as int),
            -SCALED_BOUND < r.left < SCALED_BOUND,
            -SCALED_BOUND < r.top < SCALED_BOUND,
            -SCALED_BOUND < r.width < SCALED_BOUND,
            -SCALED_BOUND < r.height < SCALED_BOUND,
    {
        Rect {
            left: scale_value(self.left, tw, rw),
            top: scale_value(self.top, tw, rw),
            width: scale_value(self.width, tw, rw),
            height: scale_value(self.height, tw, rw),
        }
    }
}

} // verus!
