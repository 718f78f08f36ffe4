//! A plain RGB bitmap: the pixel data that captures hand to the scanner.
//!
//! Pixels are stored row-major as three bytes each, so the whole content is
//! visible to the verifier; converting from a capture library's image type
//! is a byte-for-byte copy done by the embedding program.

use vstd::prelude::*;

verus! {

/// Images stay strictly below this many pixels on a side.
pub const PX_BOUND: u32 = 0x4000;

/// One RGB color.
#[derive(Clone, Copy, PartialEq, Eq, Structural, Debug)]
pub struct Rgb8 {
    pub r: u8,
    pub g: u8,
    pub b: u8,
}

/// Squared Euclidean distance between two colors in RGB space.
pub open spec fn spec_color_distance(c1: Rgb8, c2: Rgb8) -> int {
    (c1.r - c2.r) * (c1.r - c2.r) + (c1.g - c2.g) * (c1.g - c2.g) + (c1.b - c2.b) * (c1.b
        - c2.b)
}

/// Squared Euclidean distance between two colors in RGB space.
pub fn color_distance(c1: &Rgb8, c2: &Rgb8) -> (d: usize)
    ensures
        d == spec_color_distance(*c1, *c2),
{
    let x = c1.r as i32 - c2.r as i32;
    let y = c1.g as i32 - c2.g as i32;
    let z = c1.b as i32 - c2.b as i32;
    proof {
        assert(x * x <= 255 * 255 && y * y <= 255 * 255 && z * z <= 255 * 255 && x * x >= 0 && y
            * y >= 0 && z * z >= 0) by (nonlinear_arith)
            requires
                -255 <= x <= 255,
                -255 <= y <= 255,
                -255 <= z <= 255,
        ;
    }
    (x * x + y * y + z * z) as usize
}

/// An owned RGB image, three bytes per pixel, row-major.
pub struct RgbBitmap {
    pub width: u32,
    pub height: u32,
    pub data: Vec<u8>,
}

impl RgbBitmap {
    /// Shape invariant: bounded dimensions and exactly three bytes per pixel.
    pub open spec fn wf(&self) -> bool {
        &&& self.width < PX_BOUND
        &&& self.height < PX_BOUND
        &&& self.data@.len() == 3 * self.width * self.height
    }

    /// The color at pixel (x, y).
    pub open spec fn spec_pixel(&self, x: int, y: int) -> Rgb8
        recommends
            self.wf(),
            0 <= x < self.width,
            0 <= y < self.height,
    {
        let idx = 3 * (y * self.width + x);
        Rgb8 { r: self.data@[idx], g: self.data@[idx + 1], b: self.data@[idx + 2] }
    }

    /// Build a bitmap from raw bytes; `None` when the byte count does not
    /// match the dimensions.
    pub fn from_raw(width: u32, height: u32, data: Vec<u8>) -> (r: Option<RgbBitmap>)
        ensures
            match r {
                Some(im) => {
                    &&& im.wf()
                    &&& im.width == width
                    &&& im.height == height
                    &&& im.data@ == data@
                },
                None => !(width < PX_BOUND && height < PX_BOUND && data@.len() == 3 * width
                    * height),
            },
    {
        if width < PX_BOUND && height < PX_BOUND {
            proof {
                assert(3 * (width as int) * (height as int) < 0x4000_0000) by (nonlinear_arith)
                    requires
                        width < PX_BOUND,
                        height < PX_BOUND,
                ;
            }
            let expected: usize = 3 * (width as usize) * (height as usize);
            if data.len() == expected {
                Some(RgbBitmap { width, height, data })
            } else {
                None
            }
        } else {
            None
        }
    }

    /// The color at pixel (x, y).
    pub fn get_pixel(&self, x: u32, y: u32) -> (c: Rgb8)
        requires
            self.wf(),
            x < self.width,
            y < self.height,
        ensures
            c == self.spec_pixel(x as int, y as int),
    {
        proof {
            lemma_pixel_index(self.width as int, self.height as int, x as int, y as int);
            assert(3 * ((y as int) * (self.width as int) + (x as int)) + 2 < 0x4000_0000)
                by (nonlinear_arith)
                requires
                    x < self.width < PX_BOUND,
                    y < self.height < PX_BOUND,
            ;
        }
        let idx: usize = 3 * ((y as usize) * (self.width as usize) + (x as usize));
        Rgb8 { r: self.data[idx], g: self.data[idx + 1], b: self.data[idx + 2] }
    }

    /// Copy out the sub-image with corner (x, y) and the given extent.
    pub fn crop_region(&self, x: u32, y: u32, w: u32, h: u32) -> (r: RgbBitmap)
        requires
            self.wf(),
            x + w <= self.width,
            y + h <= self.height,
        ensures
            r.wf(),
            r.width == w,
            r.height == h,
            forall|i: int, j: int|
                0 <= i < w && 0 <= j < h ==> r.spec_pixel(i, j) == self.spec_pixel(
                    x + i,
                    y + j,
                ),
    {
        let mut data: Vec<u8> = Vec::new();
        let mut j: u32 = 0;
        while j < h
            invariant
                self.wf(),
                x + w <= self.width,
                y + h <= self.height,
                j <= h,
                data@.len() == 3 * (w * j),
                forall|i2: int, j2: int|
                    0 <= i2 < w && 0 <= j2 < j ==> pixel_of_bytes(data@, w as int, i2, j2)
                        == self.spec_pixel(x + i2, y + j2),
            decreases h - j,
        {
            let mut i: u32 = 0;
            while i < w
                invariant
                    self.wf(),
                    x + w <= self.width,
                    y + h <= self.height,
                    j < h,
                    i <= w,
                    data@.len() == 3 * (w * j) + 3 * i,
                    forall|i2: int, j2: int|
                        0 <= i2 < w && 0 <= j2 < j ==> pixel_of_bytes(data@, w as int, i2, j2)
                            == self.spec_pixel(x + i2, y + j2),
                    forall|i2: int|
                        0 <= i2 < i ==> pixel_of_bytes(data@, w as int, i2, j as int)
                            == self.spec_pixel(x + i2, y + j),
                decreases w - i,
            {
                let ghost data0 = data@;
                let c = self.get_pixel(x + i, y + j);
                data.push(c.r);
                data.push(c.g);
                data.push(c.b);
                proof {
                    assert(data@ == data0 + seq![c.r, c.g, c.b]);
                    assert forall|i2: int, j2: int|
                        0 <= i2 < w && 0 <= j2 < j implies pixel_of_bytes(
                        data@,
                        w as int,
                        i2,
                        j2,
                    ) == self.spec_pixel(x + i2, y + j2) by {
                        lemma_pixel_index(w as int, j as int, i2, j2);
                        assert(3 * (j2 * w + i2) + 2 < 3 * (w * j)) by (nonlinear_arith)
                            requires
                                0 <= i2 < w,
                                0 <= j2 < j,
                        ;
                        assert(pixel_of_bytes(data@, w as int, i2, j2) == pixel_of_bytes(
                            data0,
                            w as int,
                            i2,
                            j2,
                        ));
                    }
                    assert forall|i2: int| 0 <= i2 <= i implies pixel_of_bytes(
                        data@,
                        w as int,
                        i2,
                        j as int,
                    ) == self.spec_pixel(x + i2, y + j) by {
                        assert(3 * (j * w + i2) == 3 * (w * j) + 3 * i2) by (nonlinear_arith);
                        if i2 < i {
                            assert(pixel_of_bytes(data@, w as int, i2, j as int)
                                == pixel_of_bytes(data0, w as int, i2, j as int));
                        } else {
                            assert(data@[3 * (w * j) + 3 * i] == c.r);
                            assert(data@[3 * (w * j) + 3 * i + 1] == c.g);
                            assert(data@[3 * (w * j) + 3 * i + 2] == c.b);
                        }
                    }
                }
                i = i + 1;
            }
            proof {
                assert(3 * (w * j) + 3 * w == 3 * (w * (j + 1))) by (nonlinear_arith);
            }
            j = j + 1;
        }
        proof {
            assert(3 * (w * h) == 3 * w * h) by (nonlinear_arith);
        }
        let r = RgbBitmap { width: w, height: h, data };
        proof {
            assert forall|i: int, j: int| 0 <= i < w && 0 <= j < h implies r.spec_pixel(i, j)
                == self.spec_pixel(x + i, y + j) by {
                assert(r.spec_pixel(i, j) == pixel_of_bytes(r.data@, w as int, i, j));
            }
        }
        r
    }
}

/// The color encoded at pixel (x, y) in a raw byte sequence `w` pixels wide.
pub open spec fn pixel_of_bytes(data: Seq<u8>, w: int, x: int, y: int) -> Rgb8 {
    let idx = 3 * (y * w + x);
    Rgb8 { r: data[idx], g: data[idx + 1], b: data[idx + 2] }
}

proof fn lemma_pixel_index(w: int, h: int, x: int, y: int)
    requires
        0 <= x < w,
        0 <= y < h,
    ensures
        0 <= 3 * (y * w + x),
        3 * (y * w + x) + 2 < 3 * w * h,
        3 * (y * w + x) == 3 * (y * w) + 3 * x,
{
    assert(0 <= y * w && y * w + x < w * h && 3 * (y * w + x) + 2 < 3 * (w * h) && 3 * (w * h)
        == 3 * w * h && 3 * (y * w + x) == 3 * (y * w) + 3 * x) by (nonlinear_arith)
        requires
            0 <= x < w,
            0 <= y < h,
    ;
}

} // verus!

verus! {

impl RgbBitmap {
    /// Whether the shape invariant holds, checked at run time: what an
    /// embedding program's capture produced can be validated before the
    /// scanner relies on it.
    pub fn is_well_formed(&self) -> (b: bool)
        ensures
            b == self.wf(),
    {
        if !(self.width < PX_BOUND && self.height < PX_BOUND) {
            return false;
        }
        proof {
            assert(3 * (self.width as int) * (self.height as int) < 0x4000_0000)
                by (nonlinear_arith)
                requires
                    self.width < PX_BOUND,
                    self.height < PX_BOUND,
            ;
        }
        self.data.len() == 3 * (self.width as usize) * (self.height as usize)
    }
}

} // verus!
