//! The image-normalization pipeline that prepares a captured text line for
//! recognition: grayscale, contrast normalization with automatic polarity
//! inversion, content cropping, resize onto a fixed canvas, binarization.
//!
//! Pixel intensities are fixed-point integers: `SCALE` stands for full
//! brightness 1.0.  Every stage is specified exactly over the `GrayView`
//! ghost view of an image.

use vstd::arithmetic::div_mod::{
    lemma_div_pos_is_pos, lemma_fundamental_div_mod, lemma_mod_division_less_than_divisor,
    lemma_multiply_divide_le, lemma_multiply_divide_lt,
};
use vstd::prelude::*;

use crate::bitmap::{PX_BOUND, Rgb8, RgbBitmap};

verus! {

/// Fixed-point unit: this value stands for intensity 1.0.
pub const SCALE: u32 = 10000;

/// Intensity 0.5, the auto-inverse decision point.
pub const HALF_SCALE: u32 = 5000;

/// Minimum intensity for a pixel to count as content when cropping (0.7).
pub const CROP_CONTENT_THRESHOLD: u32 = 7000;

/// Binarization cutoff for ordinary text lines (0.53).
pub const BINARIZE_THRESHOLD: u32 = 5300;

/// Lower binarization cutoff that keeps low-contrast pending text (0.50).
pub const BINARIZE_THRESHOLD_PENDING: u32 = 5000;

/// Width of the fixed recognition canvas.
pub const OUT_WIDTH: u32 = 384;

/// Height of the fixed recognition canvas.
pub const OUT_HEIGHT: u32 = 32;

/// The mathematical content of a gray image.
#[verifier::ext_equal]
pub ghost struct GrayView {
    pub width: int,
    pub height: int,
    pub data: Seq<u32>,
}

impl GrayView {
    /// Shape invariant: bounded dimensions, one value per pixel, every
    /// value at most `SCALE`.
    pub open spec fn wf(self) -> bool {
        &&& 0 <= self.width < PX_BOUND
        &&& 0 <= self.height < PX_BOUND
        &&& self.data.len() == self.width * self.height
        &&& forall|k: int| 0 <= k < self.data.len() ==> self.data[k] <= SCALE
    }

    /// The intensity at pixel (x, y).
    pub open spec fn at(self, x: int, y: int) -> u32
        recommends
            0 <= x < self.width,
            0 <= y < self.height,
    {
        self.data[y * self.width + x]
    }
}

/// An owned gray image in fixed-point intensities, row-major.
pub struct GrayBitmap {
    pub width: u32,
    pub height: u32,
    pub data: Vec<u32>,
}

impl View for GrayBitmap {
    type V = GrayView;

    open spec fn view(&self) -> GrayView {
        GrayView { width: self.width as int, height: self.height as int, data: self.data@ }
    }
}

impl GrayBitmap {
    /// Shape invariant, inherited from the view.
    pub open spec fn wf(&self) -> bool {
        self@.wf()
    }

    /// Build a gray image from raw fixed-point values; `None` when the
    /// value count does not match the dimensions or a value is out of range.
    pub fn from_raw(width: u32, height: u32, data: Vec<u32>) -> (r: Option<GrayBitmap>)
        ensures
            match r {
                Some(im) => {
                    &&& im.wf()
                    &&& im@ == (GrayView {
                        width: width as int,
                        height: height as int,
                        data: data@,
                    })
                },
                None => !(width < PX_BOUND && height < PX_BOUND && data@.len() == width * height
                    && (forall|k: int| 0 <= k < data@.len() ==> data@[k] <= SCALE)),
            },
    {
        if !(width < PX_BOUND && height < PX_BOUND) {
            return None;
        }
        proof {
            assert((width as int) * (height as int) < 0x1000_0000) by (nonlinear_arith)
                requires
                    width < PX_BOUND,
                    height < PX_BOUND,
            ;
        }
        let expected: usize = (width as usize) * (height as usize);
        if data.len() != expected {
            return None;
        }
        let mut k: usize = 0;
        while k < data.len()
            invariant
                k <= data@.len(),
                forall|k2: int| 0 <= k2 < k ==> data@[k2] <= SCALE,
            decreases data@.len() - k,
        {
            if data[k] > SCALE {
                return None;
            }
            k = k + 1;
        }
        Some(GrayBitmap { width, height, data })
    }

    /// The intensity at pixel (x, y).
    pub fn get(&self, x: u32, y: u32) -> (v: u32)
        requires
            self.wf(),
            x < self.width,
            y < self.height,
        ensures
            v == self@.at(x as int, y as int),
            v <= SCALE,
    {
        proof {
            lemma_gray_index(self.width as int, self.height as int, x as int, y as int);
        }
        self.data[(y as usize) * (self.width as usize) + (x as usize)]
    }
}

proof fn lemma_gray_index(w: int, h: int, x: int, y: int)
    requires
        0 <= x < w,
        0 <= y < h,
        w < PX_BOUND,
        h < PX_BOUND,
    ensures
        0 <= y * w + x < w * h,
        y * w + x < 0x1000_0000,
{
    assert(0 <= y * w + x < w * h && w * h < 0x1000_0000) by (nonlinear_arith)
        requires
            0 <= x < w < PX_BOUND,
            0 <= y < h < PX_BOUND,
    ;
}

/// The fixed-point luminance of a color, from the weights
/// (0.2989, 0.5870, 0.1140) scaled by `SCALE` and the byte range 255.
pub open spec fn spec_luma(c: Rgb8) -> int {
    (2989 * c.r + 5870 * c.g + 1140 * c.b) / 255
}

/// Convert a color capture to fixed-point grayscale by luminance weights.
pub fn to_gray(raw: &RgbBitmap) -> (r: GrayBitmap)
    requires
        raw.wf(),
    ensures
        r.wf(),
        r.width == raw.width,
        r.height == raw.height,
        forall|x: int, y: int|
            0 <= x < raw.width && 0 <= y < raw.height ==> r@.at(x, y) == spec_luma(
                raw.spec_pixel(x, y),
            ),
{
    let mut data: Vec<u32> = Vec::new();
    let mut y: u32 = 0;
    while y < raw.height
        invariant
            raw.wf(),
            y <= raw.height,
            data@.len() == y * raw.width,
            forall|k: int| 0 <= k < data@.len() ==> data@[k] <= SCALE,
            forall|x2: int, y2: int|
                0 <= x2 < raw.width && 0 <= y2 < y ==> data@[y2 * raw.width + x2] == spec_luma(
                    raw.spec_pixel(x2, y2),
                ),
        decreases raw.height - y,
    {
        let mut x: u32 = 0;
        while x < raw.width
            invariant
                raw.wf(),
                y < raw.height,
                x <= raw.width,
                data@.len() == y * raw.width + x,
                forall|k: int| 0 <= k < data@.len() ==> data@[k] <= SCALE,
                forall|x2: int, y2: int|
                    0 <= x2 < raw.width && 0 <= y2 < y ==> data@[y2 * raw.width + x2]
                        == spec_luma(raw.spec_pixel(x2, y2)),
                forall|x2: int|
                    0 <= x2 < x ==> data@[y * raw.width + x2] == spec_luma(
                        raw.spec_pixel(x2, y as int),
                    ),
            decreases raw.width - x,
        {
            let ghost data0 = data@;
            let c = raw.get_pixel(x, y);
            let luma: u32 = (2989 * (c.r as u32) + 5870 * (c.g as u32) + 1140 * (c.b as u32))
                / 255;
            assert(luma <= SCALE) by {
                assert((2989 * c.r + 5870 * c.g + 1140 * c.b) / 255 <= 9999) by (nonlinear_arith)
                    requires
                        c.r <= 255,
                        c.g <= 255,
                        c.b <= 255,
                ;
            }
            data.push(luma);
            proof {
                assert forall|x2: int, y2: int|
                    0 <= x2 < raw.width && 0 <= y2 < y implies data@[y2 * raw.width + x2]
                    == spec_luma(raw.spec_pixel(x2, y2)) by {
                    assert(0 <= y2 * raw.width + x2 < y * raw.width) by (nonlinear_arith)
                        requires
                            0 <= x2 < raw.width,
                            0 <= y2 < y,
                    ;
                    assert(data@[y2 * raw.width + x2] == data0[y2 * raw.width + x2]);
                }
            }
            x = x + 1;
        }
        proof {
            assert(y * raw.width + raw.width == (y + 1) * raw.width) by (nonlinear_arith);
        }
        y = y + 1;
    }
    let r = GrayBitmap { width: raw.width, height: raw.height, data };
    proof {
        assert(r.width * r.height == r.height * r.width) by (nonlinear_arith);
        assert forall|x: int, y: int| 0 <= x < raw.width && 0 <= y < raw.height implies r@.at(
            x,
            y,
        ) == spec_luma(raw.spec_pixel(x, y)) by {
            assert(r@.at(x, y) == r.data@[y * raw.width + x]);
        }
    }
    r
}

/// The least value in a sequence of intensities (`SCALE + 1` when empty).
pub open spec fn seq_min(s: Seq<u32>) -> int
    decreases s.len(),
{
    if s.len() == 0 {
        SCALE + 1
    } else {
        let m = seq_min(s.drop_last());
        if s.last() < m {
            s.last() as int
        } else {
            m
        }
    }
}

/// The greatest value in a sequence of intensities (-1 when empty).
pub open spec fn seq_max(s: Seq<u32>) -> int
    decreases s.len(),
{
    if s.len() == 0 {
        -1
    } else {
        let m = seq_max(s.drop_last());
        if s.last() > m {
            s.last() as int
        } else {
            m
        }
    }
}

/// Min and max bound every element, and are elements themselves when the
/// sequence is not empty.
pub proof fn lemma_seq_min_max(s: Seq<u32>)
    requires
        forall|k: int| 0 <= k < s.len() ==> s[k] <= SCALE,
    ensures
        forall|k: int| 0 <= k < s.len() ==> seq_min(s) <= #[trigger] s[k] <= seq_max(s),
        s.len() > 0 ==> exists|k: int| 0 <= k < s.len() && s[k] == seq_min(s),
        s.len() > 0 ==> exists|k: int| 0 <= k < s.len() && s[k] == seq_max(s),
    decreases s.len(),
{
    if s.len() > 0 {
        assert(forall|k: int| 0 <= k < s.drop_last().len() ==> s.drop_last()[k] == s[k]);
        lemma_seq_min_max(s.drop_last());
        assert(s[s.len() - 1] == s.last() <= SCALE);
        if s.len() == 1 {
            assert(s.drop_last() =~= Seq::<u32>::empty());
            assert(seq_min(Seq::<u32>::empty()) == SCALE + 1);
            assert(seq_max(Seq::<u32>::empty()) == -1);
        }
        assert forall|k: int| 0 <= k < s.len() implies seq_min(s) <= #[trigger] s[k] <= seq_max(
            s,
        ) by {
            if k < s.len() - 1 {
                assert(s.drop_last()[k] == s[k]);
            }
        }
        if seq_min(s) == s.last() {
            assert(s[s.len() - 1] == seq_min(s));
        } else {
            assert(s.len() > 1);
            let k = choose|k: int|
                0 <= k < s.drop_last().len() && s.drop_last()[k] == seq_min(s.drop_last());
            assert(s[k] == s.drop_last()[k]);
            assert(s[k] == seq_min(s));
        }
        if seq_max(s) == s.last() {
            assert(s[s.len() - 1] == seq_max(s));
        } else {
            assert(s.len() > 1);
            let k = choose|k: int|
                0 <= k < s.drop_last().len() && s.drop_last()[k] == seq_max(s.drop_last());
            assert(s[k] == s.drop_last()[k]);
            assert(s[k] == seq_max(s));
        }
    }
}

/// Whether contrast normalization succeeds: a non-empty image whose
/// intensities are not all equal.
pub open spec fn norm_ok(v: GrayView) -> bool {
    v.width > 0 && v.height > 0 && seq_min(v.data) != seq_max(v.data)
}

/// The reference pixel sampled for polarity: second-from-right column of
/// the bottom row (rightmost column when the image is a single column).
pub open spec fn flag_value(v: GrayView) -> u32 {
    if v.width >= 2 {
        v.at(v.width - 2, v.height - 1)
    } else {
        v.at(v.width - 1, v.height - 1)
    }
}

/// Linear rescale of one intensity to the full range.
pub open spec fn norm_px(p: int, mn: int, mx: int) -> int
    recommends
        mn <= p <= mx,
        mn < mx,
{
    (p - mn) * SCALE / (mx - mn)
}

/// The normalized image: every intensity rescaled to the full range, and
/// inverted when the auto-inverse flag pixel lands in the bright half.
pub open spec fn spec_normalize(v: GrayView, auto_inverse: bool) -> GrayView
    recommends
        norm_ok(v),
{
    let mn = seq_min(v.data);
    let mx = seq_max(v.data);
    let inv = auto_inverse && norm_px(flag_value(v) as int, mn, mx) >= HALF_SCALE;
    GrayView {
        width: v.width,
        height: v.height,
        data: Seq::new(
            v.data.len(),
            |k: int|
                if inv {
                    (SCALE - norm_px(v.data[k] as int, mn, mx)) as u32
                } else {
                    norm_px(v.data[k] as int, mn, mx) as u32
                },
        ),
    }
}

/// Rescaling stays within the range and is exact at the extremes.
pub proof fn lemma_norm_px_range(p: int, mn: int, mx: int)
    requires
        mn <= p <= mx,
        mn < mx,
        0 <= mn,
        mx <= SCALE,
    ensures
        0 <= norm_px(p, mn, mx) <= SCALE,
        p == mn ==> norm_px(p, mn, mx) == 0,
        p == mx ==> norm_px(p, mn, mx) == SCALE,
{
    assert(0 <= (p - mn) * SCALE / (mx - mn) <= SCALE && ((p == mn) ==> (p - mn) * SCALE / (mx
        - mn) == 0) && ((p == mx) ==> (p - mn) * SCALE / (mx - mn) == SCALE))
        by (nonlinear_arith)
        requires
            mn <= p <= mx,
            mn < mx,
    ;
}

/// Contrast-normalize in place.  Returns false — leaving the image
/// unchanged — exactly when the image is empty or has no contrast
/// (all intensities equal), the "no usable text" signal.
pub fn normalize(im: &mut GrayBitmap, auto_inverse: bool) -> (ok: bool)
    requires
        old(im).wf(),
    ensures
        final(im).wf(),
        ok == norm_ok(old(im)@),
        !ok ==> final(im)@ == old(im)@,
        ok ==> final(im)@ == spec_normalize(old(im)@, auto_inverse),
{
    let width = im.width;
    let height = im.height;
    if width == 0 || height == 0 {
        return false;
    }
    let n = im.data.len();
    let mut mn: u32 = SCALE + 1;
    let mut mx: u32 = 0;
    let mut k: usize = 0;
    proof {
        assert(im.data@.take(0) =~= Seq::<u32>::empty());
        assert(im.data@.len() > 0) by {
            assert(im@.width * im@.height > 0) by (nonlinear_arith)
                requires
                    im@.width > 0,
                    im@.height > 0,
            ;
        }
    }
    while k < n
        invariant
            im.wf(),
            n == im.data@.len(),
            k <= n,
            mn as int == seq_min(im.data@.take(k as int)),
            k > 0 ==> mx as int == seq_max(im.data@.take(k as int)),
            k == 0 ==> mx == 0,
        decreases n - k,
    {
        let ghost pre = im.data@.take(k as int);
        let p = im.data[k];
        proof {
            let s1 = im.data@.take(k as int + 1);
            assert(s1.drop_last() =~= pre);
            assert(s1.last() == im.data@[k as int]);
            assert(seq_min(s1) == if s1.last() < seq_min(s1.drop_last()) {
                s1.last() as int
            } else {
                seq_min(s1.drop_last())
            });
            assert(seq_max(s1) == if s1.last() > seq_max(s1.drop_last()) {
                s1.last() as int
            } else {
                seq_max(s1.drop_last())
            });
        }
        if p < mn {
            mn = p;
        }
        if p > mx {
            mx = p;
        }
        k = k + 1;
    }
    proof {
        assert(im.data@.take(n as int) =~= im.data@);
        lemma_seq_min_max(im.data@);
    }
    if mx == mn {
        return false;
    }
    // Sample the polarity reference pixel after rescale.
    let fx: u32 = if width >= 2 {
        width - 2
    } else {
        width - 1
    };
    let flag_raw: u32 = im.get(fx, height - 1);
    proof {
        lemma_gray_index(width as int, height as int, fx as int, height - 1);
        assert(flag_raw == im.data@[(height - 1) * width + fx]);
        assert(mn <= flag_raw <= mx);
        assert(flag_raw == flag_value(im@));
        lemma_norm_px_range(flag_raw as int, mn as int, mx as int);
    }
    let flag_norm: u32 = (flag_raw - mn) * SCALE / (mx - mn);
    let inverse = auto_inverse && flag_norm >= HALF_SCALE;
    let mut out: Vec<u32> = Vec::new();
    let mut k: usize = 0;
    let ghost target = spec_normalize(im@, auto_inverse);
    while k < n
        invariant
            im.wf(),
            norm_ok(im@),
            n == im.data@.len(),
            k <= n,
            mn as int == seq_min(im.data@),
            mx as int == seq_max(im.data@),
            mn < mx <= SCALE,
            inverse == (auto_inverse && norm_px(flag_value(im@) as int, mn as int, mx as int)
                >= HALF_SCALE),
            target == spec_normalize(im@, auto_inverse),
            out@.len() == k,
            forall|k2: int| 0 <= k2 < k ==> out@[k2] == target.data[k2],
            forall|k2: int| 0 <= k2 < k ==> out@[k2] <= SCALE,
        decreases n - k,
    {
        let p = im.data[k];
        proof {
            lemma_seq_min_max(im.data@);
            lemma_norm_px_range(p as int, mn as int, mx as int);
        }
        let v = (p - mn) * SCALE / (mx - mn);
        let v = if inverse {
            SCALE - v
        } else {
            v
        };
        out.push(v);
        k = k + 1;
    }
    im.data = out;
    proof {
        assert(im@.data =~= target.data);
        assert(im@ =~= target);
    }
    true
}

/// The binarized image: full intensity at or above the cutoff, zero below.
pub open spec fn spec_binarize(v: GrayView, threshold: u32) -> GrayView {
    GrayView {
        width: v.width,
        height: v.height,
        data: Seq::new(
            v.data.len(),
            |k: int|
                if v.data[k] >= threshold {
                    SCALE
                } else {
                    0u32
                },
        ),
    }
}

/// Threshold every intensity in place.
pub fn binarize(im: &mut GrayBitmap, threshold: u32)
    requires
        old(im).wf(),
    ensures
        final(im).wf(),
        final(im)@ == spec_binarize(old(im)@, threshold),
{
    let n = im.data.len();
    let mut out: Vec<u32> = Vec::new();
    let mut k: usize = 0;
    while k < n
        invariant
            im.wf(),
            n == im.data@.len(),
            k <= n,
            out@.len() == k,
            forall|k2: int|
                0 <= k2 < k ==> out@[k2] == (if im.data@[k2] >= threshold {
                    SCALE
                } else {
                    0u32
                }),
        decreases n - k,
    {
        let p = im.data[k];
        out.push(
            if p >= threshold {
                SCALE
            } else {
                0
            },
        );
        k = k + 1;
    }
    im.data = out;
    proof {
        assert(im@.data =~= spec_binarize(old(im)@, threshold).data);
        assert(im@ =~= spec_binarize(old(im)@, threshold));
    }
}

} // verus!

verus! {

/// Column `x` holds at least one pixel above the content threshold.
pub open spec fn col_has_content(v: GrayView, x: int) -> bool {
    exists|y: int| 0 <= y < v.height && v.at(x, y) > CROP_CONTENT_THRESHOLD
}

/// Row `y` holds at least one pixel above the content threshold.
pub open spec fn row_has_content(v: GrayView, y: int) -> bool {
    exists|x: int| 0 <= x < v.width && v.at(x, y) > CROP_CONTENT_THRESHOLD
}

/// The first content column at or after `i` (`v.width` when none).
pub open spec fn first_content_col_from(v: GrayView, i: int) -> int
    decreases v.width - i,
{
    if i < 0 || i >= v.width {
        v.width
    } else if col_has_content(v, i) {
        i
    } else {
        first_content_col_from(v, i + 1)
    }
}

/// The last content column at or before `i` (-1 when none).
pub open spec fn last_content_col_down(v: GrayView, i: int) -> int
    decreases i + 1,
{
    if i < 0 {
        -1
    } else if i >= v.width {
        -1
    } else if col_has_content(v, i) {
        i
    } else {
        last_content_col_down(v, i - 1)
    }
}

/// The first content row at or after `j` (`v.height` when none).
pub open spec fn first_content_row_from(v: GrayView, j: int) -> int
    decreases v.height - j,
{
    if j < 0 || j >= v.height {
        v.height
    } else if row_has_content(v, j) {
        j
    } else {
        first_content_row_from(v, j + 1)
    }
}

/// The last content row at or before `j` (-1 when none).
pub open spec fn last_content_row_down(v: GrayView, j: int) -> int
    decreases j + 1,
{
    if j < 0 {
        -1
    } else if j >= v.height {
        -1
    } else if row_has_content(v, j) {
        j
    } else {
        last_content_row_down(v, j - 1)
    }
}

/// The content bounding box of an image, or the image itself when no pixel
/// exceeds the content threshold in the column scan or the row scan.
pub open spec fn spec_crop(v: GrayView) -> GrayView {
    let c0 = first_content_col_from(v, 0);
    let c1 = last_content_col_down(v, v.width - 1);
    let r0 = first_content_row_from(v, 0);
    let r1 = last_content_row_down(v, v.height - 1);
    if c0 > c1 || r0 > r1 {
        v
    } else {
        let nw = c1 - c0 + 1;
        let nh = r1 - r0 + 1;
        GrayView {
            width: nw,
            height: nh,
            data: Seq::new((nw * nh) as nat, |k: int| v.at(c0 + k % nw, r0 + k / nw)),
        }
    }
}

proof fn lemma_first_col_prefix(v: GrayView, i: int)
    requires
        0 <= i <= v.width,
        forall|k: int| 0 <= k < i ==> !col_has_content(v, k),
    ensures
        first_content_col_from(v, 0) == first_content_col_from(v, i),
    decreases i,
{
    if i > 0 {
        lemma_first_col_prefix(v, i - 1);
    }
}

proof fn lemma_last_col_suffix(v: GrayView, i: int, j: int)
    requires
        -1 <= j <= i < v.width,
        forall|k: int| j < k <= i ==> !col_has_content(v, k),
    ensures
        last_content_col_down(v, i) == last_content_col_down(v, j),
    decreases i - j,
{
    if i > j {
        lemma_last_col_suffix(v, i - 1, j);
    }
}

proof fn lemma_first_row_prefix(v: GrayView, j: int)
    requires
        0 <= j <= v.height,
        forall|k: int| 0 <= k < j ==> !row_has_content(v, k),
    ensures
        first_content_row_from(v, 0) == first_content_row_from(v, j),
    decreases j,
{
    if j > 0 {
        lemma_first_row_prefix(v, j - 1);
    }
}

proof fn lemma_last_row_suffix(v: GrayView, i: int, j: int)
    requires
        -1 <= j <= i < v.height,
        forall|k: int| j < k <= i ==> !row_has_content(v, k),
    ensures
        last_content_row_down(v, i) == last_content_row_down(v, j),
    decreases i - j,
{
    if i > j {
        lemma_last_row_suffix(v, i - 1, j);
    }
}

/// Whether column `x` holds a content pixel.
fn col_has(im: &GrayBitmap, x: u32) -> (b: bool)
    requires
        im.wf(),
        x < im.width,
    ensures
        b == col_has_content(im@, x as int),
{
    let mut y: u32 = 0;
    while y < im.height
        invariant
            im.wf(),
            x < im.width,
            y <= im.height,
            forall|y2: int| 0 <= y2 < y ==> !(im@.at(x as int, y2) > CROP_CONTENT_THRESHOLD),
        decreases im.height - y,
    {
        if im.get(x, y) > CROP_CONTENT_THRESHOLD {
            assert(col_has_content(im@, x as int)) by {
                assert(im@.at(x as int, y as int) > CROP_CONTENT_THRESHOLD);
            }
            return true;
        }
        y = y + 1;
    }
    false
}

/// Whether row `y` holds a content pixel.
fn row_has(im: &GrayBitmap, y: u32) -> (b: bool)
    requires
        im.wf(),
        y < im.height,
    ensures
        b == row_has_content(im@, y as int),
{
    let mut x: u32 = 0;
    while x < im.width
        invariant
            im.wf(),
            y < im.height,
            x <= im.width,
            forall|x2: int| 0 <= x2 < x ==> !(im@.at(x2, y as int) > CROP_CONTENT_THRESHOLD),
        decreases im.width - x,
    {
        if im.get(x, y) > CROP_CONTENT_THRESHOLD {
            assert(row_has_content(im@, y as int)) by {
                assert(im@.at(x as int, y as int) > CROP_CONTENT_THRESHOLD);
            }
            return true;
        }
        x = x + 1;
    }
    false
}

/// Crop to the bounding box of pixels above the content threshold; the
/// image itself when nothing exceeds it.
pub fn crop(im: &GrayBitmap) -> (r: GrayBitmap)
    requires
        im.wf(),
        im.width >= 1,
        im.height >= 1,
    ensures
        r.wf(),
        r@ == spec_crop(im@),
        r.width >= 1,
        r.height >= 1,
{
    // One pass over the columns: the first and last that hold content.
    let mut c0: u32 = 0;
    let mut c1: u32 = 0;
    let mut any_col = false;
    let mut i: u32 = 0;
    while i < im.width
        invariant
            im.wf(),
            i <= im.width,
            !any_col ==> forall|k: int| 0 <= k < i ==> !col_has_content(im@, k),
            any_col ==> c0 <= c1 < i && col_has_content(im@, c0 as int) && col_has_content(
                im@,
                c1 as int,
            ),
            any_col ==> forall|k: int| 0 <= k < c0 ==> !col_has_content(im@, k),
            any_col ==> forall|k: int| c1 < k < i ==> !col_has_content(im@, k),
        decreases im.width - i,
    {
        if col_has(im, i) {
            if !any_col {
                c0 = i;
            }
            c1 = i;
            any_col = true;
        }
        i = i + 1;
    }
    // Same pass over the rows.
    let mut r0: u32 = 0;
    let mut r1: u32 = 0;
    let mut any_row = false;
    let mut j: u32 = 0;
    while j < im.height
        invariant
            im.wf(),
            j <= im.height,
            !any_row ==> forall|k: int| 0 <= k < j ==> !row_has_content(im@, k),
            any_row ==> r0 <= r1 < j && row_has_content(im@, r0 as int) && row_has_content(
                im@,
                r1 as int,
            ),
            any_row ==> forall|k: int| 0 <= k < r0 ==> !row_has_content(im@, k),
            any_row ==> forall|k: int| r1 < k < j ==> !row_has_content(im@, k),
        decreases im.height - j,
    {
        if row_has(im, j) {
            if !any_row {
                r0 = j;
            }
            r1 = j;
            any_row = true;
        }
        j = j + 1;
    }
    proof {
        if any_col {
            lemma_first_col_prefix(im@, c0 as int);
            lemma_last_col_suffix(im@, im@.width - 1, c1 as int);
        } else {
            lemma_first_col_prefix(im@, im@.width);
            lemma_last_col_suffix(im@, im@.width - 1, -1);
        }
        if any_row {
            lemma_first_row_prefix(im@, r0 as int);
            lemma_last_row_suffix(im@, im@.height - 1, r1 as int);
        } else {
            lemma_first_row_prefix(im@, im@.height);
            lemma_last_row_suffix(im@, im@.height - 1, -1);
        }
    }
    if !any_col || !any_row {
        let r = GrayBitmap { width: im.width, height: im.height, data: im.data.clone() };
        proof {
            assert(r@ =~= im@);
        }
        return r;
    }
    let nw: u32 = c1 - c0 + 1;
    let nh: u32 = r1 - r0 + 1;
    let mut data: Vec<u32> = Vec::new();
    let mut jj: u32 = 0;
    while jj < nh
        invariant
            im.wf(),
            c0 <= c1 < im.width,
            r0 <= r1 < im.height,
            nw == c1 - c0 + 1,
            nh == r1 - r0 + 1,
            jj <= nh,
            data@.len() == jj * nw,
            forall|k: int| 0 <= k < data@.len() ==> data@[k] <= SCALE,
            forall|x2: int, y2: int|
                #![trigger im@.at(c0 + x2, r0 + y2)]
                0 <= x2 < nw && 0 <= y2 < jj ==> data@[y2 * nw + x2] == im@.at(
                    c0 + x2,
                    r0 + y2,
                ),
        decreases nh - jj,
    {
        let mut ii: u32 = 0;
        while ii < nw
            invariant
                im.wf(),
                c0 <= c1 < im.width,
                r0 <= r1 < im.height,
                nw == c1 - c0 + 1,
                nh == r1 - r0 + 1,
                jj < nh,
                ii <= nw,
                data@.len() == jj * nw + ii,
                forall|k: int| 0 <= k < data@.len() ==> data@[k] <= SCALE,
                forall|x2: int, y2: int|
                    #![trigger im@.at(c0 + x2, r0 + y2)]
                    0 <= x2 < nw && 0 <= y2 < jj ==> data@[y2 * nw + x2] == im@.at(
                        c0 + x2,
                        r0 + y2,
                    ),
                forall|x2: int|
                    #![trigger im@.at(c0 + x2, r0 + jj)]
                    0 <= x2 < ii ==> data@[jj * nw + x2] == im@.at(c0 + x2, r0 + jj),
            decreases nw - ii,
        {
            let ghost data0 = data@;
            let p = im.get(c0 + ii, r0 + jj);
            data.push(p);
            proof {
                assert forall|x2: int, y2: int|
                    #![trigger im@.at(c0 + x2, r0 + y2)]
                    0 <= x2 < nw && 0 <= y2 < jj implies data@[y2 * nw + x2] == im@.at(
                    c0 + x2,
                    r0 + y2,
                ) by {
                    assert(0 <= y2 * nw + x2 < jj * nw) by (nonlinear_arith)
                        requires
                            0 <= x2 < nw,
                            0 <= y2 < jj,
                    ;
                    assert(data@[y2 * nw + x2] == data0[y2 * nw + x2]);
                }
            }
            ii = ii + 1;
        }
        proof {
            assert(jj * nw + nw == (jj + 1) * nw) by (nonlinear_arith);
        }
        jj = jj + 1;
    }
    let r = GrayBitmap { width: nw, height: nh, data };
    proof {
        let target = spec_crop(im@);
        assert(nh * nw == nw * nh) by (nonlinear_arith);
        assert forall|k: int| 0 <= k < nw * nh implies r.data@[k] == target.data[k] by {
            lemma_fundamental_div_mod(k, nw as int);
            lemma_mod_division_less_than_divisor(k, nw as int);
            lemma_div_pos_is_pos(k, nw as int);
            lemma_multiply_divide_lt(k, nw as int, nh as int);
            let x2 = k % (nw as int);
            let y2 = k / (nw as int);
            assert(k == y2 * nw + x2) by (nonlinear_arith)
                requires
                    k == (nw as int) * y2 + x2,
            ;
            assert(r.data@[y2 * nw + x2] == im@.at(c0 + x2, r0 + y2));
        }
        assert(r@.data =~= target.data);
        assert(r@ =~= target);
        assert(r.wf()) by {
            assert(r@.data.len() == nw * nh == r@.width * r@.height);
        }
    }
    r
}

} // verus!

verus! {

/// Width of the aspect-preserving resize to height `OUT_HEIGHT`.
pub open spec fn resized_width(v: GrayView) -> int
    recommends
        v.height >= 1,
{
    v.width * 32 / v.height
}

/// Sum of intensities over one row segment `[x0, x1)` of row `y`.
pub open spec fn row_seg_sum(v: GrayView, y: int, x0: int, x1: int) -> int
    decreases x1 - x0,
{
    if x1 <= x0 {
        0
    } else {
        row_seg_sum(v, y, x0, x1 - 1) + v.at(x1 - 1, y)
    }
}

/// Sum of intensities over the box `[x0, x1) x [y0, y1)`.
pub open spec fn box_sum(v: GrayView, x0: int, x1: int, y0: int, y1: int) -> int
    decreases y1 - y0,
{
    if y1 <= y0 {
        0
    } else {
        box_sum(v, x0, x1, y0, y1 - 1) + row_seg_sum(v, y1 - 1, x0, x1)
    }
}

/// First source column of the box that output column `ox` averages.
pub open spec fn box_x_lo(v: GrayView, nw: int, ox: int) -> int {
    ox * v.width / nw
}

/// One-past-last source column of that box (never empty).
pub open spec fn box_x_hi(v: GrayView, nw: int, ox: int) -> int {
    let hi = (ox + 1) * v.width / nw;
    if hi <= box_x_lo(v, nw, ox) {
        box_x_lo(v, nw, ox) + 1
    } else {
        hi
    }
}

/// First source row of the box that output row `oy` averages.
pub open spec fn box_y_lo(v: GrayView, oy: int) -> int {
    oy * v.height / 32
}

/// One-past-last source row of that box (never empty).
pub open spec fn box_y_hi(v: GrayView, oy: int) -> int {
    let hi = (oy + 1) * v.height / 32;
    if hi <= box_y_lo(v, oy) {
        box_y_lo(v, oy) + 1
    } else {
        hi
    }
}

/// The intensity of output pixel (ox, oy): the rounded-down average of its
/// source box.
pub open spec fn spec_resize_px(v: GrayView, nw: int, ox: int, oy: int) -> int {
    let x0 = box_x_lo(v, nw, ox);
    let x1 = box_x_hi(v, nw, ox);
    let y0 = box_y_lo(v, oy);
    let y1 = box_y_hi(v, oy);
    box_sum(v, x0, x1, y0, y1) / ((x1 - x0) * (y1 - y0))
}

/// The fixed canvas: the image scaled to height `OUT_HEIGHT` by box
/// averaging, anchored at the origin, zero-padded (or truncated) to width
/// `OUT_WIDTH`.
pub open spec fn spec_resize_pad(v: GrayView) -> GrayView
    recommends
        v.height >= 1,
{
    let nw = resized_width(v);
    GrayView {
        width: OUT_WIDTH as int,
        height: OUT_HEIGHT as int,
        data: Seq::new(
            (OUT_WIDTH * OUT_HEIGHT) as nat,
            |k: int|
                {
                    let ox = k % (OUT_WIDTH as int);
                    let oy = k / (OUT_WIDTH as int);
                    if ox < nw {
                        spec_resize_px(v, nw, ox, oy) as u32
                    } else {
                        0u32
                    }
                },
        ),
    }
}

/// A row-segment sum of bounded intensities is bounded by the segment
/// length times the bound.
proof fn lemma_row_seg_sum_bound(v: GrayView, y: int, x0: int, x1: int)
    requires
        v.wf(),
        0 <= y < v.height,
        0 <= x0,
        x1 <= v.width,
    ensures
        0 <= row_seg_sum(v, y, x0, x1),
        x0 <= x1 ==> row_seg_sum(v, y, x0, x1) <= (x1 - x0) * SCALE,
    decreases x1 - x0,
{
    if x1 > x0 {
        lemma_row_seg_sum_bound(v, y, x0, x1 - 1);
        lemma_gray_index(v.width, v.height, x1 - 1, y);
        assert(v.at(x1 - 1, y) <= SCALE);
        assert((x1 - 1 - x0) * SCALE + SCALE == (x1 - x0) * SCALE) by (nonlinear_arith);
    }
}

/// A box sum of bounded intensities is bounded by the box area times the
/// bound.
proof fn lemma_box_sum_bound(v: GrayView, x0: int, x1: int, y0: int, y1: int)
    requires
        v.wf(),
        0 <= x0 <= x1 <= v.width,
        0 <= y0,
        y1 <= v.height,
    ensures
        0 <= box_sum(v, x0, x1, y0, y1),
        y0 <= y1 ==> box_sum(v, x0, x1, y0, y1) <= (x1 - x0) * (y1 - y0) * SCALE,
    decreases y1 - y0,
{
    if y1 > y0 {
        lemma_box_sum_bound(v, x0, x1, y0, y1 - 1);
        lemma_row_seg_sum_bound(v, y1 - 1, x0, x1);
        assert((x1 - x0) * (y1 - 1 - y0) * SCALE + (x1 - x0) * SCALE == (x1 - x0) * (y1 - y0)
            * SCALE) by (nonlinear_arith);
    }
}

/// The source box of an output pixel lies inside the image and is not
/// empty.
proof fn lemma_box_in_range(v: GrayView, nw: int, ox: int, oy: int)
    requires
        v.wf(),
        v.width >= 1,
        v.height >= 1,
        nw == resized_width(v),
        0 <= ox < nw,
        0 <= oy < 32,
    ensures
        0 <= box_x_lo(v, nw, ox) < box_x_hi(v, nw, ox) <= v.width,
        0 <= box_y_lo(v, oy) < box_y_hi(v, oy) <= v.height,
{
    lemma_div_pos_is_pos(ox * v.width, nw);
    lemma_div_pos_is_pos(oy * v.height, 32);
    assert(ox * v.width < nw * v.width) by (nonlinear_arith)
        requires
            0 <= ox < nw,
            v.width >= 1,
    ;
    lemma_multiply_divide_lt(ox * v.width, nw, v.width);
    assert((ox + 1) * v.width <= nw * v.width) by (nonlinear_arith)
        requires
            ox < nw,
            v.width >= 0,
    ;
    lemma_multiply_divide_le((ox + 1) * v.width, nw, v.width);
    assert(oy * v.height < 32 * v.height) by (nonlinear_arith)
        requires
            0 <= oy < 32,
            v.height >= 1,
    ;
    lemma_multiply_divide_lt(oy * v.height, 32, v.height);
    assert((oy + 1) * v.height <= 32 * v.height) by (nonlinear_arith)
        requires
            oy < 32,
            v.height >= 0,
    ;
    lemma_multiply_divide_le((oy + 1) * v.height, 32, v.height);
}

/// The average over a source box stays within the intensity range.
proof fn lemma_resize_px_range(v: GrayView, nw: int, ox: int, oy: int)
    requires
        v.wf(),
        v.width >= 1,
        v.height >= 1,
        nw == resized_width(v),
        0 <= ox < nw,
        0 <= oy < 32,
    ensures
        0 <= spec_resize_px(v, nw, ox, oy) <= SCALE,
{
    let x0 = box_x_lo(v, nw, ox);
    let x1 = box_x_hi(v, nw, ox);
    let y0 = box_y_lo(v, oy);
    let y1 = box_y_hi(v, oy);
    lemma_box_in_range(v, nw, ox, oy);
    lemma_box_sum_bound(v, x0, x1, y0, y1);
    let area = (x1 - x0) * (y1 - y0);
    assert(area >= 1) by (nonlinear_arith)
        requires
            area == (x1 - x0) * (y1 - y0),
            x1 - x0 >= 1,
            y1 - y0 >= 1,
    ;
    lemma_div_pos_is_pos(box_sum(v, x0, x1, y0, y1), area);
    assert(box_sum(v, x0, x1, y0, y1) <= area * SCALE) by (nonlinear_arith)
        requires
            box_sum(v, x0, x1, y0, y1) <= (x1 - x0) * (y1 - y0) * SCALE,
            area == (x1 - x0) * (y1 - y0),
    ;
    lemma_multiply_divide_le(box_sum(v, x0, x1, y0, y1), area, SCALE as int);
}

/// Scale to height `OUT_HEIGHT` preserving aspect ratio, then pad (or
/// truncate) onto the zero canvas of width `OUT_WIDTH`.  The smoothing is
/// exact integer box averaging: every output pixel is the rounded-down
/// mean of its source box, a precise area filter.
pub fn resize_and_pad(im: &GrayBitmap) -> (r: GrayBitmap)
    requires
        im.wf(),
        im.width >= 1,
        im.height >= 1,
    ensures
        r.wf(),
        r@ == spec_resize_pad(im@),
        r.width == OUT_WIDTH,
        r.height == OUT_HEIGHT,
{
    let w = im.width;
    let h = im.height;
    let nw: u32 = w * 32 / h;
    let mut data: Vec<u32> = Vec::new();
    let ghost target = spec_resize_pad(im@);
    proof {
        assert(nw == resized_width(im@));
        assert(target.data.len() == OUT_WIDTH * OUT_HEIGHT);
    }
    let mut oy: u32 = 0;
    while oy < OUT_HEIGHT
        invariant
            im.wf(),
            im.width >= 1,
            im.height >= 1,
            w == im.width,
            h == im.height,
            nw == resized_width(im@),
            target == spec_resize_pad(im@),
            oy <= OUT_HEIGHT,
            data@.len() == oy * OUT_WIDTH,
            forall|k: int| 0 <= k < data@.len() ==> data@[k] == target.data[k],
            forall|k: int| 0 <= k < data@.len() ==> data@[k] <= SCALE,
        decreases OUT_HEIGHT - oy,
    {
        let mut ox: u32 = 0;
        while ox < OUT_WIDTH
            invariant
                im.wf(),
                im.width >= 1,
                im.height >= 1,
                w == im.width,
                h == im.height,
                nw == resized_width(im@),
                target == spec_resize_pad(im@),
                oy < OUT_HEIGHT,
                ox <= OUT_WIDTH,
                data@.len() == oy * OUT_WIDTH + ox,
                forall|k: int| 0 <= k < data@.len() ==> data@[k] == target.data[k],
                forall|k: int| 0 <= k < data@.len() ==> data@[k] <= SCALE,
            decreases OUT_WIDTH - ox,
        {
            let val: u32 = if ox < nw {
                proof {
                    lemma_box_in_range(im@, nw as int, ox as int, oy as int);
                    lemma_resize_px_range(im@, nw as int, ox as int, oy as int);
                    assert((ox + 1) * w < 0x1000_0000) by (nonlinear_arith)
                        requires
                            ox < OUT_WIDTH,
                            w < PX_BOUND,
                    ;
                    assert(ox * w <= (ox + 1) * w) by (nonlinear_arith)
                        requires
                            w >= 0,
                    ;
                }
                let x0: u32 = ox * w / nw;
                let x1: u32 = {
                    let hi = (ox + 1) * w / nw;
                    if hi <= x0 {
                        x0 + 1
                    } else {
                        hi
                    }
                };
                let y0: u32 = oy * h / 32;
                let y1: u32 = {
                    let hi = (oy + 1) * h / 32;
                    if hi <= y0 {
                        y0 + 1
                    } else {
                        hi
                    }
                };
                proof {
                    assert(x0 == box_x_lo(im@, nw as int, ox as int));
                    assert(x1 == box_x_hi(im@, nw as int, ox as int));
                    assert(y0 == box_y_lo(im@, oy as int));
                    assert(y1 == box_y_hi(im@, oy as int));
                    lemma_box_sum_bound(im@, x0 as int, x1 as int, y0 as int, y1 as int);
                }
                let mut acc: u64 = 0;
                let mut sy: u32 = y0;
                while sy < y1
                    invariant
                        im.wf(),
                        0 <= x0 < x1 <= im.width,
                        0 <= y0 <= sy <= y1 <= im.height,
                        acc == box_sum(im@, x0 as int, x1 as int, y0 as int, sy as int),
                        acc <= 0x1_0000_0000_0000u64,
                    decreases y1 - sy,
                {
                    let mut sx: u32 = x0;
                    let ghost acc0 = acc;
                    while sx < x1
                        invariant
                            im.wf(),
                            0 <= x0 <= sx <= x1 <= im.width,
                            0 <= y0 <= sy < y1 <= im.height,
                            acc == acc0 + row_seg_sum(im@, sy as int, x0 as int, sx as int),
                            acc0 <= 0x1_0000_0000_0000u64,
                            acc0 == box_sum(im@, x0 as int, x1 as int, y0 as int, sy as int),
                            acc <= 0x2_0000_0000_0000u64,
                        decreases x1 - sx,
                    {
                        proof {
                            lemma_row_seg_sum_bound(im@, sy as int, x0 as int, sx as int);
                            assert((sx - x0) * SCALE <= PX_BOUND * SCALE) by (nonlinear_arith)
                                requires
                                    0 <= sx - x0 <= PX_BOUND,
                            ;
                        }
                        let p = im.get(sx, sy);
                        acc = acc + (p as u64);
                        sx = sx + 1;
                    }
                    proof {
                        lemma_row_seg_sum_bound(im@, sy as int, x0 as int, x1 as int);
                        lemma_box_sum_bound(
                            im@,
                            x0 as int,
                            x1 as int,
                            y0 as int,
                            sy as int + 1,
                        );
                        assert(box_sum(im@, x0 as int, x1 as int, y0 as int, sy as int + 1)
                            <= (x1 - x0) * ((sy + 1) - y0) * SCALE);
                        assert((x1 - x0) * ((sy + 1) - y0) * SCALE <= 0x1_0000_0000_0000)
                            by (nonlinear_arith)
                            requires
                                0 <= x1 - x0 <= PX_BOUND,
                                0 <= (sy + 1) - y0 <= PX_BOUND,
                        ;
                    }
                    sy = sy + 1;
                }
                proof {
                    assert(((x1 - x0) as int) * ((y1 - y0) as int) < 0x1000_0000)
                        by (nonlinear_arith)
                        requires
                            0 < x1 - x0 < PX_BOUND,
                            0 < y1 - y0 < PX_BOUND,
                    ;
                }
                let area: u64 = ((x1 - x0) as u64) * ((y1 - y0) as u64);
                proof {
                    assert(area >= 1) by (nonlinear_arith)
                        requires
                            area == (x1 - x0) * (y1 - y0),
                            x1 - x0 >= 1,
                            y1 - y0 >= 1,
                    ;
                }
                let avg: u64 = acc / area;
                proof {
                    assert(avg == spec_resize_px(im@, nw as int, ox as int, oy as int));
                    assert(avg <= SCALE);
                }
                avg as u32
            } else {
                0
            };
            data.push(val);
            proof {
                let k = oy * (OUT_WIDTH as int) + ox;
                lemma_fundamental_div_mod(k, OUT_WIDTH as int);
                assert(k == (OUT_WIDTH as int) * oy + ox) by (nonlinear_arith)
                    requires
                        k == oy * (OUT_WIDTH as int) + ox,
                ;
                assert(k % (OUT_WIDTH as int) == ox && k / (OUT_WIDTH as int) == oy) by {
                    vstd::arithmetic::div_mod::lemma_fundamental_div_mod_converse(
                        k,
                        OUT_WIDTH as int,
                        oy as int,
                        ox as int,
                    );
                }
                assert(data@[k] == target.data[k]);
            }
            ox = ox + 1;
        }
        proof {
            assert(oy * OUT_WIDTH + OUT_WIDTH == (oy + 1) * OUT_WIDTH) by (nonlinear_arith);
        }
        oy = oy + 1;
    }
    let r = GrayBitmap { width: OUT_WIDTH, height: OUT_HEIGHT, data };
    proof {
        assert(r@.data =~= target.data);
        assert(r@ =~= target);
        assert(r.wf()) by {
            assert(r@.data.len() == OUT_WIDTH * OUT_HEIGHT == r@.width * r@.height);
        }
    }
    r
}

} // verus!

verus! {

/// The whole pipeline on a gray image: normalize with auto-inverse, crop,
/// re-normalize, resize onto the canvas, binarize at `threshold`.  When the
/// first normalization fails the image is returned unchanged with `false`:
/// no usable text.
pub open spec fn spec_pre_process(v: GrayView, threshold: u32) -> (GrayView, bool) {
    if !norm_ok(v) {
        (v, false)
    } else {
        let n1 = spec_normalize(v, true);
        let c = spec_crop(n1);
        let n2 = if norm_ok(c) {
            spec_normalize(c, false)
        } else {
            c
        };
        (spec_binarize(spec_resize_pad(n2), threshold), true)
    }
}

/// Preprocess a gray image for recognition of an ordinary text line.
pub fn pre_process(im: GrayBitmap) -> (r: (GrayBitmap, bool))
    requires
        im.wf(),
    ensures
        r.0.wf(),
        (r.0@, r.1) == spec_pre_process(im@, BINARIZE_THRESHOLD),
        r.1 ==> r.0.width == OUT_WIDTH && r.0.height == OUT_HEIGHT,
{
    pre_process_with(im, BINARIZE_THRESHOLD)
}

/// Preprocess a gray image for recognition of a low-contrast pending line.
pub fn pre_process_pending_line(im: GrayBitmap) -> (r: (GrayBitmap, bool))
    requires
        im.wf(),
    ensures
        r.0.wf(),
        (r.0@, r.1) == spec_pre_process(im@, BINARIZE_THRESHOLD_PENDING),
        r.1 ==> r.0.width == OUT_WIDTH && r.0.height == OUT_HEIGHT,
{
    pre_process_with(im, BINARIZE_THRESHOLD_PENDING)
}

fn pre_process_with(im: GrayBitmap, threshold: u32) -> (r: (GrayBitmap, bool))
    requires
        im.wf(),
    ensures
        r.0.wf(),
        (r.0@, r.1) == spec_pre_process(im@, threshold),
        r.1 ==> r.0.width == OUT_WIDTH && r.0.height == OUT_HEIGHT,
{
    let mut im = im;
    let ghost v0 = im@;
    if !normalize(&mut im, true) {
        return (im, false);
    }
    let mut cropped = crop(&im);
    let renormalized = normalize(&mut cropped, false);
    proof {
        if !renormalized {
            assert(cropped@ == spec_crop(spec_normalize(v0, true)));
        }
    }
    let mut canvas = resize_and_pad(&cropped);
    binarize(&mut canvas, threshold);
    (canvas, true)
}

/// Auto-inverse polarity: on a two-tone image, normalization with the
/// auto-inverse flag yields full intensity exactly at the pixels that
/// differ from the reference (background) pixel — so an image and its
/// tone-swapped counterpart normalize to the same canvas, and text comes
/// out bright in both.
pub proof fn lemma_auto_inverse_polarity(v: GrayView, w: GrayView, a: u32, b: u32)
    requires
        v.wf(),
        w.wf(),
        v.width == w.width,
        v.height == w.height,
        v.width > 0,
        v.height > 0,
        a < b,
        b <= SCALE,
        forall|k: int| 0 <= k < v.data.len() ==> v.data[k] == a || v.data[k] == b,
        exists|k: int| 0 <= k < v.data.len() && v.data[k] == a,
        exists|k: int| 0 <= k < v.data.len() && v.data[k] == b,
        w.data.len() == v.data.len(),
        forall|k: int| 0 <= k < v.data.len() ==> w.data[k] == a + b - v.data[k],
    ensures
        norm_ok(v),
        norm_ok(w),
        spec_normalize(v, true) == spec_normalize(w, true),
        forall|k: int|
            0 <= k < v.data.len() ==> spec_normalize(v, true).data[k] == (if v.data[k]
                == flag_value(v) {
                0u32
            } else {
                SCALE
            }),
{
    let n = v.data.len() as int;
    // The minimum and maximum of a two-tone sequence are its two tones.
    assert forall|k: int| 0 <= k < n implies w.data[k] == a || w.data[k] == b by {
        assert(v.data[k] == a || v.data[k] == b);
    }
    lemma_seq_min_max(v.data);
    lemma_seq_min_max(w.data);
    let ka = choose|k: int| 0 <= k < n && v.data[k] == a;
    let kb = choose|k: int| 0 <= k < n && v.data[k] == b;
    assert(w.data[ka] == b && w.data[kb] == a);
    assert(seq_min(v.data) == a) by {
        let km = choose|k: int| 0 <= k < n && v.data[k] == seq_min(v.data);
        assert(seq_min(v.data) <= v.data[ka]);
        assert(v.data[km] == a || v.data[km] == b);
    }
    assert(seq_max(v.data) == b) by {
        let km = choose|k: int| 0 <= k < n && v.data[k] == seq_max(v.data);
        assert(seq_max(v.data) >= v.data[kb]);
        assert(v.data[km] == a || v.data[km] == b);
    }
    assert(seq_min(w.data) == a) by {
        let km = choose|k: int| 0 <= k < n && w.data[k] == seq_min(w.data);
        assert(seq_min(w.data) <= w.data[kb]);
        assert(w.data[km] == a || w.data[km] == b);
    }
    assert(seq_max(w.data) == b) by {
        let km = choose|k: int| 0 <= k < n && w.data[k] == seq_max(w.data);
        assert(seq_max(w.data) >= w.data[ka]);
        assert(w.data[km] == a || w.data[km] == b);
    }
    // Each tone normalizes to an extreme.
    lemma_norm_px_range(a as int, a as int, b as int);
    lemma_norm_px_range(b as int, a as int, b as int);
    // The flag pixels of the two images are opposite tones.
    lemma_gray_index(v.width, v.height, if v.width >= 2 { v.width - 2 } else { v.width - 1 },
        v.height - 1);
    let fv = flag_value(v);
    let fw = flag_value(w);
    assert(fv == a || fv == b);
    assert(fw == a + b - fv);
    let nv = spec_normalize(v, true);
    let nw_ = spec_normalize(w, true);
    assert forall|k: int| 0 <= k < n implies nv.data[k] == (if v.data[k] == fv {
        0u32
    } else {
        SCALE
    }) && nw_.data[k] == nv.data[k] by {
        assert(v.data[k] == a || v.data[k] == b);
        assert(w.data[k] == a + b - v.data[k]);
    }
    assert(nv.data =~= nw_.data);
    assert(nv =~= nw_);
}

} // verus!
