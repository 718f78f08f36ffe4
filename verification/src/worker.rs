//! The recognition worker: it turns one captured panel into a structured
//! record, detects the optional layout-shifting marker block, reads
//! per-cell lock icons out of the grid-list capture, and keeps the
//! deduplication state that decides when consumption stops.

use vstd::prelude::*;

use crate::artifact::ArtifactStat;
use crate::bitmap::{spec_color_distance, Rgb8, RgbBitmap};
use crate::error::{ScanError, ScanField};
use crate::geometry::{mp_to_px, to_px, Pos, Rect, SCALED_BOUND};
use crate::ocr::ImageToText;
use crate::parse::parse_level;
use crate::scan_result::GenshinArtifactScanResult;
use crate::scanner::GenshinArtifactScannerConfig;
use crate::window_info::{check_wi_bounds, wi_bounds, ArtifactScannerWindowInfo};

verus! {

/// One message from the driver: the captured detail panel, the grid-list
/// capture when this cell opens a page, and the sampled rarity tier.
pub struct SendItem {
    /// The captured detail-panel bitmap.
    pub panel_image: RgbBitmap,
    /// The captured grid-list bitmap, present on page-first cells only.
    pub list_image: Option<RgbBitmap>,
    /// The rarity tier the driver sampled.
    pub star: usize,
}

/// A milli-pixel coordinate as a pixel index, clamped into `u32` the way a
/// float-to-unsigned cast clamps.
pub open spec fn sat_px(v: int) -> int {
    let p = mp_to_px(v);
    if p < 0 {
        0
    } else if p > u32::MAX {
        u32::MAX as int
    } else {
        p
    }
}

/// A milli-pixel coordinate as a clamped pixel index.
pub fn sat_px_u32(v: i64) -> (r: u32)
    requires
        v != i64::MIN,
    ensures
        r == sat_px(v as int),
{
    let p = to_px(v);
    if p < 0 {
        0
    } else if p > u32::MAX as i64 {
        u32::MAX
    } else {
        p as u32
    }
}

/// The reference color of the layout-shifting marker block.
pub open spec fn marker_color() -> Rgb8 {
    Rgb8 { r: 220, g: 192, b: 255 }
}

/// How many pixels of a row segment lie within the marker-color distance
/// threshold.
pub open spec fn marker_row_count(im: RgbBitmap, y: int, x0: int, x1: int) -> int
    decreases x1 - x0,
{
    if x1 <= x0 {
        0
    } else {
        marker_row_count(im, y, x0, x1 - 1) + if spec_color_distance(
            im.spec_pixel(x1 - 1, y),
            marker_color(),
        ) < 10 {
            1int
        } else {
            0int
        }
    }
}

/// How many pixels of a box lie within the marker-color distance
/// threshold.
pub open spec fn marker_count(im: RgbBitmap, x0: int, x1: int, y0: int, y1: int) -> int
    decreases y1 - y0,
{
    if y1 <= y0 {
        0
    } else {
        marker_count(im, x0, x1, y0, y1 - 1) + marker_row_count(im, y1 - 1, x0, x1)
    }
}

proof fn lemma_marker_row_count_bound(im: RgbBitmap, y: int, x0: int, x1: int)
    requires
        x0 <= x1,
    ensures
        0 <= marker_row_count(im, y, x0, x1) <= x1 - x0,
    decreases x1 - x0,
{
    if x1 > x0 {
        lemma_marker_row_count_bound(im, y, x0, x1 - 1);
    }
}

proof fn lemma_marker_count_bound(im: RgbBitmap, x0: int, x1: int, y0: int, y1: int)
    requires
        x0 <= x1,
        y0 <= y1,
    ensures
        0 <= marker_count(im, x0, x1, y0, y1) <= (x1 - x0) * (y1 - y0),
    decreases y1 - y0,
{
    if y1 > y0 {
        lemma_marker_count_bound(im, x0, x1, y0, y1 - 1);
        lemma_marker_row_count_bound(im, y1 - 1, x0, x1);
        assert((x1 - x0) * (y1 - 1 - y0) + (x1 - x0) == (x1 - x0) * (y1 - y0))
            by (nonlinear_arith);
    }
}

/// A rectangle whose components stay in a range safe for panel-local
/// translation, wider than the resolved-geometry bound so that shifted
/// field rectangles stay usable.
pub open spec fn rect_loose(r: Rect) -> bool {
    &&& -4 * SCALED_BOUND < r.left < 4 * SCALED_BOUND
    &&& -4 * SCALED_BOUND < r.top < 4 * SCALED_BOUND
    &&& -4 * SCALED_BOUND < r.width < 4 * SCALED_BOUND
    &&& -4 * SCALED_BOUND < r.height < 4 * SCALED_BOUND
}

/// The panel-local pixel region of a window-relative rectangle: translated
/// against the panel's corner, coordinates clamped like float-to-unsigned
/// casts.
pub open spec fn panel_region(wi: ArtifactScannerWindowInfo, rect: Rect) -> (int, int, int, int) {
    let x = sat_px(rect.left - wi.panel_rect.left);
    let y = sat_px(rect.top - wi.panel_rect.top);
    let w = sat_px(rect.width as int);
    let h = sat_px(rect.height as int);
    (x, y, w, h)
}

/// Whether the panel-local region of `rect` lies inside the capture:
/// the library's own bounds test, decided by the inputs alone before any
/// recognition call.
pub open spec fn region_in_bounds(
    wi: ArtifactScannerWindowInfo,
    rect: Rect,
    im: RgbBitmap,
) -> bool {
    let (x, y, w, h) = panel_region(wi, rect);
    x + w <= im.width && y + h <= im.height
}

/// Whether the marker block is present in a panel capture: the detect
/// region is configured, lies inside the capture, and at least nine tenths
/// of its pixels match the marker color within the distance threshold.
pub open spec fn spec_has_marker(wi: ArtifactScannerWindowInfo, im: RgbBitmap) -> bool {
    if wi.blessed_frost_detect_rect.height <= 0 {
        false
    } else {
        let (x, y, w, h) = panel_region(wi, wi.blessed_frost_detect_rect);
        if x + w > im.width || y + h > im.height {
            false
        } else {
            let total = if w * h > 1 {
                w * h
            } else {
                1int
            };
            marker_count(im, x, x + w, y, y + h) * 10 >= total * 9
        }
    }
}

/// The vertical shift the marker block imposes on the level and sub-stat
/// lines of a panel capture.
pub open spec fn spec_field_shift(wi: ArtifactScannerWindowInfo, im: RgbBitmap) -> int {
    if wi.blessed_frost_offset.y != 0 && spec_has_marker(wi, im) {
        wi.blessed_frost_offset.y as int
    } else {
        0
    }
}

/// A field rectangle shifted down by `dy`.
pub open spec fn spec_shifted_rect(rect: Rect, dy: int) -> Rect {
    Rect {
        left: rect.left,
        top: (rect.top + dy) as i64,
        width: rect.width,
        height: rect.height,
    }
}

/// The recognition worker for one session: the model, and deep copies of
/// the resolved geometry and configuration.
pub struct ArtifactScannerWorker<M> {
    /// The recognition capability.
    pub model: M,
    /// Resolved geometry for the live window size.
    pub window_info: ArtifactScannerWindowInfo,
    /// Session parameters.
    pub config: GenshinArtifactScannerConfig,
}

impl<M: ImageToText<RgbBitmap>> ArtifactScannerWorker<M> {
    /// The worker invariant: sane geometry.
    pub open spec fn wf(&self) -> bool {
        wi_bounds(self.window_info)
    }

    /// Build a worker; fails with the configuration error exactly when the
    /// geometry is not sane.
    pub fn new(
        model: M,
        window_info: ArtifactScannerWindowInfo,
        config: GenshinArtifactScannerConfig,
    ) -> (r: Result<Self, ScanError>)
        ensures
            match r {
                Ok(w) => {
                    &&& w.wf()
                    &&& w.window_info == window_info
                    &&& w.config == config
                },
                Err(e) => {
                    &&& !wi_bounds(window_info)
                    &&& e == ScanError::Configuration
                },
            },
    {
        if !check_wi_bounds(&window_info) {
            return Err(ScanError::Configuration);
        }
        Ok(ArtifactScannerWorker { model, window_info, config })
    }

    /// Crop the panel-local region of one field's rectangle out of the
    /// captured panel and recognize it.  A region outside the capture is
    /// rejected — without consulting the model — as the recognition error
    /// for the field; a model failure carries the same error; text comes
    /// back only when the region lay inside the capture.
    pub fn model_inference(
        &self,
        rect: Rect,
        captured_img: &RgbBitmap,
        field: ScanField,
    ) -> (r: Result<String, ScanError>)
        requires
            self.wf(),
            rect_loose(rect),
            captured_img.wf(),
        ensures
            r matches Err(e) ==> e == ScanError::Recognition(field),
            !region_in_bounds(self.window_info, rect, *captured_img) ==> r == Err::<
                String,
                ScanError,
            >(ScanError::Recognition(field)),
            r is Ok ==> region_in_bounds(self.window_info, rect, *captured_img),
    {
        let x = sat_px_u32(rect.left - self.window_info.panel_rect.left);
        let y = sat_px_u32(rect.top - self.window_info.panel_rect.top);
        let rw = sat_px_u32(rect.width);
        let rh = sat_px_u32(rect.height);
        let w = captured_img.width;
        let h = captured_img.height;
        if x > u32::MAX - rw || x + rw > w || y > u32::MAX - rh || y + rh > h {
            proof {
                assert(!region_in_bounds(self.window_info, rect, *captured_img));
            }
            return Err(ScanError::Recognition(field));
        }
        proof {
            assert(region_in_bounds(self.window_info, rect, *captured_img));
        }
        let raw_img = captured_img.crop_region(x, y, rw, rh);
        match self.model.image_to_text(&raw_img, false) {
            Ok(s) => Ok(s),
            Err(_) => Err(ScanError::Recognition(field)),
        }
    }

    /// Same as `model_inference`, with preprocessing tuned for a
    /// low-contrast pending sub-stat line: the same bounds rejection, the
    /// same error discipline.
    pub fn model_inference_pending_line(
        &self,
        rect: Rect,
        captured_img: &RgbBitmap,
        field: ScanField,
    ) -> (r: Result<String, ScanError>)
        requires
            self.wf(),
            rect_loose(rect),
            captured_img.wf(),
        ensures
            r matches Err(e) ==> e == ScanError::Recognition(field),
            !region_in_bounds(self.window_info, rect, *captured_img) ==> r == Err::<
                String,
                ScanError,
            >(ScanError::Recognition(field)),
            r is Ok ==> region_in_bounds(self.window_info, rect, *captured_img),
    {
        let x = sat_px_u32(rect.left - self.window_info.panel_rect.left);
        let y = sat_px_u32(rect.top - self.window_info.panel_rect.top);
        let rw = sat_px_u32(rect.width);
        let rh = sat_px_u32(rect.height);
        let w = captured_img.width;
        let h = captured_img.height;
        if x > u32::MAX - rw || x + rw > w || y > u32::MAX - rh || y + rh > h {
            proof {
                assert(!region_in_bounds(self.window_info, rect, *captured_img));
            }
            return Err(ScanError::Recognition(field));
        }
        proof {
            assert(region_in_bounds(self.window_info, rect, *captured_img));
        }
        let raw_img = captured_img.crop_region(x, y, rw, rh);
        match self.model.image_to_text_pending_line(&raw_img) {
            Ok(s) => Ok(s),
            Err(_) => Err(ScanError::Recognition(field)),
        }
    }

    /// Whether the panel shows the layout-shifting marker block: enough of
    /// the configured detect region matches the marker color.
    pub fn has_blessed_frost_mark(&self, panel_image: &RgbBitmap) -> (b: bool)
        requires
            self.wf(),
            panel_image.wf(),
        ensures
            b == spec_has_marker(self.window_info, *panel_image),
    {
        let det = self.window_info.blessed_frost_detect_rect;
        if det.height <= 0 {
            return false;
        }
        let left = sat_px_u32(det.left - self.window_info.panel_rect.left);
        let top = sat_px_u32(det.top - self.window_info.panel_rect.top);
        let w = sat_px_u32(det.width);
        let h = sat_px_u32(det.height);
        if left > u32::MAX - w || left + w > panel_image.width || top > u32::MAX - h || top + h
            > panel_image.height {
            proof {
                let (sx, sy, sw, sh) = panel_region(self.window_info, det);
                assert(sx + sw > panel_image.width || sy + sh > panel_image.height);
            }
            return false;
        }
        let ghost x1 = left as int + w as int;
        let ghost y1 = top as int + h as int;
        let mut cnt: u64 = 0;
        let mut y: u32 = top;
        proof {
            lemma_marker_count_bound(
                *panel_image,
                left as int,
                x1,
                top as int,
                top as int,
            );
        }
        while y < top + h
            invariant
                panel_image.wf(),
                left + w <= panel_image.width,
                top + h <= panel_image.height,
                top <= y <= top + h,
                x1 == left + w,
                cnt == marker_count(*panel_image, left as int, x1, top as int, y as int),
                cnt <= 0x1_0000_0000u64,
            decreases top + h - y,
        {
            let mut x: u32 = left;
            let ghost cnt0 = cnt;
            while x < left + w
                invariant
                    panel_image.wf(),
                    left + w <= panel_image.width,
                    top + h <= panel_image.height,
                    top <= y < top + h,
                    left <= x <= left + w,
                    x1 == left + w,
                    cnt == cnt0 + marker_row_count(
                        *panel_image,
                        y as int,
                        left as int,
                        x as int,
                    ),
                    cnt0 <= 0x1_0000_0000u64,
                    cnt <= 0x2_0000_0000u64,
                decreases left + w - x,
            {
                proof {
                    lemma_marker_row_count_bound(
                        *panel_image,
                        y as int,
                        left as int,
                        x as int,
                    );
                }
                let c = panel_image.get_pixel(x, y);
                let d = crate::bitmap::color_distance(&c, &Rgb8 { r: 220, g: 192, b: 255 });
                if d < 10 {
                    cnt = cnt + 1;
                }
                x = x + 1;
            }
            proof {
                lemma_marker_count_bound(
                    *panel_image,
                    left as int,
                    x1,
                    top as int,
                    y as int + 1,
                );
                lemma_marker_row_count_bound(*panel_image, y as int, left as int, x1);
                assert((x1 - left) * (y + 1 - top) < 0x1000_0000) by (nonlinear_arith)
                    requires
                        0 <= x1 - left < 0x4000,
                        0 < y + 1 - top <= 0x4000,
                ;
            }
            y = y + 1;
        }
        proof {
            assert((w as int) * (h as int) < 0x1000_0000 && (w as int) * (h as int) >= 0)
                by (nonlinear_arith)
                requires
                    0 <= w < 0x4000,
                    0 <= h < 0x4000,
            ;
        }
        let total: u64 = {
            let t = (w as u64) * (h as u64);
            if t > 1 {
                t
            } else {
                1
            }
        };
        cnt * 10 >= total * 9
    }
}

} // verus!

verus! {

impl<M: ImageToText<RgbBitmap>> ArtifactScannerWorker<M> {
    /// Extract every field of one captured panel: recognize the title, the
    /// main stat, the four sub-stats (retrying the fourth with pending-line
    /// preprocessing when it fails structured parsing), the level and the
    /// equip text, shifting the level and sub-stat lines down when the
    /// marker block is present.  A recognition failure carries its field; a
    /// level that does not parse is the level parse error.  A record comes
    /// back only when every consulted field region — the shift applied —
    /// lay inside the capture; a title region outside it is rejected as
    /// the title's recognition error before any model call.
    pub fn scan_item_image(&self, item: SendItem, lock: bool) -> (r: Result<
        GenshinArtifactScanResult,
        ScanError,
    >)
        requires
            self.wf(),
            item.panel_image.wf(),
            item.star <= 0x7FFF_FFFF,
        ensures
            r matches Ok(res) ==> res.lock == lock && res.star == item.star,
            r matches Err(e) ==> (e matches ScanError::Recognition(_) || e == ScanError::Parse(
                ScanField::Level,
            )),
            !region_in_bounds(self.window_info, self.window_info.title_rect, item.panel_image)
                ==> r == Err::<GenshinArtifactScanResult, ScanError>(
                ScanError::Recognition(ScanField::Title),
            ),
            r is Ok ==> ({
                let dy = spec_field_shift(self.window_info, item.panel_image);
                &&& region_in_bounds(
                    self.window_info,
                    self.window_info.title_rect,
                    item.panel_image,
                )
                &&& region_in_bounds(
                    self.window_info,
                    self.window_info.main_stat_name_rect,
                    item.panel_image,
                )
                &&& region_in_bounds(
                    self.window_info,
                    self.window_info.main_stat_value_rect,
                    item.panel_image,
                )
                &&& region_in_bounds(
                    self.window_info,
                    spec_shifted_rect(self.window_info.sub_stat_1, dy),
                    item.panel_image,
                )
                &&& region_in_bounds(
                    self.window_info,
                    spec_shifted_rect(self.window_info.sub_stat_2, dy),
                    item.panel_image,
                )
                &&& region_in_bounds(
                    self.window_info,
                    spec_shifted_rect(self.window_info.sub_stat_3, dy),
                    item.panel_image,
                )
                &&& region_in_bounds(
                    self.window_info,
                    spec_shifted_rect(self.window_info.sub_stat_4, dy),
                    item.panel_image,
                )
                &&& region_in_bounds(
                    self.window_info,
                    spec_shifted_rect(self.window_info.level_rect, dy),
                    item.panel_image,
                )
                &&& region_in_bounds(
                    self.window_info,
                    self.window_info.item_equip_rect,
                    item.panel_image,
                )
            }),
    {
        let image = &item.panel_image;
        let str_title = match self.model_inference(
            self.window_info.title_rect,
            image,
            ScanField::Title,
        ) {
            Ok(s) => s,
            Err(e) => {
                return Err(e);
            },
        };
        let str_main_stat_name = match self.model_inference(
            self.window_info.main_stat_name_rect,
            image,
            ScanField::MainStatName,
        ) {
            Ok(s) => s,
            Err(e) => {
                return Err(e);
            },
        };
        let str_main_stat_value = match self.model_inference(
            self.window_info.main_stat_value_rect,
            image,
            ScanField::MainStatValue,
        ) {
            Ok(s) => s,
            Err(e) => {
                return Err(e);
            },
        };
        // The marker block shifts the level and sub-stat lines down.
        let offset_y: i64 = if self.window_info.blessed_frost_offset.y != 0
            && self.has_blessed_frost_mark(image) {
            self.window_info.blessed_frost_offset.y
        } else {
            0
        };
        let offset = Pos { x: 0, y: offset_y };
        let level_rect = self.window_info.level_rect.translate(offset);
        let sub_stat_1 = self.window_info.sub_stat_1.translate(offset);
        let sub_stat_2 = self.window_info.sub_stat_2.translate(offset);
        let sub_stat_3 = self.window_info.sub_stat_3.translate(offset);
        let sub_stat_4 = self.window_info.sub_stat_4.translate(offset);
        proof {
            let dy = spec_field_shift(self.window_info, item.panel_image);
            assert(offset_y == dy);
            assert(level_rect == spec_shifted_rect(self.window_info.level_rect, dy));
            assert(sub_stat_1 == spec_shifted_rect(self.window_info.sub_stat_1, dy));
            assert(sub_stat_2 == spec_shifted_rect(self.window_info.sub_stat_2, dy));
            assert(sub_stat_3 == spec_shifted_rect(self.window_info.sub_stat_3, dy));
            assert(sub_stat_4 == spec_shifted_rect(self.window_info.sub_stat_4, dy));
        }
        let str_sub_stat0 = match self.model_inference(sub_stat_1, image, ScanField::SubStat1) {
            Ok(s) => s,
            Err(e) => {
                return Err(e);
            },
        };
        let str_sub_stat1 = match self.model_inference(sub_stat_2, image, ScanField::SubStat2) {
            Ok(s) => s,
            Err(e) => {
                return Err(e);
            },
        };
        let str_sub_stat2 = match self.model_inference(sub_stat_3, image, ScanField::SubStat3) {
            Ok(s) => s,
            Err(e) => {
                return Err(e);
            },
        };
        // The fourth sub-stat may be a low-contrast pending line: retry
        // with the pending-line preprocessing when the text does not parse.
        let str_sub_stat3 = {
            let normal = match self.model_inference(sub_stat_4, image, ScanField::SubStat4) {
                Ok(s) => s,
                Err(e) => {
                    return Err(e);
                },
            };
            if ArtifactStat::from_zh_cn_raw(normal.as_str()).is_some() {
                normal
            } else {
                match self.model_inference_pending_line(sub_stat_4, image, ScanField::SubStat4) {
                    Ok(s) => s,
                    Err(e) => {
                        return Err(e);
                    },
                }
            }
        };
        let str_level = match self.model_inference(level_rect, image, ScanField::Level) {
            Ok(s) => s,
            Err(e) => {
                return Err(e);
            },
        };
        let str_equip = match self.model_inference(
            self.window_info.item_equip_rect,
            image,
            ScanField::Equip,
        ) {
            Ok(s) => s,
            Err(e) => {
                return Err(e);
            },
        };
        let level = match parse_level(str_level.as_str()) {
            Ok(v) => v,
            Err(e) => {
                return Err(e);
            },
        };
        Ok(
            GenshinArtifactScanResult {
                name: str_title,
                main_stat_name: str_main_stat_name,
                main_stat_value: str_main_stat_value,
                sub_stat: [str_sub_stat0, str_sub_stat1, str_sub_stat2, str_sub_stat3],
                level,
                equip: str_equip,
                star: item.star as i32,
                lock,
            },
        )
    }

    /// Run the same extraction pipeline on a panel image alone, without a
    /// live traversal: for single-image use.  The bounds discipline of
    /// `scan_item_image` holds of the given image.
    pub fn scan_panel_image(&self, panel_image: &RgbBitmap, lock: bool) -> (r: Result<
        GenshinArtifactScanResult,
        ScanError,
    >)
        requires
            self.wf(),
            panel_image.wf(),
        ensures
            r matches Ok(res) ==> res.lock == lock && res.star == 0,
            r matches Err(e) ==> (e matches ScanError::Recognition(_) || e == ScanError::Parse(
                ScanField::Level,
            )),
            !region_in_bounds(self.window_info, self.window_info.title_rect, *panel_image)
                ==> r == Err::<GenshinArtifactScanResult, ScanError>(
                ScanError::Recognition(ScanField::Title),
            ),
            r is Ok ==> ({
                let dy = spec_field_shift(self.window_info, *panel_image);
                &&& region_in_bounds(
                    self.window_info,
                    self.window_info.title_rect,
                    *panel_image,
                )
                &&& region_in_bounds(
                    self.window_info,
                    self.window_info.main_stat_name_rect,
                    *panel_image,
                )
                &&& region_in_bounds(
                    self.window_info,
                    self.window_info.main_stat_value_rect,
                    *panel_image,
                )
                &&& region_in_bounds(
                    self.window_info,
                    spec_shifted_rect(self.window_info.sub_stat_1, dy),
                    *panel_image,
                )
                &&& region_in_bounds(
                    self.window_info,
                    spec_shifted_rect(self.window_info.sub_stat_2, dy),
                    *panel_image,
                )
                &&& region_in_bounds(
                    self.window_info,
                    spec_shifted_rect(self.window_info.sub_stat_3, dy),
                    *panel_image,
                )
                &&& region_in_bounds(
                    self.window_info,
                    spec_shifted_rect(self.window_info.sub_stat_4, dy),
                    *panel_image,
                )
                &&& region_in_bounds(
                    self.window_info,
                    spec_shifted_rect(self.window_info.level_rect, dy),
                    *panel_image,
                )
                &&& region_in_bounds(
                    self.window_info,
                    self.window_info.item_equip_rect,
                    *panel_image,
                )
            }),
    {
        let copy = RgbBitmap {
            width: panel_image.width,
            height: panel_image.height,
            data: panel_image.data.clone(),
        };
        proof {
            assert(copy.data@ =~= panel_image.data@);
            lemma_has_marker_congruent(self.window_info, copy, *panel_image);
        }
        let item = SendItem { panel_image: copy, list_image: None, star: 0 };
        self.scan_item_image(item, lock)
    }
}

} // verus!

verus! {

/// The reference color of the lock icon in the grid list.
pub open spec fn lock_icon_color() -> Rgb8 {
    Rgb8 { r: 255, g: 138, b: 117 }
}

/// Whether the probe at offset (dx, dy) from (px, py) lies inside the
/// image and matches the lock-icon color within the distance bound.
pub open spec fn probe_hit_at(im: RgbBitmap, px: int, py: int, dx: int, dy: int) -> bool {
    &&& 0 <= px + dx < im.width
    &&& 0 <= py + dy < im.height
    &&& spec_color_distance(im.spec_pixel(px + dx, py + dy), lock_icon_color()) < 30
}

/// Whether the small search window around (px, py) — one pixel to the
/// left, ten above to nine below — holds a lock-icon-colored pixel.
pub open spec fn probe_hit(im: RgbBitmap, px: int, py: int) -> bool {
    exists|dy: int|
        #![trigger probe_hit_at(im, px, py, -1, dy)]
        #![trigger probe_hit_at(im, px, py, 0, dy)]
        -10 <= dy < 10 && (probe_hit_at(im, px, py, -1, dy) || probe_hit_at(im, px, py, 0, dy))
}

/// The horizontal pixel position probed for the cell in column `c`.
pub open spec fn cell_probe_x(wi: ArtifactScannerWindowInfo, c: int) -> int {
    sat_px((wi.item_gap_size.width + wi.item_size.width) * c + 19000)
}

/// The vertical pixel position probed for the cell in row `r`.
pub open spec fn cell_probe_y(wi: ArtifactScannerWindowInfo, r: int) -> int {
    sat_px((wi.item_gap_size.height + wi.item_size.height) * r + 93000)
}

/// Whether the grid-list capture shows the cell at (row, column) locked.
pub open spec fn spec_cell_locked(
    im: RgbBitmap,
    wi: ArtifactScannerWindowInfo,
    r: int,
    c: int,
) -> bool {
    probe_hit(im, cell_probe_x(wi, c), cell_probe_y(wi, r))
}

/// The lock flags of one row, in column order.
pub open spec fn spec_row_flags(im: RgbBitmap, wi: ArtifactScannerWindowInfo, r: int) -> Seq<
    bool,
> {
    Seq::new(wi.col as nat, |c: int| spec_cell_locked(im, wi, r, c))
}

/// How far down the capture reaches: the first row whose vertical pitch
/// offset falls below the capture, or the grid's row count.
pub open spec fn spec_visible_rows(im: RgbBitmap, wi: ArtifactScannerWindowInfo, i: int) -> int
    decreases wi.row - i,
{
    if i < 0 || i >= wi.row {
        i
    } else if sat_px((wi.item_gap_size.height + wi.item_size.height) * i) > im.height {
        i
    } else {
        spec_visible_rows(im, wi, i + 1)
    }
}

/// The lock flags of the first `n` rows, row-major.
pub open spec fn spec_locks_prefix(im: RgbBitmap, wi: ArtifactScannerWindowInfo, n: int) -> Seq<
    bool,
>
    decreases n,
{
    if n <= 0 {
        Seq::empty()
    } else {
        spec_locks_prefix(im, wi, n - 1) + spec_row_flags(im, wi, n - 1)
    }
}

/// The lock flags a grid-list capture yields: every visible row, row-major.
pub open spec fn spec_page_locks(im: RgbBitmap, wi: ArtifactScannerWindowInfo) -> Seq<bool> {
    spec_locks_prefix(im, wi, spec_visible_rows(im, wi, 0))
}

proof fn lemma_visible_rows_prefix(
    im: RgbBitmap,
    wi: ArtifactScannerWindowInfo,
    i: int,
)
    requires
        0 <= i <= wi.row,
        forall|k: int|
            0 <= k < i ==> #[trigger] sat_px(
                (wi.item_gap_size.height + wi.item_size.height) * k,
            ) <= im.height,
    ensures
        spec_visible_rows(im, wi, 0) == spec_visible_rows(im, wi, i),
    decreases i,
{
    if i > 0 {
        lemma_visible_rows_prefix(im, wi, i - 1);
    }
}

/// Whether the search window around (px, py) holds a lock-icon pixel.
fn cell_probe(im: &RgbBitmap, px: u32, py: u32) -> (b: bool)
    requires
        im.wf(),
    ensures
        b == probe_hit(*im, px as int, py as int),
{
    let mut found = false;
    let mut j: u32 = 0;
    while j < 20
        invariant
            im.wf(),
            j <= 20,
            found == exists|dy: int|
                #![trigger probe_hit_at(*im, px as int, py as int, -1, dy)]
                #![trigger probe_hit_at(*im, px as int, py as int, 0, dy)]
                -10 <= dy < j - 10 && (probe_hit_at(*im, px as int, py as int, -1, dy)
                    || probe_hit_at(*im, px as int, py as int, 0, dy)),
        decreases 20 - j,
    {
        let dy: i64 = j as i64 - 10;
        let y = py as i64 + dy;
        if 0 <= y && y < im.height as i64 {
            let mut hit = false;
            if px >= 1 && px as i64 - 1 < im.width as i64 {
                let c = im.get_pixel(px - 1, y as u32);
                if crate::bitmap::color_distance(&c, &Rgb8 { r: 255, g: 138, b: 117 }) < 30 {
                    hit = true;
                    proof {
                        assert(probe_hit_at(*im, px as int, py as int, -1, dy as int));
                    }
                }
            }
            if !hit && (px as i64) < im.width as i64 {
                let c = im.get_pixel(px, y as u32);
                if crate::bitmap::color_distance(&c, &Rgb8 { r: 255, g: 138, b: 117 }) < 30 {
                    hit = true;
                    proof {
                        assert(probe_hit_at(*im, px as int, py as int, 0, dy as int));
                    }
                }
            }
            if hit {
                found = true;
                proof {
                    assert(probe_hit_at(*im, px as int, py as int, -1, dy as int)
                        || probe_hit_at(*im, px as int, py as int, 0, dy as int));
                }
            } else {
                proof {
                    assert(!probe_hit_at(*im, px as int, py as int, -1, dy as int));
                    assert(!probe_hit_at(*im, px as int, py as int, 0, dy as int));
                }
            }
        }
        proof {
            if !found {
                assert forall|dy2: int|
                    -10 <= dy2 < j + 1 - 10 implies !(probe_hit_at(
                    *im,
                    px as int,
                    py as int,
                    -1,
                    dy2,
                ) || probe_hit_at(*im, px as int, py as int, 0, dy2)) by {
                    if dy2 == dy as int {
                        assert(!probe_hit_at(*im, px as int, py as int, -1, dy2));
                        assert(!probe_hit_at(*im, px as int, py as int, 0, dy2));
                    }
                }
            }
        }
        j = j + 1;
    }
    found
}

/// Read the lock state of every visible cell out of a grid-list capture:
/// for each cell, a small window at the lock icon's offset within the cell
/// is searched for the icon's color; flags come back row-major, rows that
/// fall below the capture excluded.
pub fn get_page_locks_from_list_image(
    list_image: &RgbBitmap,
    window_info: &ArtifactScannerWindowInfo,
) -> (r: Vec<bool>)
    requires
        list_image.wf(),
        wi_bounds(*window_info),
    ensures
        r@ == spec_page_locks(*list_image, *window_info),
{
    let wi = window_info;
    let pitch_w = wi.item_gap_size.width + wi.item_size.width;
    let pitch_h = wi.item_gap_size.height + wi.item_size.height;
    let mut result: Vec<bool> = Vec::new();
    let mut r: i64 = 0;
    let mut stopped = false;
    while !stopped && r < wi.row
        invariant
            list_image.wf(),
            wi_bounds(*wi),
            pitch_w == wi.item_gap_size.width + wi.item_size.width,
            pitch_h == wi.item_gap_size.height + wi.item_size.height,
            0 <= r <= wi.row,
            forall|k: int|
                0 <= k < r ==> #[trigger] sat_px(
                    (wi.item_gap_size.height + wi.item_size.height) * k,
                ) <= list_image.height,
            stopped ==> r < wi.row && sat_px(
                (wi.item_gap_size.height + wi.item_size.height) * r,
            ) > list_image.height,
            result@ == spec_locks_prefix(*list_image, *wi, r as int),
        decreases wi.row - r + (if stopped {
            0int
        } else {
            1int
        }),
    {
        proof {
            assert(-0x1000_0000_0000_0000 < pitch_h * r && pitch_h * r < 0x1000_0000_0000_0000)
                by (nonlinear_arith)
                requires
                    -2 * SCALED_BOUND < pitch_h < 2 * SCALED_BOUND,
                    0 <= r <= 256,
                    SCALED_BOUND == 0x100_0000i64 * 0x10_0000,
            ;
        }
        let row_shift = pitch_h * r;
        if sat_px_u32(row_shift) > list_image.height {
            stopped = true;
        } else {
            let py = sat_px_u32(row_shift + 93000);
            let mut c: i64 = 0;
            while c < wi.col
                invariant
                    list_image.wf(),
                    wi_bounds(*wi),
                    pitch_w == wi.item_gap_size.width + wi.item_size.width,
                    pitch_h == wi.item_gap_size.height + wi.item_size.height,
                    0 <= r < wi.row,
                    0 <= c <= wi.col,
                    row_shift == pitch_h * r,
                    -0x1000_0000_0000_0000 < row_shift < 0x1000_0000_0000_0000,
                    py == sat_px(pitch_h * r + 93000),
                    py == cell_probe_y(*wi, r as int),
                    result@ == spec_locks_prefix(*list_image, *wi, r as int) + spec_row_flags(
                        *list_image,
                        *wi,
                        r as int,
                    ).take(c as int),
                decreases wi.col - c,
            {
                proof {
                    assert(-0x1000_0000_0000_0000 < pitch_w * c && pitch_w * c
                        < 0x1000_0000_0000_0000) by (nonlinear_arith)
                        requires
                            -2 * SCALED_BOUND < pitch_w < 2 * SCALED_BOUND,
                            0 <= c <= 256,
                            SCALED_BOUND == 0x100_0000i64 * 0x10_0000,
                    ;
                }
                let px = sat_px_u32(pitch_w * c + 19000);
                let locked = cell_probe(list_image, px, py);
                result.push(locked);
                proof {
                    assert(result@ =~= spec_locks_prefix(*list_image, *wi, r as int)
                        + spec_row_flags(*list_image, *wi, r as int).take(c + 1));
                }
                c = c + 1;
            }
            proof {
                assert(spec_row_flags(*list_image, *wi, r as int).take(wi.col as int)
                    =~= spec_row_flags(*list_image, *wi, r as int));
                assert(result@ == spec_locks_prefix(*list_image, *wi, r as int + 1));
            }
            r = r + 1;
        }
    }
    proof {
        lemma_visible_rows_prefix(*list_image, *wi, r as int);
        if stopped {
            assert(spec_visible_rows(*list_image, *wi, r as int) == r);
        } else {
            assert(spec_visible_rows(*list_image, *wi, r as int) == r);
        }
    }
    result
}

} // verus!

verus! {

/// Saturation cap for the consecutive-duplicate counter, far above any
/// grid's column count.
pub const DUP_CAP: i64 = 0x4000_0000;

/// Cap on how many items one session can feed through a worker.
pub const FEED_CAP: i64 = 0x1000_0000;

/// Why the worker stopped consuming.
#[derive(Clone, Copy, PartialEq, Eq, Structural, Debug)]
pub enum StopReason {
    /// An accepted record fell below the level floor; the grid is
    /// level-sorted, so nothing further qualifies.
    LevelFloor,
    /// A full row of consecutive duplicates: the designed signal of a
    /// paging failure.
    DuplicateRun,
    /// No lock state was accumulated for this cell: the driver never sent
    /// the page's grid-list capture.
    MissingLockState,
}

/// The worker's answer after one item.
#[derive(Clone, Copy, PartialEq, Eq, Structural, Debug)]
pub enum WorkerStep {
    /// Keep consuming.
    Continue,
    /// Stop consuming.
    Stop(StopReason),
}

/// Whether some kept record carries this content.
pub open spec fn has_content(s: Seq<GenshinArtifactScanResult>, c: crate::scan_result::ScanContent) -> bool {
    exists|i: int| 0 <= i < s.len() && (#[trigger] s[i]).content() == c
}

/// How recording one result changes the dedup state: a below-floor level
/// stops at once; a record whose content is already kept only bumps the
/// consecutive-duplicate counter (stopping at a full row unless overridden);
/// fresh content resets the counter and is kept.
pub open spec fn spec_record(
    old_results: Seq<GenshinArtifactScanResult>,
    old_dup: int,
    result: GenshinArtifactScanResult,
    min_level: int,
    col: int,
    ignore_dup: bool,
    new_results: Seq<GenshinArtifactScanResult>,
    new_dup: int,
    step: WorkerStep,
) -> bool {
    if result.level < min_level {
        &&& new_results == old_results
        &&& new_dup == old_dup
        &&& step == WorkerStep::Stop(StopReason::LevelFloor)
    } else if has_content(old_results, result.content()) {
        &&& new_results == old_results
        &&& new_dup == if old_dup < DUP_CAP {
            old_dup + 1
        } else {
            old_dup
        }
        &&& step == if new_dup >= col && !ignore_dup {
            WorkerStep::Stop(StopReason::DuplicateRun)
        } else {
            WorkerStep::Continue
        }
    } else {
        &&& new_results == old_results.push(result)
        &&& new_dup == 0
        &&& step == WorkerStep::Continue
    }
}

/// The worker's mutable bookkeeping: the kept records (unique by content,
/// in first-seen order), the consecutive-duplicate counter, the per-page
/// lock flags in page order, and how many items have been consumed.
pub struct WorkerState {
    /// Records kept so far, unique by content, in order.
    pub results: Vec<GenshinArtifactScanResult>,
    /// How many consecutive items were duplicates of kept content.
    pub consecutive_dup_count: i64,
    /// Lock flags accumulated from the grid-list captures, page order.
    pub locks: Vec<bool>,
    /// How many items have been consumed.
    pub artifact_index: i64,
}

/// What the worker hands back for one consumed item.
pub struct FeedOutcome {
    /// The record for the feedback channel: the scanned record, or
    /// nothing when this item failed recognition or had no lock state.
    pub feedback: Option<GenshinArtifactScanResult>,
    /// Whether consumption goes on.
    pub step: WorkerStep,
}

impl WorkerState {
    /// Bookkeeping sanity.
    pub open spec fn wf(&self) -> bool {
        &&& 0 <= self.consecutive_dup_count <= DUP_CAP
        &&& 0 <= self.artifact_index <= FEED_CAP
    }

    /// Fresh bookkeeping for one session.
    pub fn new() -> (r: WorkerState)
        ensures
            r.wf(),
            r.results@.len() == 0,
            r.consecutive_dup_count == 0,
            r.locks@.len() == 0,
            r.artifact_index == 0,
    {
        WorkerState {
            results: Vec::new(),
            consecutive_dup_count: 0,
            locks: Vec::new(),
            artifact_index: 0,
        }
    }

    /// Whether a record's content is already kept.
    fn knows_content(&self, result: &GenshinArtifactScanResult) -> (b: bool)
        ensures
            b == has_content(self.results@, result.content()),
    {
        let n = self.results.len();
        let mut i: usize = 0;
        while i < n
            invariant
                n == self.results@.len(),
                i <= n,
                forall|k: int| 0 <= k < i ==> (#[trigger] self.results@[k]).content()
                    != result.content(),
            decreases n - i,
        {
            if self.results[i].same_content(result) {
                assert(self.results@[i as int].content() == result.content());
                return true;
            }
            i = i + 1;
        }
        false
    }

    /// Record one scanned result: drop it and stop below the level floor;
    /// count it (and possibly stop) when its content is already kept; keep
    /// it otherwise.
    pub fn record(
        &mut self,
        result: GenshinArtifactScanResult,
        min_level: i32,
        col: i64,
        ignore_dup: bool,
    ) -> (step: WorkerStep)
        requires
            old(self).wf(),
        ensures
            final(self).wf(),
            final(self).locks@ == old(self).locks@,
            final(self).artifact_index == old(self).artifact_index,
            spec_record(
                old(self).results@,
                old(self).consecutive_dup_count as int,
                result,
                min_level as int,
                col as int,
                ignore_dup,
                final(self).results@,
                final(self).consecutive_dup_count as int,
                step,
            ),
    {
        if result.level < min_level {
            return WorkerStep::Stop(StopReason::LevelFloor);
        }
        if self.knows_content(&result) {
            if self.consecutive_dup_count < DUP_CAP {
                self.consecutive_dup_count = self.consecutive_dup_count + 1;
            }
            if self.consecutive_dup_count >= col && !ignore_dup {
                WorkerStep::Stop(StopReason::DuplicateRun)
            } else {
                WorkerStep::Continue
            }
        } else {
            self.consecutive_dup_count = 0;
            self.results.push(result);
            WorkerStep::Continue
        }
    }
}

impl<M: ImageToText<RgbBitmap>> ArtifactScannerWorker<M> {
    /// Consume one item: fold any grid-list capture into the lock flags,
    /// look this cell's lock flag up by its absolute index, extract the
    /// record, publish it (or a failure marker) for the feedback loop, and
    /// update the dedup bookkeeping.  Per-item recognition and parse
    /// failures are isolated: the session continues without them.
    pub fn feed(&self, state: &mut WorkerState, item: SendItem) -> (r: FeedOutcome)
        requires
            self.wf(),
            old(state).wf(),
            old(state).artifact_index < FEED_CAP,
            item.panel_image.wf(),
            item.star <= 5,
            item.list_image matches Some(li) ==> li.wf(),
        ensures
            final(state).wf(),
            final(state).artifact_index == old(state).artifact_index + 1,
            final(state).locks@ == old(state).locks@ + (match item.list_image {
                Some(li) => spec_page_locks(li, self.window_info),
                None => Seq::<bool>::empty(),
            }),
            ({
                let locks2 = final(state).locks@;
                let idx = old(state).artifact_index;
                if idx >= locks2.len() {
                    &&& r.step == WorkerStep::Stop(StopReason::MissingLockState)
                    &&& r.feedback is None
                    &&& final(state).results@ == old(state).results@
                    &&& final(state).consecutive_dup_count == old(
                        state,
                    ).consecutive_dup_count
                } else {
                    match r.feedback {
                        None => {
                            &&& r.step == WorkerStep::Continue
                            &&& final(state).results@ == old(state).results@
                            &&& final(state).consecutive_dup_count == old(
                                state,
                            ).consecutive_dup_count
                        },
                        Some(res) => {
                            &&& res.lock == locks2[idx as int]
                            &&& res.star == item.star
                            &&& spec_record(
                                old(state).results@,
                                old(state).consecutive_dup_count as int,
                                res,
                                self.config.min_level as int,
                                self.window_info.col as int,
                                self.config.ignore_dup,
                                final(state).results@,
                                final(state).consecutive_dup_count as int,
                                r.step,
                            )
                        },
                    }
                }
            }),
    {
        match &item.list_image {
            Some(li) => {
                let mut page = get_page_locks_from_list_image(li, &self.window_info);
                self.append_page_locks(state, &mut page);
            },
            None => {
                proof {
                    assert(state.locks@ =~= old(state).locks@ + Seq::<bool>::empty());
                }
            },
        }
        let idx = state.artifact_index;
        state.artifact_index = idx + 1;
        if idx as usize >= state.locks.len() {
            return FeedOutcome {
                feedback: None,
                step: WorkerStep::Stop(StopReason::MissingLockState),
            };
        }
        let lock = state.locks[idx as usize];
        let result = match self.scan_item_image(item, lock) {
            Ok(v) => v,
            Err(_) => {
                return FeedOutcome { feedback: None, step: WorkerStep::Continue };
            },
        };
        let feedback = result.duplicate();
        let step = self.record_into(state, result);
        FeedOutcome { feedback: Some(feedback), step }
    }

    /// Append freshly scanned page locks to the state.
    fn append_page_locks(&self, state: &mut WorkerState, page: &mut Vec<bool>)
        ensures
            final(state).locks@ == old(state).locks@ + old(page)@,
            final(state).results@ == old(state).results@,
            final(state).consecutive_dup_count == old(state).consecutive_dup_count,
            final(state).artifact_index == old(state).artifact_index,
    {
        state.locks.append(page);
    }

    /// Record one result under this session's floors and grid shape.
    fn record_into(&self, state: &mut WorkerState, result: GenshinArtifactScanResult) -> (step:
        WorkerStep)
        requires
            old(state).wf(),
        ensures
            final(state).wf(),
            final(state).locks@ == old(state).locks@,
            final(state).artifact_index == old(state).artifact_index,
            spec_record(
                old(state).results@,
                old(state).consecutive_dup_count as int,
                result,
                self.config.min_level as int,
                self.window_info.col as int,
                self.config.ignore_dup,
                final(state).results@,
                final(state).consecutive_dup_count as int,
                step,
            ),
    {
        state.record(result, self.config.min_level, self.window_info.col, self.config.ignore_dup)
    }
}

} // verus!

verus! {

/// Deduplication by content: recording a fresh record and then a second
/// one that differs only in its lock flag keeps exactly one record — the
/// set of kept records gains one member in all — and bumps the
/// consecutive-duplicate counter on the second insert.
pub proof fn lemma_duplicate_pair(
    s0: Seq<GenshinArtifactScanResult>,
    a: GenshinArtifactScanResult,
    b: GenshinArtifactScanResult,
    min_level: int,
    col: int,
    ignore_dup: bool,
    s1: Seq<GenshinArtifactScanResult>,
    dup1: int,
    step1: WorkerStep,
    s2: Seq<GenshinArtifactScanResult>,
    dup2: int,
    step2: WorkerStep,
)
    requires
        a.name@ == b.name@,
        a.main_stat_name@ == b.main_stat_name@,
        a.main_stat_value@ == b.main_stat_value@,
        a.sub_stat[0]@ == b.sub_stat[0]@,
        a.sub_stat[1]@ == b.sub_stat[1]@,
        a.sub_stat[2]@ == b.sub_stat[2]@,
        a.sub_stat[3]@ == b.sub_stat[3]@,
        a.level == b.level,
        a.equip@ == b.equip@,
        a.level >= min_level,
        !has_content(s0, a.content()),
        spec_record(s0, 0, a, min_level, col, ignore_dup, s1, dup1, step1),
        spec_record(s1, dup1, b, min_level, col, ignore_dup, s2, dup2, step2),
    ensures
        s2 == s0.push(a),
        dup1 == 0,
        dup2 == 1,
{
    crate::scan_result::lemma_content_ignores_lock(a, b);
    assert(s1 == s0.push(a));
    assert(has_content(s1, b.content())) by {
        assert(s1[s1.len() - 1].content() == b.content());
    }
}

} // verus!

verus! {

proof fn lemma_marker_row_count_congruent(
    a: RgbBitmap,
    b: RgbBitmap,
    y: int,
    x0: int,
    x1: int,
)
    requires
        a.width == b.width,
        a.data@ == b.data@,
    ensures
        marker_row_count(a, y, x0, x1) == marker_row_count(b, y, x0, x1),
    decreases x1 - x0,
{
    if x1 > x0 {
        lemma_marker_row_count_congruent(a, b, y, x0, x1 - 1);
        assert(a.spec_pixel(x1 - 1, y) == b.spec_pixel(x1 - 1, y));
    }
}

proof fn lemma_marker_count_congruent(
    a: RgbBitmap,
    b: RgbBitmap,
    x0: int,
    x1: int,
    y0: int,
    y1: int,
)
    requires
        a.width == b.width,
        a.data@ == b.data@,
    ensures
        marker_count(a, x0, x1, y0, y1) == marker_count(b, x0, x1, y0, y1),
    decreases y1 - y0,
{
    if y1 > y0 {
        lemma_marker_count_congruent(a, b, x0, x1, y0, y1 - 1);
        lemma_marker_row_count_congruent(a, b, y1 - 1, x0, x1);
    }
}

/// Marker detection reads only the dimensions and pixel bytes, so two
/// bitmaps with the same content agree on it.
proof fn lemma_has_marker_congruent(wi: ArtifactScannerWindowInfo, a: RgbBitmap, b: RgbBitmap)
    requires
        a.width == b.width,
        a.height == b.height,
        a.data@ == b.data@,
    ensures
        spec_has_marker(wi, a) == spec_has_marker(wi, b),
        spec_field_shift(wi, a) == spec_field_shift(wi, b),
{
    if wi.blessed_frost_detect_rect.height > 0 {
        let (x, y, w, h) = panel_region(wi, wi.blessed_frost_detect_rect);
        if x + w <= a.width && y + h <= a.height {
            lemma_marker_count_congruent(a, b, x, x + w, y, y + h);
        }
    }
}

} // verus!
