//! The driver side of the scanner: it owns the live-window facts and the
//! capture and recognition capabilities, classifies rarity from a sampled
//! color, reads the inventory count, computes the grid-list capture
//! region, and decides when the traversal stops early.

use vstd::prelude::*;

use crate::bitmap::{color_distance, spec_color_distance, Rgb8, RgbBitmap};
use crate::capture::Capturer;
use crate::controller::{
    spec_page_first, spec_start_row, start_row_for, ControllerStep, RepositoryScanController,
    GRID_BOUND,
};
use crate::error::{ScanError, ScanField};
use crate::game_info::GameInfo;
use crate::geometry::{mp_to_px, to_px, Pos, Rect, SCALED_BOUND, SIZE_BOUND};
use crate::lock_list::{entry_matches, LockList};
use crate::ocr::ImageToText;
use crate::parse::{
    chars_of, digits_ok, digits_val, parse_digits_capped, spec_trim, sub_chars, trimmed_chars,
    DIGITS_CAP,
};
use crate::scan_result::{content_unique, GenshinArtifactScanResult};
use crate::worker::{has_content, ArtifactScannerWorker, SendItem, WorkerState, WorkerStep};
use crate::window_info::{
    check_wi_bounds, spec_resolve, wi_bounds, ArtifactScannerWindowInfo, WindowInfoRepository,
};

verus! {

/// The most cells one session will ever visit.
pub const MAX_COUNT: i32 = 2400;

/// Session parameters, resolved by the embedding program before scanning.
pub struct GenshinArtifactScannerConfig {
    /// Requested cell count; a positive value overrides the on-screen
    /// inventory count.
    pub number: i32,
    /// Whether the worker logs every record.
    pub verbose: bool,
    /// Records below this level end the session.
    pub min_level: i32,
    /// Cells below this rarity tier end the traversal.
    pub min_star: i32,
    /// Whether a full row of consecutive duplicates is tolerated.
    pub ignore_dup: bool,
    /// Where the lock-target list was loaded from, when one is in use.
    pub lock_list_path: Option<String>,
}

impl GenshinArtifactScannerConfig {
    /// An explicit deep copy.
    pub fn duplicate(&self) -> (r: Self)
        ensures
            r == *self,
    {
        GenshinArtifactScannerConfig {
            number: self.number,
            verbose: self.verbose,
            min_level: self.min_level,
            min_star: self.min_star,
            ignore_dup: self.ignore_dup,
            lock_list_path: match &self.lock_list_path {
                Some(p) => Some(p.clone()),
                None => None,
            },
        }
    }
}

/// The five reference colors of the rarity tiers, lowest tier first.
pub open spec fn spec_star_palette() -> Seq<Rgb8> {
    seq![
        Rgb8 { r: 113, g: 119, b: 139 },
        Rgb8 { r: 42, g: 143, b: 114 },
        Rgb8 { r: 81, g: 127, b: 203 },
        Rgb8 { r: 161, g: 86, b: 224 },
        Rgb8 { r: 188, g: 105, b: 50 },
    ]
}

/// The rarity tier of a sampled color: the first tier whose reference
/// color is nearest in squared RGB distance.
pub open spec fn spec_star_of(c: Rgb8) -> int {
    let p = spec_star_palette();
    let d1 = spec_color_distance(p[0], c);
    let d2 = spec_color_distance(p[1], c);
    let d3 = spec_color_distance(p[2], c);
    let d4 = spec_color_distance(p[3], c);
    let d5 = spec_color_distance(p[4], c);
    let m1: int = d1;
    let r1: int = 1;
    let m2: int = if d2 < m1 {
        d2
    } else {
        m1
    };
    let r2: int = if d2 < m1 {
        2
    } else {
        r1
    };
    let m3: int = if d3 < m2 {
        d3
    } else {
        m2
    };
    let r3: int = if d3 < m2 {
        3
    } else {
        r2
    };
    let m4: int = if d4 < m3 {
        d4
    } else {
        m3
    };
    let r4: int = if d4 < m3 {
        4
    } else {
        r3
    };
    let r5: int = if d5 < m4 {
        5
    } else {
        r4
    };
    r5
}

/// Classify a sampled color as a rarity tier by nearest reference color;
/// the first of equally near tiers wins.
pub fn star_of_color(c: &Rgb8) -> (r: usize)
    ensures
        r == spec_star_of(*c),
        1 <= r <= 5,
{
    let p1 = Rgb8 { r: 113, g: 119, b: 139 };
    let p2 = Rgb8 { r: 42, g: 143, b: 114 };
    let p3 = Rgb8 { r: 81, g: 127, b: 203 };
    let p4 = Rgb8 { r: 161, g: 86, b: 224 };
    let p5 = Rgb8 { r: 188, g: 105, b: 50 };
    let d1 = color_distance(&p1, c);
    let d2 = color_distance(&p2, c);
    let d3 = color_distance(&p3, c);
    let d4 = color_distance(&p4, c);
    let d5 = color_distance(&p5, c);
    let mut min_dis = d1;
    let mut ret: usize = 1;
    if d2 < min_dis {
        min_dis = d2;
        ret = 2;
    }
    if d3 < min_dis {
        min_dis = d3;
        ret = 3;
    }
    if d4 < min_dis {
        min_dis = d4;
        ret = 4;
    }
    if d5 < min_dis {
        ret = 5;
    }
    proof {
        assert(spec_star_palette()[0] == p1);
        assert(spec_star_palette()[1] == p2);
        assert(spec_star_palette()[2] == p3);
        assert(spec_star_palette()[3] == p4);
        assert(spec_star_palette()[4] == p5);
    }
    ret
}

/// The inventory count read from a recognized count text: the digits
/// between the three-character item word and the five-character capacity
/// suffix, trimmed, clamped to `MAX_COUNT`; `MAX_COUNT` when anything
/// about the text is unexpected.
pub open spec fn spec_item_count(s: Seq<char>) -> int {
    if s.len() >= 8 && s[0] == '\u{5723}' && s[1] == '\u{9057}' && s[2] == '\u{7269}' {
        let mid = spec_trim(s.subrange(3, s.len() - 5));
        let body = if mid.len() > 0 && mid[0] == '+' {
            mid.skip(1)
        } else {
            mid
        };
        if digits_ok(body) {
            if digits_val(body) < MAX_COUNT {
                digits_val(body)
            } else {
                MAX_COUNT as int
            }
        } else {
            MAX_COUNT as int
        }
    } else {
        MAX_COUNT as int
    }
}

/// Read the inventory count out of the recognized count text.
pub fn item_count_from_text(s: &str) -> (r: i32)
    ensures
        r == spec_item_count(s@),
        0 <= r <= MAX_COUNT,
{
    let v = chars_of(s);
    let n = v.len();
    if !(n >= 8 && v[0] == '\u{5723}' && v[1] == '\u{9057}' && v[2] == '\u{7269}') {
        return MAX_COUNT;
    }
    let midv = sub_chars(&v, 3, n - 5);
    proof {
        assert(midv@ =~= v@.subrange(3, v@.len() - 5));
    }
    let mid = trimmed_chars(&midv);
    let from: usize = if mid.len() > 0 && mid[0] == '+' {
        1
    } else {
        0
    };
    proof {
        if from == 0 {
            assert(mid@.skip(0) =~= mid@);
        }
    }
    match parse_digits_capped(&mid, from) {
        Some(cnt) => {
            if cnt < MAX_COUNT as u64 {
                proof {
                    assert(cnt < DIGITS_CAP);
                }
                cnt as i32
            } else {
                proof {
                    if cnt == DIGITS_CAP {
                        assert(digits_val(mid@.skip(from as int)) >= DIGITS_CAP);
                    }
                }
                MAX_COUNT
            }
        },
        None => MAX_COUNT,
    }
}

/// Whether the feedback loop should lock this record: it matches a target
/// entry and the grid list does not already show it locked.
pub fn should_auto_lock(list: &LockList, r: &GenshinArtifactScanResult) -> (b: bool)
    ensures
        b == ((exists|i: int| 0 <= i < list.0@.len() && entry_matches(list.0@[i], *r))
            && !r.lock),
{
    list.contains(r) && !r.lock
}

/// Keep exactly the records at or above the level floor, in order.
pub open spec fn spec_filter_level(s: Seq<GenshinArtifactScanResult>, min_level: int) -> Seq<
    GenshinArtifactScanResult,
>
    decreases s.len(),
{
    if s.len() == 0 {
        Seq::empty()
    } else {
        let r = spec_filter_level(s.drop_last(), min_level);
        if s.last().level >= min_level {
            r.push(s.last())
        } else {
            r
        }
    }
}

/// Keep exactly the records at or above the level floor, in order.
pub fn filter_by_level(results: Vec<GenshinArtifactScanResult>, min_level: i32) -> (r: Vec<
    GenshinArtifactScanResult,
>)
    ensures
        r@ == spec_filter_level(results@, min_level as int),
{
    let ghost all = results@;
    let mut out: Vec<GenshinArtifactScanResult> = Vec::new();
    for a in it: results.into_iter()
        invariant
            it.seq() == all,
            out@ == spec_filter_level(all.take(it.index() as int), min_level as int),
    {
        let ghost i = it.index() as int;
        proof {
            assert(all.take(i + 1).drop_last() =~= all.take(i));
            assert(all.take(i + 1).last() == all[i]);
        }
        if a.level >= min_level {
            out.push(a);
        }
    }
    proof {
        assert(all.take(all.len() as int) =~= all);
    }
    out
}

/// Whether a fresh session can be built: the window size is usable and the
/// repository resolves to sane geometry at it.
pub open spec fn spec_can_build(repo: &WindowInfoRepository, game_info: GameInfo) -> bool {
    let tw = mp_to_px(game_info.window.width as int);
    let th = mp_to_px(game_info.window.height as int);
    &&& 0 < tw < SIZE_BOUND
    &&& 0 < th < SIZE_BOUND
    &&& -SCALED_BOUND < game_info.window.left < SCALED_BOUND
    &&& -SCALED_BOUND < game_info.window.top < SCALED_BOUND
    &&& match spec_resolve(repo.entries@, tw, th, game_info.ui, game_info.platform) {
        Some(w) => wi_bounds(w),
        None => false,
    }
}

/// The driver: capabilities, configuration, resolved geometry, and the
/// live-window facts for one session.
pub struct GenshinArtifactScanner<M, C> {
    /// Session parameters.
    pub scanner_config: GenshinArtifactScannerConfig,
    /// Resolved geometry for the live window size.
    pub window_info: ArtifactScannerWindowInfo,
    /// The live window.
    pub game_info: GameInfo,
    /// The recognition capability.
    pub image_to_text: M,
    /// The capture capability.
    pub capturer: C,
}

impl<M: ImageToText<RgbBitmap>, C: Capturer<RgbBitmap>> GenshinArtifactScanner<M, C> {
    /// The session invariant: sane geometry and window facts.
    pub open spec fn wf(&self) -> bool {
        &&& wi_bounds(self.window_info)
        &&& -SCALED_BOUND < self.game_info.window.left < SCALED_BOUND
        &&& -SCALED_BOUND < self.game_info.window.top < SCALED_BOUND
        &&& 0 < mp_to_px(self.game_info.window.width as int) < SIZE_BOUND
        &&& 0 < mp_to_px(self.game_info.window.height as int) < SIZE_BOUND
        &&& -SCALED_BOUND < self.game_info.window.width < SCALED_BOUND
        &&& -SCALED_BOUND < self.game_info.window.height < SCALED_BOUND
    }

    /// Build a session: resolve the geometry for the live window size and
    /// check its sanity.  Fails with the configuration error exactly when
    /// that cannot be done.
    pub fn new(
        window_info_repo: &WindowInfoRepository,
        config: GenshinArtifactScannerConfig,
        game_info: GameInfo,
        image_to_text: M,
        capturer: C,
    ) -> (r: Result<Self, ScanError>)
        requires
            window_info_repo.wf(),
        ensures
            match r {
                Ok(s) => {
                    &&& spec_can_build(window_info_repo, game_info)
                    &&& s.wf()
                    &&& s.scanner_config == config
                    &&& s.game_info == game_info
                    &&& Some(s.window_info) == spec_resolve(
                        window_info_repo.entries@,
                        mp_to_px(game_info.window.width as int),
                        mp_to_px(game_info.window.height as int),
                        game_info.ui,
                        game_info.platform,
                    )
                },
                Err(e) => {
                    &&& !spec_can_build(window_info_repo, game_info)
                    &&& e == ScanError::Configuration
                },
            },
    {
        if game_info.window.width == i64::MIN || game_info.window.height == i64::MIN {
            return Err(ScanError::Configuration);
        }
        let tw = to_px(game_info.window.width);
        let th = to_px(game_info.window.height);
        if !(0 < tw && tw < SIZE_BOUND && 0 < th && th < SIZE_BOUND) {
            return Err(ScanError::Configuration);
        }
        if !(-SCALED_BOUND < game_info.window.left && game_info.window.left < SCALED_BOUND
            && -SCALED_BOUND < game_info.window.top && game_info.window.top < SCALED_BOUND) {
            return Err(ScanError::Configuration);
        }
        let window_info = match ArtifactScannerWindowInfo::from_window_info_repository(
            tw,
            th,
            game_info.ui,
            game_info.platform,
            window_info_repo,
        ) {
            Ok(w) => w,
            Err(e) => {
                return Err(e);
            },
        };
        if !check_wi_bounds(&window_info) {
            return Err(ScanError::Configuration);
        }
        proof {
            assert(-SCALED_BOUND < game_info.window.width < SCALED_BOUND) by {
                assert(mp_to_px(game_info.window.width as int) < SIZE_BOUND);
                assert(SIZE_BOUND * 1000 < SCALED_BOUND);
                assert(game_info.window.width as int / 1000 < SIZE_BOUND
                    ==> game_info.window.width < SIZE_BOUND * 1000) by (nonlinear_arith);
            }
            assert(-SCALED_BOUND < game_info.window.height < SCALED_BOUND) by {
                assert(mp_to_px(game_info.window.height as int) < SIZE_BOUND);
                assert(SIZE_BOUND * 1000 < SCALED_BOUND);
                assert(game_info.window.height as int / 1000 < SIZE_BOUND
                    ==> game_info.window.height < SIZE_BOUND * 1000) by (nonlinear_arith);
            }
        }
        Ok(
            GenshinArtifactScanner {
                scanner_config: config,
                window_info,
                game_info,
                image_to_text,
                capturer,
            },
        )
    }

    /// A fresh traversal state machine for this session's grid.
    pub fn make_controller(&self, count: i32) -> (r: RepositoryScanController)
        requires
            self.wf(),
            0 <= count,
        ensures
            r.wf(),
            r.spec_count() == count,
            r.spec_cursor() == 0,
            r.spec_row() == self.window_info.row,
            r.spec_col() == self.window_info.col,
    {
        RepositoryScanController::new(count as i64, self.window_info.row, self.window_info.col)
    }

    /// Capture the detail panel, relative to the window origin.
    pub fn capture_panel(&self) -> (r: Result<RgbBitmap, ScanError>) {
        let origin = Pos { x: self.game_info.window.left, y: self.game_info.window.top };
        self.capturer.capture_relative_to(self.window_info.panel_rect, origin)
    }

    /// Sample the rarity reference pixel and classify its color.  Whatever
    /// color came back, the tier is its nearest-palette classification.
    pub fn get_star(&self) -> (r: Result<usize, ScanError>)
        requires
            self.wf(),
        ensures
            r matches Ok(star) ==> 1 <= star <= 5,
    {
        let pos = Pos {
            x: self.game_info.window.left + self.window_info.star_pos.x,
            y: self.game_info.window.top + self.window_info.star_pos.y,
        };
        let color = match self.capturer.capture_color(pos) {
            Ok(c) => c,
            Err(e) => {
                return Err(e);
            },
        };
        Ok(star_of_color(&color))
    }

    /// The cell count to visit: the configured number when positive, else
    /// the on-screen inventory count, always clamped to `MAX_COUNT`.
    pub fn get_item_count(&self) -> (r: Result<i32, ScanError>)
        requires
            self.wf(),
        ensures
            self.scanner_config.number > 0 ==> r == Ok::<i32, ScanError>(
                if self.scanner_config.number < MAX_COUNT {
                    self.scanner_config.number
                } else {
                    MAX_COUNT
                },
            ),
            r matches Ok(v) ==> 0 <= v <= MAX_COUNT,
            r matches Err(e) ==> self.scanner_config.number <= 0 && (e
                == ScanError::Recognition(ScanField::ItemCount) || e matches ScanError::Capture),
    {
        let count = self.scanner_config.number;
        if count > 0 {
            return Ok(
                if count < MAX_COUNT {
                    count
                } else {
                    MAX_COUNT
                },
            );
        }
        let origin = Pos { x: self.game_info.window.left, y: self.game_info.window.top };
        let im = match self.capturer.capture_relative_to(self.window_info.item_count_rect, origin) {
            Ok(im) => im,
            Err(_) => {
                return Err(ScanError::Capture);
            },
        };
        let s = match self.image_to_text.image_to_text(&im, false) {
            Ok(s) => s,
            Err(_) => {
                return Err(ScanError::Recognition(ScanField::ItemCount));
            },
        };
        Ok(item_count_from_text(s.as_str()))
    }

    /// Whether this cell is the first of its page, where the grid list
    /// must be re-captured.
    pub fn is_page_first_artifact(&self, cur_index: i64) -> (b: bool)
        requires
            self.wf(),
            0 <= cur_index,
        ensures
            b == spec_page_first(
                cur_index as int,
                self.window_info.row as int,
                self.window_info.col as int,
            ),
    {
        proof {
            assert(0 < self.window_info.col * self.window_info.row <= GRID_BOUND * GRID_BOUND)
                by (nonlinear_arith)
                requires
                    0 < self.window_info.col <= GRID_BOUND,
                    0 < self.window_info.row <= GRID_BOUND,
            ;
            assert(self.window_info.col * self.window_info.row == self.window_info.row
                * self.window_info.col) by (nonlinear_arith);
        }
        let page_size = self.window_info.col * self.window_info.row;
        cur_index % page_size == 0
    }

    /// The start row of the page holding `cur_index` out of `max_count`
    /// cells: zero while a full page remains, else the bottom rows align
    /// with what is left.
    pub fn get_start_row(&self, max_count: i64, cur_index: i64) -> (r: i64)
        requires
            self.wf(),
            0 <= cur_index <= max_count,
            max_count <= i64::MAX / 2,
        ensures
            r == spec_start_row(
                max_count as int,
                cur_index as int,
                self.window_info.row as int,
                self.window_info.col as int,
            ),
            max_count - cur_index >= self.window_info.row * self.window_info.col ==> r == 0,
            0 <= r <= self.window_info.row,
    {
        start_row_for(max_count, cur_index, self.window_info.row, self.window_info.col)
    }

    /// The screen region holding the grid list for the page of
    /// `cur_index`: the window below the scan margin, shifted down by the
    /// start row's worth of cells.
    pub fn list_capture_rect(&self, max_count: i64, cur_index: i64) -> (r: Rect)
        requires
            self.wf(),
            0 <= cur_index <= max_count,
            max_count <= MAX_COUNT,
        ensures
            ({
                let start_row = spec_start_row(
                    max_count as int,
                    cur_index as int,
                    self.window_info.row as int,
                    self.window_info.col as int,
                );
                let shift = (self.window_info.item_gap_size.height as int
                    + self.window_info.item_size.height as int) * start_row;
                &&& r.left == self.game_info.window.left + self.window_info.scan_margin_pos.x
                &&& r.top == self.game_info.window.top + self.window_info.scan_margin_pos.y
                    + shift
                &&& r.width == self.game_info.window.width - self.window_info.scan_margin_pos.x
                &&& r.height == self.game_info.window.height - self.window_info.scan_margin_pos.y
                    - shift
            }),
    {
        let start_row = self.get_start_row(max_count, cur_index);
        proof {
            assert((self.window_info.item_gap_size.height + self.window_info.item_size.height)
                * start_row < 0x4000_0000_0000_0000 && (self.window_info.item_gap_size.height
                + self.window_info.item_size.height) * start_row > -0x4000_0000_0000_0000)
                by (nonlinear_arith)
                requires
                    -SCALED_BOUND < self.window_info.item_gap_size.height < SCALED_BOUND,
                    -SCALED_BOUND < self.window_info.item_size.height < SCALED_BOUND,
                    0 <= start_row <= GRID_BOUND,
                    SCALED_BOUND == 0x100_0000i64 * 0x10_0000,
                    GRID_BOUND == 256,
            ;
        }
        let shift = (self.window_info.item_gap_size.height + self.window_info.item_size.height)
            * start_row;
        Rect {
            left: self.game_info.window.left + self.window_info.scan_margin_pos.x,
            top: self.game_info.window.top + self.window_info.scan_margin_pos.y + shift,
            width: self.game_info.window.width - self.window_info.scan_margin_pos.x,
            height: self.game_info.window.height - self.window_info.scan_margin_pos.y - shift,
        }
    }

    /// Whether a sampled tier ends the traversal early: the grid is
    /// rarity-sorted, so one below-floor cell means all the rest are too.
    pub fn star_below_floor(&self, star: usize) -> (b: bool)
        requires
            star <= 5,
        ensures
            b == ((star as int) < self.scanner_config.min_star as int),
    {
        (star as i32) < self.scanner_config.min_star
    }
}

} // verus!

verus! {

/// Level filtering keeps membership, the level floor, and content
/// uniqueness.
proof fn lemma_filter_level_props(s: Seq<GenshinArtifactScanResult>, min_level: int)
    ensures
        forall|k: int|
            0 <= k < spec_filter_level(s, min_level).len() ==> (#[trigger] spec_filter_level(
                s,
                min_level,
            )[k]).level >= min_level,
        forall|k: int|
            0 <= k < spec_filter_level(s, min_level).len() ==> exists|j: int|
                0 <= j < s.len() && #[trigger] spec_filter_level(s, min_level)[k] == s[j],
        content_unique(s) ==> content_unique(spec_filter_level(s, min_level)),
    decreases s.len(),
{
    if s.len() > 0 {
        lemma_filter_level_props(s.drop_last(), min_level);
        let f0 = spec_filter_level(s.drop_last(), min_level);
        let f = spec_filter_level(s, min_level);
        assert(forall|j: int| 0 <= j < s.drop_last().len() ==> #[trigger] s.drop_last()[j]
            == s[j]);
        if content_unique(s) {
            assert(content_unique(s.drop_last()));
        }
        if s.last().level >= min_level {
            assert(f == f0.push(s.last()));
            assert forall|k: int| 0 <= k < f.len() implies exists|j: int|
                0 <= j < s.len() && #[trigger] f[k] == s[j] by {
                if k < f0.len() {
                    assert(f[k] == f0[k]);
                    let j = choose|j: int| 0 <= j < s.drop_last().len() && f0[k] == s.drop_last()[j];
                    assert(f[k] == s[j]);
                } else {
                    assert(f[k] == s.last());
                    assert(s.last() == s[s.len() - 1]);
                }
            }
            if content_unique(s) {
                assert forall|i: int, j: int| 0 <= i < j < f.len() implies (#[trigger] f[i]).content()
                    != (#[trigger] f[j]).content() by {
                    if j < f0.len() {
                        assert(f[i] == f0[i] && f[j] == f0[j]);
                    } else {
                        assert(f[i] == f0[i]);
                        let j2 = choose|j2: int|
                            0 <= j2 < s.drop_last().len() && f0[i] == s.drop_last()[j2];
                        assert(f[i] == s[j2]);
                        assert(f[j] == s[s.len() - 1]);
                        assert(s[j2].content() != s[s.len() - 1].content());
                    }
                }
            }
        } else {
            assert(f == f0);
        }
    }
}

impl<M: ImageToText<RgbBitmap>, C: Capturer<RgbBitmap>> GenshinArtifactScanner<M, C> {
    /// Run one whole synchronous session: read the cell count, walk the
    /// grid, capture and classify each cell, stop early below the rarity
    /// floor (or on the worker's stop conditions), and return the kept
    /// records with the final level floor applied.  Whatever the captures
    /// and the model returned, the records come back unique by content and
    /// at or above the level floor.  Configuration and capture failures
    /// abort the session.
    pub fn scan<M2: ImageToText<RgbBitmap>>(&self, worker: &ArtifactScannerWorker<M2>) -> (r:
        Result<Vec<GenshinArtifactScanResult>, ScanError>)
        requires
            self.wf(),
            worker.wf(),
            worker.window_info == self.window_info,
        ensures
            r matches Ok(v) ==> {
                &&& content_unique(v@)
                &&& forall|k: int|
                    0 <= k < v@.len() ==> (#[trigger] v@[k]).level
                        >= self.scanner_config.min_level
            },
    {
        let count = match self.get_item_count() {
            Ok(c) => c,
            Err(e) => {
                return Err(e);
            },
        };
        let mut controller = self.make_controller(count);
        let mut state = WorkerState::new();
        let mut running = true;
        while running
            invariant
                self.wf(),
                worker.wf(),
                worker.window_info == self.window_info,
                controller.wf(),
                controller.spec_count() == count,
                controller.spec_row() == self.window_info.row,
                controller.spec_col() == self.window_info.col,
                0 <= count <= MAX_COUNT,
                state.wf(),
                state.artifact_index <= controller.spec_cursor(),
                content_unique(state.results@),
            decreases (count - controller.spec_cursor()) + (if running {
                1int
            } else {
                0int
            }),
        {
            match controller.step(false) {
                ControllerStep::Yielded(cp) => {
                    let panel = match self.capture_panel() {
                        Ok(im) => im,
                        Err(e) => {
                            return Err(e);
                        },
                    };
                    if !panel.is_well_formed() {
                        return Err(ScanError::Capture);
                    }
                    let star = match self.get_star() {
                        Ok(s) => s,
                        Err(e) => {
                            return Err(e);
                        },
                    };
                    let list_image = if self.is_page_first_artifact(cp.index) {
                        let region = self.list_capture_rect(count as i64, cp.index);
                        match self.capturer.capture_rect(region) {
                            Ok(im) => {
                                if !im.is_well_formed() {
                                    return Err(ScanError::Capture);
                                }
                                Some(im)
                            },
                            Err(e) => {
                                return Err(e);
                            },
                        }
                    } else {
                        None
                    };
                    if self.star_below_floor(star) {
                        running = false;
                    } else {
                        let item = SendItem { panel_image: panel, list_image, star };
                        let ghost results0 = state.results@;
                        let outcome = worker.feed(&mut state, item);
                        proof {
                            if state.results@ != results0 {
                                let res = outcome.feedback.unwrap();
                                assert(state.results@ == results0.push(res));
                                assert(!has_content(results0, res.content()));
                                assert forall|i: int, j: int|
                                    0 <= i < j < state.results@.len() implies (
                                #[trigger] state.results@[i]).content() != (
                                #[trigger] state.results@[j]).content() by {
                                    if j < results0.len() {
                                        assert(state.results@[i] == results0[i]);
                                        assert(state.results@[j] == results0[j]);
                                    } else {
                                        assert(state.results@[i] == results0[i]);
                                        assert(state.results@[j] == res);
                                    }
                                }
                            }
                        }
                        match outcome.step {
                            WorkerStep::Continue => {},
                            WorkerStep::Stop(_) => {
                                running = false;
                            },
                        }
                    }
                },
                ControllerStep::Interrupted => {
                    running = false;
                },
                ControllerStep::Finished => {
                    running = false;
                },
            }
        }
        proof {
            lemma_filter_level_props(state.results@, self.scanner_config.min_level as int);
        }
        Ok(filter_by_level(state.results, self.scanner_config.min_level))
    }
}

} // verus!
