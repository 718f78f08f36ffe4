//! Geometry resolution, traversal, deduplication, and a full synthetic
//! session.

use std::cell::RefCell;

use yas_scanner_genshin::artifact::{ArtifactSlot, ArtifactStat, GenshinArtifact};
use yas_scanner_genshin::bitmap::{Rgb8, RgbBitmap};
use yas_scanner_genshin::capture::Capturer;
use yas_scanner_genshin::controller::{ControllerStep, RepositoryScanController, start_row_for};
use yas_scanner_genshin::error::ScanError;
use yas_scanner_genshin::export::{GenshinArtifactExportFormat, MonaExtendedFormat};
use yas_scanner_genshin::game_info::{GameInfo, Platform, UI};
use yas_scanner_genshin::geometry::{Pos, Rect, Size};
use yas_scanner_genshin::ocr::ImageToText;
use yas_scanner_genshin::scan_result::GenshinArtifactScanResult;
use yas_scanner_genshin::scanner::{
    filter_by_level, star_of_color, GenshinArtifactScanner, GenshinArtifactScannerConfig,
};
use yas_scanner_genshin::window_info::{
    ArtifactScannerWindowInfo, WindowInfoRepository, WindowInfoType,
};
use yas_scanner_genshin::worker::{
    get_page_locks_from_list_image, ArtifactScannerWorker, SendItem, StopReason, WorkerState,
    WorkerStep,
};

/// A recognition stub that answers from a queue, then with a default.
struct StubModel {
    texts: RefCell<Vec<String>>,
}

impl StubModel {
    fn new(texts: Vec<&str>) -> StubModel {
        StubModel { texts: RefCell::new(texts.iter().map(|s| s.to_string()).collect()) }
    }
}

impl ImageToText<RgbBitmap> for StubModel {
    fn image_to_text(&self, _image: &RgbBitmap, _is_preprocessed: bool) -> Result<String, String> {
        let mut q = self.texts.borrow_mut();
        if q.is_empty() {
            Ok("+20".to_string())
        } else {
            Ok(q.remove(0))
        }
    }

    fn image_to_text_pending_line(&self, _image: &RgbBitmap) -> Result<String, String> {
        self.image_to_text(_image, false)
    }

    fn get_average_inference_time(&self) -> Option<u64> {
        None
    }
}

/// A capture stub that always fails: sessions under test never reach the
/// live screen.
struct NoCapture;

impl Capturer<RgbBitmap> for NoCapture {
    fn capture_rect(&self, _rect: Rect) -> Result<RgbBitmap, ScanError> {
        Err(ScanError::Capture)
    }

    fn capture_relative_to(&self, _rect: Rect, _origin: Pos) -> Result<RgbBitmap, ScanError> {
        Err(ScanError::Capture)
    }

    fn capture_color(&self, _pos: Pos) -> Result<Rgb8, ScanError> {
        Err(ScanError::Capture)
    }
}

fn mp(px: i64) -> i64 {
    px * 1000
}

fn rect(l: i64, t: i64, w: i64, h: i64) -> Rect {
    Rect { left: mp(l), top: mp(t), width: mp(w), height: mp(h) }
}

/// A synthetic resolved window info: a 200x200 panel at the origin, field
/// lines inside it, a 4x5 grid with a 33-pixel pitch.
fn test_window_info() -> ArtifactScannerWindowInfo {
    ArtifactScannerWindowInfo {
        panel_rect: rect(0, 0, 200, 200),
        title_rect: rect(10, 10, 60, 10),
        main_stat_name_rect: rect(10, 30, 60, 10),
        main_stat_value_rect: rect(10, 45, 60, 10),
        level_rect: rect(10, 60, 40, 10),
        item_equip_rect: rect(10, 180, 60, 10),
        item_count_rect: rect(0, 0, 60, 10),
        sub_stat_1: rect(10, 80, 80, 10),
        sub_stat_2: rect(10, 95, 80, 10),
        sub_stat_3: rect(10, 110, 80, 10),
        sub_stat_4: rect(10, 125, 80, 10),
        blessed_frost_detect_rect: rect(100, 10, 8, 8),
        star_pos: Pos { x: mp(20), y: mp(20) },
        artifact_lock_pos: Pos { x: mp(150), y: mp(20) },
        scan_margin_pos: Pos { x: mp(5), y: mp(5) },
        blessed_frost_offset: Pos { x: 0, y: 0 },
        item_gap_size: Size { width: mp(3), height: mp(3) },
        item_size: Size { width: mp(30), height: mp(30) },
        col: 5,
        row: 4,
    }
}

fn test_config(min_star: i32, min_level: i32, ignore_dup: bool) -> GenshinArtifactScannerConfig {
    GenshinArtifactScannerConfig {
        number: 0,
        verbose: false,
        min_level,
        min_star,
        ignore_dup,
        lock_list_path: None,
    }
}

fn blank_panel() -> RgbBitmap {
    RgbBitmap::from_raw(200, 200, vec![40; 3 * 200 * 200]).unwrap()
}

fn blank_list_image() -> RgbBitmap {
    RgbBitmap::from_raw(150, 150, vec![40; 3 * 150 * 150]).unwrap()
}

fn add_rect(repo: &mut WindowInfoRepository, name: &str, r: Rect) {
    repo.add(name, 1600, 900, UI::Desktop, Platform::Windows, WindowInfoType::Rect(r));
}

fn add_pos(repo: &mut WindowInfoRepository, name: &str, p: Pos) {
    repo.add(name, 1600, 900, UI::Desktop, Platform::Windows, WindowInfoType::Pos(p));
}

/// One full calibration at 1600x900: every control the resolver needs.
fn calibrated_repo() -> WindowInfoRepository {
    let mut repo = WindowInfoRepository::new();
    let rw = 1600;
    let rh = 900;
    add_rect(&mut repo, "panel_rect", rect(100, 50, 400, 500));
    add_rect(&mut repo, "title_rect", rect(110, 60, 200, 20));
    add_rect(&mut repo, "main_stat_name_rect", rect(110, 90, 200, 20));
    add_rect(&mut repo, "main_stat_value_rect", rect(110, 115, 200, 20));
    add_rect(&mut repo, "level_rect", rect(110, 140, 100, 20));
    add_rect(&mut repo, "item_equip_rect", rect(110, 500, 200, 20));
    add_rect(&mut repo, "item_count_rect", rect(1200, 20, 200, 25));
    add_rect(&mut repo, "sub_stat_1", rect(110, 170, 250, 20));
    add_rect(&mut repo, "sub_stat_2", rect(110, 195, 250, 20));
    add_rect(&mut repo, "sub_stat_3", rect(110, 220, 250, 20));
    add_rect(&mut repo, "sub_stat_4", rect(110, 245, 250, 20));
    add_rect(&mut repo, "blessed_frost_detect_rect", rect(400, 60, 10, 10));
    add_pos(&mut repo, "star_pos", Pos { x: mp(150), y: mp(80) });
    add_pos(&mut repo, "artifact_lock_pos", Pos { x: mp(450), y: mp(80) });
    add_pos(&mut repo, "scan_margin_pos", Pos { x: mp(30), y: mp(30) });
    add_pos(&mut repo, "blessed_frost_offset", Pos { x: 0, y: mp(25) });
    repo.add(
        "item_gap_size",
        rw,
        rh,
        UI::Desktop,
        Platform::Windows,
        WindowInfoType::Size(Size { width: mp(4), height: mp(4) }),
    );
    repo.add(
        "item_size",
        rw,
        rh,
        UI::Desktop,
        Platform::Windows,
        WindowInfoType::Size(Size { width: mp(120), height: mp(140) }),
    );
    repo.add("col", rw, rh, UI::Desktop, Platform::Windows, WindowInfoType::InvariantInt(5));
    repo.add("row", rw, rh, UI::Desktop, Platform::Windows, WindowInfoType::InvariantInt(4));
    repo
}

fn result_named(name: &str, level: i32, lock: bool) -> GenshinArtifactScanResult {
    GenshinArtifactScanResult {
        name: name.to_string(),
        main_stat_name: "攻击力".to_string(),
        main_stat_value: "311".to_string(),
        sub_stat: [
            "生命值+15.2%".to_string(),
            "暴击伤害+7.8%".to_string(),
            "防御力+65".to_string(),
            "元素精通+35".to_string(),
        ],
        level,
        equip: "".to_string(),
        star: 5,
        lock,
    }
}

#[test]
fn resolve_scales_by_width_ratio_and_keeps_invariants() {
    // Same aspect ratio: every geometry value scales by exactly
    // 1920 / 1600, and the invariant integers are bit-identical.
    let repo = calibrated_repo();
    let game_info = GameInfo {
        window: Rect { left: 0, top: 0, width: mp(1920), height: mp(1080) },
        ui: UI::Desktop,
        platform: Platform::Windows,
    };
    let model = StubModel::new(vec![]);
    let scanner =
        GenshinArtifactScanner::new(&repo, test_config(4, 0, false), game_info, model, NoCapture)
            .unwrap();
    let wi = &scanner.window_info;
    // 100 px = 100000 mp, scaled by 1920/1600 = 1.2.
    assert_eq!(wi.panel_rect, rect(120, 60, 480, 600));
    assert_eq!(wi.star_pos, Pos { x: mp(180), y: mp(96) });
    assert_eq!(wi.item_size, Size { width: mp(144), height: mp(168) });
    assert_eq!(wi.col, 5);
    assert_eq!(wi.row, 4);
}

#[test]
fn resolve_fails_without_matching_calibration() {
    let repo = calibrated_repo();
    let game_info = GameInfo {
        window: Rect { left: 0, top: 0, width: mp(1920), height: mp(1080) },
        ui: UI::Desktop,
        platform: Platform::MacOs,
    };
    let model = StubModel::new(vec![]);
    let r =
        GenshinArtifactScanner::new(&repo, test_config(4, 0, false), game_info, model, NoCapture);
    assert!(matches!(r, Err(ScanError::Configuration)));
}

#[test]
fn repository_add_overwrites_one_key() {
    let mut repo = WindowInfoRepository::new();
    repo.add("col", 1600, 900, UI::Desktop, Platform::Windows, WindowInfoType::InvariantInt(5));
    repo.add("col", 1600, 900, UI::Desktop, Platform::Windows, WindowInfoType::InvariantInt(8));
    assert_eq!(repo.entries.len(), 1);
    repo.add("col", 1280, 720, UI::Desktop, Platform::Windows, WindowInfoType::InvariantInt(5));
    assert_eq!(repo.entries.len(), 2);
}

#[test]
fn start_row_is_zero_while_a_full_page_remains() {
    assert_eq!(start_row_for(100, 0, 4, 5), 0);
    assert_eq!(start_row_for(40, 20, 4, 5), 0);
}

#[test]
fn start_row_aligns_partial_final_page() {
    // 20 items, cursor 17: three remain, one row needed, so the page
    // starts at row 3.
    assert_eq!(start_row_for(20, 17, 4, 5), 3);
    // Ten remaining out of a 4x5 page: two rows needed.
    assert_eq!(start_row_for(20, 10, 4, 5), 2);
}

#[test]
fn page_first_iff_multiple_of_page_size() {
    let repo = calibrated_repo();
    let game_info = GameInfo {
        window: Rect { left: 0, top: 0, width: mp(1600), height: mp(900) },
        ui: UI::Desktop,
        platform: Platform::Windows,
    };
    let model = StubModel::new(vec![]);
    let scanner =
        GenshinArtifactScanner::new(&repo, test_config(4, 0, false), game_info, model, NoCapture)
            .unwrap();
    assert!(scanner.is_page_first_artifact(0));
    assert!(scanner.is_page_first_artifact(20));
    assert!(scanner.is_page_first_artifact(40));
    for i in 1..20 {
        assert!(!scanner.is_page_first_artifact(i));
    }
}

#[test]
fn controller_yields_then_finishes() {
    let mut c = RepositoryScanController::new(2, 4, 5);
    match c.step(false) {
        ControllerStep::Yielded(cp) => {
            assert_eq!(cp.index, 0);
            assert!(!cp.turn_page);
        },
        _ => panic!("expected a checkpoint"),
    }
    match c.step(false) {
        ControllerStep::Yielded(cp) => assert_eq!(cp.index, 1),
        _ => panic!("expected a checkpoint"),
    }
    assert_eq!(c.step(false), ControllerStep::Finished);
}

#[test]
fn controller_observes_interrupts() {
    let mut c = RepositoryScanController::new(10, 4, 5);
    assert!(matches!(c.step(false), ControllerStep::Yielded(_)));
    assert_eq!(c.step(true), ControllerStep::Interrupted);
}

#[test]
fn controller_turns_page_at_boundaries() {
    let mut c = RepositoryScanController::new(45, 4, 5);
    for i in 0..45 {
        match c.step(false) {
            ControllerStep::Yielded(cp) => {
                assert_eq!(cp.index, i);
                assert_eq!(cp.turn_page, i > 0 && i % 20 == 0);
            },
            _ => panic!("expected a checkpoint"),
        }
    }
    assert_eq!(c.step(false), ControllerStep::Finished);
}

#[test]
fn dedup_ignores_the_lock_flag() {
    // Two records with identical content fields and different lock flags
    // are one record for set membership: the second only bumps the
    // consecutive-duplicate counter.
    let mut state = WorkerState::new();
    let a = result_named("杰作的序曲", 20, false);
    let b = result_named("杰作的序曲", 20, true);
    assert!(a.same_content(&b));
    assert_eq!(state.record(a, 0, 5, false), WorkerStep::Continue);
    assert_eq!(state.record(b, 0, 5, false), WorkerStep::Continue);
    assert_eq!(state.results.len(), 1);
    assert_eq!(state.consecutive_dup_count, 1);
}

#[test]
fn five_consecutive_duplicates_stop_consumption() {
    let mut state = WorkerState::new();
    assert_eq!(state.record(result_named("a", 20, false), 0, 5, false), WorkerStep::Continue);
    for i in 0..4 {
        assert_eq!(state.record(result_named("a", 20, false), 0, 5, false), WorkerStep::Continue);
        assert_eq!(state.consecutive_dup_count, i + 1);
    }
    // The fifth consecutive duplicate reaches the column count: stop
    // before any further item is consumed.
    assert_eq!(
        state.record(result_named("a", 20, false), 0, 5, false),
        WorkerStep::Stop(StopReason::DuplicateRun)
    );
    assert_eq!(state.results.len(), 1);
}

#[test]
fn duplicate_run_tolerated_with_override() {
    let mut state = WorkerState::new();
    state.record(result_named("a", 20, false), 0, 5, true);
    for _ in 0..7 {
        assert_eq!(state.record(result_named("a", 20, false), 0, 5, true), WorkerStep::Continue);
    }
}

#[test]
fn fresh_content_resets_the_duplicate_counter() {
    let mut state = WorkerState::new();
    state.record(result_named("a", 20, false), 0, 5, false);
    state.record(result_named("a", 20, false), 0, 5, false);
    assert_eq!(state.consecutive_dup_count, 1);
    state.record(result_named("b", 20, false), 0, 5, false);
    assert_eq!(state.consecutive_dup_count, 0);
    assert_eq!(state.results.len(), 2);
}

#[test]
fn below_floor_level_stops_at_once() {
    let mut state = WorkerState::new();
    assert_eq!(
        state.record(result_named("a", 3, false), 4, 5, false),
        WorkerStep::Stop(StopReason::LevelFloor)
    );
    assert_eq!(state.results.len(), 0);
}

#[test]
fn feed_without_lock_state_reports_the_crash_condition() {
    let model = StubModel::new(vec![]);
    let worker = ArtifactScannerWorker::new(model, test_window_info(), test_config(4, 0, false))
        .unwrap();
    let mut state = WorkerState::new();
    let item = SendItem { panel_image: blank_panel(), list_image: None, star: 5 };
    let outcome = worker.feed(&mut state, item);
    assert_eq!(outcome.step, WorkerStep::Stop(StopReason::MissingLockState));
    assert!(outcome.feedback.is_none());
}

#[test]
fn scenario_rarity_floor_stops_after_three() {
    // A session with rarity floor 4 and sampled tiers [5, 5, 4, 3] yields
    // exactly 3 records and never processes the fourth capture.
    let texts = |i: usize| -> Vec<&'static str> {
        match i {
            0 => vec!["物品甲", "攻击力", "311", "生命值+100", "防御力+10", "元素精通+20", "攻击力+311", "+20", ""],
            1 => vec!["物品乙", "攻击力", "311", "生命值+100", "防御力+10", "元素精通+20", "攻击力+311", "+20", ""],
            _ => vec!["物品丙", "攻击力", "311", "生命值+100", "防御力+10", "元素精通+20", "攻击力+311", "+20", ""],
        }
    };
    let config = test_config(4, 0, false);
    let tiers: [usize; 4] = [5, 5, 4, 3];
    let mut state = WorkerState::new();
    let mut processed = 0usize;
    for (i, &tier) in tiers.iter().enumerate() {
        // The driver stops before sending a below-floor item.
        if (tier as i32) < config.min_star {
            break;
        }
        let model = StubModel::new(texts(i));
        let worker =
            ArtifactScannerWorker::new(model, test_window_info(), test_config(4, 0, false))
                .unwrap();
        let item = SendItem {
            panel_image: blank_panel(),
            list_image: if i == 0 { Some(blank_list_image()) } else { None },
            star: tier,
        };
        let outcome = worker.feed(&mut state, item);
        processed += 1;
        assert!(outcome.feedback.is_some());
        assert_eq!(outcome.step, WorkerStep::Continue);
    }
    assert_eq!(processed, 3);
    assert_eq!(state.results.len(), 3);
    assert_eq!(state.results[0].star, 5);
    assert_eq!(state.results[2].star, 4);
}

#[test]
fn page_locks_read_the_icon_color() {
    let wi = test_window_info();
    // Pitch is 33 px; the probe for cell (0, 0) is at (19, 93), for
    // cell (0, 1) at (52, 93).  Paint the icon color near the first.
    let mut data = vec![40u8; 3 * 150 * 150];
    let idx = 3 * (90 * 150 + 19);
    data[idx] = 255;
    data[idx + 1] = 138;
    data[idx + 2] = 117;
    let im = RgbBitmap::from_raw(150, 150, data).unwrap();
    let locks = get_page_locks_from_list_image(&im, &wi);
    // All 4 rows of 5 cells are visible in a 150-px-tall capture.
    assert_eq!(locks.len(), 20);
    assert!(locks[0]);
    assert!(locks.iter().skip(1).all(|&b| !b));
}

#[test]
fn marker_block_detection_needs_coverage() {
    let config = test_config(4, 0, false);
    let mut wi = test_window_info();
    wi.blessed_frost_offset = Pos { x: 0, y: mp(25) };
    let model = StubModel::new(vec![]);
    let worker = ArtifactScannerWorker::new(model, wi, config).unwrap();
    // A panel without the marker color.
    assert!(!worker.has_blessed_frost_mark(&blank_panel()));
    // Fill the detect region (panel-local 100..108 x 10..18) with the
    // marker color.
    let mut data = vec![40u8; 3 * 200 * 200];
    for y in 10..18 {
        for x in 100..108 {
            let idx = 3 * (y * 200 + x);
            data[idx] = 220;
            data[idx + 1] = 192;
            data[idx + 2] = 255;
        }
    }
    let marked = RgbBitmap::from_raw(200, 200, data).unwrap();
    assert!(worker.has_blessed_frost_mark(&marked));
}

#[test]
fn star_classification_matches_the_palette() {
    assert_eq!(star_of_color(&Rgb8 { r: 113, g: 119, b: 139 }), 1);
    assert_eq!(star_of_color(&Rgb8 { r: 42, g: 143, b: 114 }), 2);
    assert_eq!(star_of_color(&Rgb8 { r: 81, g: 127, b: 203 }), 3);
    assert_eq!(star_of_color(&Rgb8 { r: 161, g: 86, b: 224 }), 4);
    assert_eq!(star_of_color(&Rgb8 { r: 188, g: 105, b: 50 }), 5);
    // Near-misses classify to the nearest reference color.
    assert_eq!(star_of_color(&Rgb8 { r: 190, g: 100, b: 55 }), 5);
}

#[test]
fn filter_by_level_keeps_order() {
    let v = vec![
        result_named("a", 20, false),
        result_named("b", 3, false),
        result_named("c", 16, false),
    ];
    let kept = filter_by_level(v, 4);
    assert_eq!(kept.len(), 2);
    assert_eq!(kept[0].name, "a");
    assert_eq!(kept[1].name, "c");
}

#[test]
fn export_groups_by_slot() {
    let stat = || ArtifactStat {
        name: vec!['攻', '击', '力'],
        value_milli: 311_000,
        percent: false,
        pending: false,
    };
    let art = |slot: ArtifactSlot| GenshinArtifact {
        set_name: "角斗士的终幕礼".to_string(),
        slot,
        main_stat: stat(),
        sub_stat_1: Some(stat()),
        sub_stat_2: None,
        sub_stat_3: None,
        sub_stat_4: None,
        level: 20,
        star: 5,
        equip: None,
    };
    let fmt = MonaExtendedFormat::new(vec![
        art(ArtifactSlot::Flower),
        art(ArtifactSlot::Goblet),
        art(ArtifactSlot::Flower),
        art(ArtifactSlot::Head),
    ]);
    assert_eq!(fmt.version, "1");
    assert_eq!(fmt.flower.len(), 2);
    assert_eq!(fmt.cup.len(), 1);
    assert_eq!(fmt.head.len(), 1);
    assert_eq!(fmt.feather.len(), 0);
    assert_eq!(fmt.sand.len(), 0);
}

#[test]
fn export_format_defaults_to_mona() {
    assert_eq!(GenshinArtifactExportFormat::default(), GenshinArtifactExportFormat::Mona);
}

#[test]
fn config_number_overrides_the_count() {
    let repo = calibrated_repo();
    let game_info = GameInfo {
        window: Rect { left: 0, top: 0, width: mp(1600), height: mp(900) },
        ui: UI::Desktop,
        platform: Platform::Windows,
    };
    let mut config = test_config(4, 0, false);
    config.number = 150;
    let model = StubModel::new(vec![]);
    let scanner =
        GenshinArtifactScanner::new(&repo, config, game_info, model, NoCapture).unwrap();
    assert_eq!(scanner.get_item_count().unwrap(), 150);
    // Clamped to the session maximum.
    let mut config2 = test_config(4, 0, false);
    config2.number = 100000;
    let model2 = StubModel::new(vec![]);
    let scanner2 = GenshinArtifactScanner::new(
        &calibrated_repo(),
        config2,
        game_info,
        model2,
        NoCapture,
    )
    .unwrap();
    assert_eq!(scanner2.get_item_count().unwrap(), 2400);
}

#[test]
fn item_count_capture_failure_is_a_capture_error() {
    let repo = calibrated_repo();
    let game_info = GameInfo {
        window: Rect { left: 0, top: 0, width: mp(1600), height: mp(900) },
        ui: UI::Desktop,
        platform: Platform::Windows,
    };
    let model = StubModel::new(vec![]);
    let scanner =
        GenshinArtifactScanner::new(&repo, test_config(4, 0, false), game_info, model, NoCapture)
            .unwrap();
    assert_eq!(scanner.get_item_count(), Err(ScanError::Capture));
    assert_eq!(scanner.get_star(), Err(ScanError::Capture));
}

#[test]
fn scan_panel_image_reports_recognition_failures() {
    struct FailingModel;
    impl ImageToText<RgbBitmap> for FailingModel {
        fn image_to_text(&self, _i: &RgbBitmap, _p: bool) -> Result<String, String> {
            Err("no model".to_string())
        }
        fn image_to_text_pending_line(&self, _i: &RgbBitmap) -> Result<String, String> {
            Err("no model".to_string())
        }
        fn get_average_inference_time(&self) -> Option<u64> {
            None
        }
    }
    let worker =
        ArtifactScannerWorker::new(FailingModel, test_window_info(), test_config(4, 0, false))
            .unwrap();
    let r = worker.scan_panel_image(&blank_panel(), false);
    assert!(matches!(r, Err(ScanError::Recognition(_))));
}

#[test]
fn scan_item_image_requires_a_parsable_level() {
    let texts =
        vec!["物品甲", "攻击力", "311", "生命值+100", "防御力+10", "元素精通+20", "攻击力+311", "等级", ""];
    let model = StubModel::new(texts);
    let worker = ArtifactScannerWorker::new(model, test_window_info(), test_config(4, 0, false))
        .unwrap();
    let r = worker.scan_panel_image(&blank_panel(), false);
    assert!(matches!(
        r,
        Err(ScanError::Parse(yas_scanner_genshin::error::ScanField::Level))
    ));
}

#[test]
fn feed_hands_the_lock_flag_to_the_record() {
    // Paint the lock icon at the first cell's probe position: the first
    // record comes back flagged as already locked.
    let mut data = vec![40u8; 3 * 150 * 150];
    let idx = 3 * (93 * 150 + 19);
    data[idx] = 255;
    data[idx + 1] = 138;
    data[idx + 2] = 117;
    let list = RgbBitmap::from_raw(150, 150, data).unwrap();
    let model = StubModel::new(vec![]);
    let worker = ArtifactScannerWorker::new(model, test_window_info(), test_config(4, 0, false))
        .unwrap();
    let mut state = WorkerState::new();
    let item = SendItem { panel_image: blank_panel(), list_image: Some(list), star: 5 };
    let outcome = worker.feed(&mut state, item);
    let res = outcome.feedback.expect("a record");
    assert!(res.lock);
    let second = SendItem { panel_image: blank_panel(), list_image: None, star: 5 };
    let model2 = StubModel::new(vec![]);
    let worker2 = ArtifactScannerWorker::new(model2, test_window_info(), test_config(4, 0, false))
        .unwrap();
    let outcome2 = worker2.feed(&mut state, second);
    assert!(!outcome2.feedback.expect("a record").lock);
}

#[test]
fn feed_stops_on_a_full_duplicate_row() {
    // Six identical captures with col = 5: the first is kept, and the
    // fifth consecutive duplicate stops consumption.
    let mut state = WorkerState::new();
    let mut last_step = WorkerStep::Continue;
    for i in 0..6 {
        let model = StubModel::new(vec![
            "同一物品", "攻击力", "311", "生命值+100", "防御力+10", "元素精通+20", "攻击力+311",
            "+20", "",
        ]);
        let worker =
            ArtifactScannerWorker::new(model, test_window_info(), test_config(4, 0, false))
                .unwrap();
        let item = SendItem {
            panel_image: blank_panel(),
            list_image: if i == 0 { Some(blank_list_image()) } else { None },
            star: 5,
        };
        let outcome = worker.feed(&mut state, item);
        assert!(outcome.feedback.is_some());
        last_step = outcome.step;
        if i < 5 {
            assert_eq!(last_step, WorkerStep::Continue);
        }
    }
    assert_eq!(last_step, WorkerStep::Stop(StopReason::DuplicateRun));
    assert_eq!(state.results.len(), 1);
}

#[test]
fn worker_rejects_degenerate_grids() {
    let mut wi = test_window_info();
    wi.col = 0;
    let model = StubModel::new(vec![]);
    let r = ArtifactScannerWorker::new(model, wi, test_config(4, 0, false));
    assert!(matches!(r, Err(ScanError::Configuration)));
}

#[test]
fn config_duplicate_copies_every_field() {
    let mut c = test_config(4, 2, true);
    c.lock_list_path = Some("locks.json".to_string());
    let d = c.duplicate();
    assert_eq!(d.min_star, 4);
    assert_eq!(d.min_level, 2);
    assert!(d.ignore_dup);
    assert_eq!(d.lock_list_path.as_deref(), Some("locks.json"));
}

/// A capture stub that serves flat regions of the requested size and the
/// five-star reference color.
struct FlatCapture;

fn flat_of(rect: Rect) -> Result<RgbBitmap, ScanError> {
    let w = (rect.width / 1000).max(1) as u32;
    let h = (rect.height / 1000).max(1) as u32;
    RgbBitmap::from_raw(w, h, vec![40; 3 * (w as usize) * (h as usize)])
        .ok_or(ScanError::Capture)
}

impl Capturer<RgbBitmap> for FlatCapture {
    fn capture_rect(&self, rect: Rect) -> Result<RgbBitmap, ScanError> {
        flat_of(rect)
    }

    fn capture_relative_to(&self, rect: Rect, _origin: Pos) -> Result<RgbBitmap, ScanError> {
        flat_of(rect)
    }

    fn capture_color(&self, _pos: Pos) -> Result<Rgb8, ScanError> {
        Ok(Rgb8 { r: 188, g: 105, b: 50 })
    }
}

#[test]
fn synchronous_scan_returns_unique_records() {
    let repo = calibrated_repo();
    let game_info = GameInfo {
        window: Rect { left: 0, top: 0, width: mp(1600), height: mp(900) },
        ui: UI::Desktop,
        platform: Platform::Windows,
    };
    let mut config = test_config(4, 0, false);
    config.number = 2;
    let scanner = GenshinArtifactScanner::new(
        &repo,
        config,
        game_info,
        StubModel::new(vec![]),
        FlatCapture,
    )
    .unwrap();
    let worker_model = StubModel::new(vec![
        "物品甲", "攻击力", "311", "生命值+100", "防御力+10", "元素精通+20", "攻击力+311", "+20",
        "", "物品乙", "攻击力", "311", "生命值+100", "防御力+10", "元素精通+20", "攻击力+311",
        "+16", "",
    ]);
    let worker = ArtifactScannerWorker::new(
        worker_model,
        scanner.window_info,
        scanner.scanner_config.duplicate(),
    )
    .unwrap();
    let results = scanner.scan(&worker).unwrap();
    assert_eq!(results.len(), 2);
    assert_eq!(results[0].name, "物品甲");
    assert_eq!(results[1].name, "物品乙");
    assert_eq!(results[0].level, 20);
    assert_eq!(results[1].level, 16);
    assert!(results.iter().all(|r| r.star == 5));
}

#[test]
fn synchronous_scan_applies_the_level_floor() {
    let repo = calibrated_repo();
    let game_info = GameInfo {
        window: Rect { left: 0, top: 0, width: mp(1600), height: mp(900) },
        ui: UI::Desktop,
        platform: Platform::Windows,
    };
    let mut config = test_config(1, 10, false);
    config.number = 2;
    let scanner = GenshinArtifactScanner::new(
        &repo,
        config,
        game_info,
        StubModel::new(vec![]),
        FlatCapture,
    )
    .unwrap();
    // The second record's level falls below the floor: it is dropped and
    // the session stops there.
    let worker_model = StubModel::new(vec![
        "物品甲", "攻击力", "311", "生命值+100", "防御力+10", "元素精通+20", "攻击力+311", "+20",
        "", "物品乙", "攻击力", "311", "生命值+100", "防御力+10", "元素精通+20", "攻击力+311",
        "+3", "",
    ]);
    let worker = ArtifactScannerWorker::new(
        worker_model,
        scanner.window_info,
        scanner.scanner_config.duplicate(),
    )
    .unwrap();
    let results = scanner.scan(&worker).unwrap();
    assert_eq!(results.len(), 1);
    assert_eq!(results[0].name, "物品甲");
}

#[test]
fn out_of_bounds_title_region_is_rejected_before_recognition() {
    // A panel smaller than the title rectangle: the library's own bounds
    // check rejects the item as the title's recognition error, and the
    // model is never consulted.
    struct PanicModel;
    impl ImageToText<RgbBitmap> for PanicModel {
        fn image_to_text(&self, _i: &RgbBitmap, _p: bool) -> Result<String, String> {
            panic!("the model must not be consulted for an out-of-bounds region");
        }
        fn get_average_inference_time(&self) -> Option<u64> {
            None
        }
    }
    let worker =
        ArtifactScannerWorker::new(PanicModel, test_window_info(), test_config(4, 0, false))
            .unwrap();
    let tiny = RgbBitmap::from_raw(5, 5, vec![40; 3 * 5 * 5]).unwrap();
    let r = worker.scan_panel_image(&tiny, false);
    assert_eq!(
        r.err(),
        Some(ScanError::Recognition(yas_scanner_genshin::error::ScanField::Title))
    );
}
