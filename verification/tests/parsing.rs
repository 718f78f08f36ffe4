//! Text parsing, stat-line structure, and lock-list matching.

use yas_scanner_genshin::artifact::ArtifactStat;
use yas_scanner_genshin::error::{ScanError, ScanField};
use yas_scanner_genshin::lock_list::{LockList, LockListEntry};
use yas_scanner_genshin::parse::{chars_of, parse_level, trim_eq};
use yas_scanner_genshin::scan_result::GenshinArtifactScanResult;
use yas_scanner_genshin::scanner::item_count_from_text;

fn result_with(
    name: &str,
    msn: &str,
    msv: &str,
    subs: [&str; 4],
    level: i32,
    equip: &str,
    lock: bool,
) -> GenshinArtifactScanResult {
    GenshinArtifactScanResult {
        name: name.to_string(),
        main_stat_name: msn.to_string(),
        main_stat_value: msv.to_string(),
        sub_stat: [
            subs[0].to_string(),
            subs[1].to_string(),
            subs[2].to_string(),
            subs[3].to_string(),
        ],
        level,
        equip: equip.to_string(),
        star: 5,
        lock,
    }
}

#[test]
fn chars_of_roundtrip() {
    let v = chars_of("圣遗物a1");
    assert_eq!(v, vec!['圣', '遗', '物', 'a', '1']);
}

#[test]
fn trim_eq_matches_trimmed_strings() {
    assert!(trim_eq("  abc\t", "abc"));
    assert!(trim_eq("", "   "));
    assert!(trim_eq("\u{3000}生命值\u{3000}", "生命值"));
    assert!(!trim_eq("abc", "Abc"));
    assert!(!trim_eq("a b", "ab"));
}

#[test]
fn parse_level_plain_number() {
    assert_eq!(parse_level("16").unwrap(), 16);
    assert_eq!(parse_level("0").unwrap(), 0);
}

#[test]
fn parse_level_after_plus() {
    assert_eq!(parse_level("+16").unwrap(), 16);
    assert_eq!(parse_level("等级+20").unwrap(), 20);
}

#[test]
fn parse_level_failures() {
    assert_eq!(parse_level("abc"), Err(ScanError::Parse(ScanField::Level)));
    assert_eq!(parse_level("+"), Err(ScanError::Parse(ScanField::Level)));
    assert_eq!(parse_level(""), Err(ScanError::Parse(ScanField::Level)));
    assert_eq!(parse_level("12x"), Err(ScanError::Parse(ScanField::Level)));
}

#[test]
fn parse_level_negative_and_overflow() {
    assert_eq!(parse_level("-3").unwrap(), -3);
    assert!(parse_level("99999999999999999999").is_err());
}

#[test]
fn item_count_reads_the_middle_digits() {
    assert_eq!(item_count_from_text("圣遗物371/1800"), 371);
    assert_eq!(item_count_from_text("圣遗物 90/1800"), 90);
}

#[test]
fn item_count_clamps_to_max() {
    assert_eq!(item_count_from_text("圣遗物9999/1800"), 2400);
}

#[test]
fn item_count_defaults_on_unexpected_text() {
    assert_eq!(item_count_from_text("背包371/1800"), 2400);
    assert_eq!(item_count_from_text("圣遗物"), 2400);
    assert_eq!(item_count_from_text("圣遗物abc/1800"), 2400);
    assert_eq!(item_count_from_text(""), 2400);
}

#[test]
fn stat_line_parses_plain_value() {
    let st = ArtifactStat::from_zh_cn_raw("攻击力+311").unwrap();
    assert_eq!(st.name, vec!['攻', '击', '力']);
    assert_eq!(st.value_milli, 311_000);
    assert!(!st.percent);
    assert!(!st.pending);
}

#[test]
fn stat_line_parses_percent_fraction() {
    let st = ArtifactStat::from_zh_cn_raw("暴击伤害+7.8%").unwrap();
    assert_eq!(st.value_milli, 7_800);
    assert!(st.percent);
    assert!(!st.pending);
}

#[test]
fn stat_line_parses_comma_groups() {
    let st = ArtifactStat::from_zh_cn_raw("生命值+5,683").unwrap();
    assert_eq!(st.value_milli, 5_683_000);
    assert!(!st.percent);
}

#[test]
fn stat_line_parses_pending_marker() {
    let st = ArtifactStat::from_zh_cn_raw("防御力+5.8% (待激活)").unwrap();
    assert_eq!(st.value_milli, 5_800);
    assert!(st.percent);
    assert!(st.pending);
}

#[test]
fn stat_line_rejects_malformed_text() {
    assert!(ArtifactStat::from_zh_cn_raw("攻击力311").is_none());
    assert!(ArtifactStat::from_zh_cn_raw("+311").is_none());
    assert!(ArtifactStat::from_zh_cn_raw("攻击力+").is_none());
    assert!(ArtifactStat::from_zh_cn_raw("攻击力+3.1234").is_none());
    assert!(ArtifactStat::from_zh_cn_raw("攻击力+a1").is_none());
    assert!(ArtifactStat::from_zh_cn_raw("").is_none());
}

#[test]
fn lock_list_matches_trimmed_fields() {
    let entry = LockListEntry {
        name: " 杰作的序曲 ".to_string(),
        main_stat_name: "攻击力".to_string(),
        main_stat_value: "311".to_string(),
        sub_stat: [
            "生命值+15.2%".to_string(),
            "暴击伤害+7.8%".to_string(),
            "防御力+65".to_string(),
            "元素精通+35".to_string(),
        ],
    };
    let list = LockList(vec![entry]);
    let hit = result_with(
        "杰作的序曲",
        " 攻击力",
        "311 ",
        ["生命值+15.2%", "暴击伤害+7.8%", "防御力+65", "元素精通+35"],
        20,
        "",
        false,
    );
    assert!(list.contains(&hit));
}

#[test]
fn lock_list_rejects_any_differing_field() {
    let entry = LockListEntry {
        name: "杰作的序曲".to_string(),
        main_stat_name: "攻击力".to_string(),
        main_stat_value: "311".to_string(),
        sub_stat: [
            "生命值+15.2%".to_string(),
            "暴击伤害+7.8%".to_string(),
            "防御力+65".to_string(),
            "元素精通+35".to_string(),
        ],
    };
    let list = LockList(vec![entry]);
    let wrong_value = result_with(
        "杰作的序曲",
        "攻击力",
        "312",
        ["生命值+15.2%", "暴击伤害+7.8%", "防御力+65", "元素精通+35"],
        20,
        "",
        false,
    );
    assert!(!list.contains(&wrong_value));
    let wrong_sub_order = result_with(
        "杰作的序曲",
        "攻击力",
        "311",
        ["暴击伤害+7.8%", "生命值+15.2%", "防御力+65", "元素精通+35"],
        20,
        "",
        false,
    );
    assert!(!list.contains(&wrong_sub_order));
    let inner_space = result_with(
        "杰作的 序曲",
        "攻击力",
        "311",
        ["生命值+15.2%", "暴击伤害+7.8%", "防御力+65", "元素精通+35"],
        20,
        "",
        false,
    );
    assert!(!list.contains(&inner_space));
}

#[test]
fn lock_list_empty_matches_nothing() {
    let list = LockList(vec![]);
    let r = result_with("a", "b", "c", ["d", "e", "f", "g"], 1, "", false);
    assert!(!list.contains(&r));
}

#[test]
fn error_messages_are_nonempty() {
    for e in [
        ScanError::Configuration,
        ScanError::Capture,
        ScanError::Recognition(ScanField::Title),
        ScanError::Parse(ScanField::Level),
        ScanError::ChannelClosed,
        ScanError::Interrupted,
    ] {
        assert!(!e.message().is_empty());
    }
}
