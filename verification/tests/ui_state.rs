use lib::level_editor::title_credits::button_summary;
use lib::main_window::{batch_level_range, parse_level_address, parse_level_hex, placement_check, PlacementCheck};
use lib::project_creator::UiProjectCreator;
use lib::tab_viewer::EditorToolTabViewer;

#[test]
fn demo_buttons_in_bit_order() {
    assert_eq!(button_summary(0), "-");
    assert_eq!(button_summary(0x80), "B");
    assert_eq!(button_summary(0x81), "B+Right");
    assert_eq!(button_summary(0xFF), "B+Y+Select+Start+Up+Down+Left+Right");
    assert_eq!(button_summary(0x24), "Select+Down");
}

#[test]
fn typed_rom_path_validation() {
    let mut c = UiProjectCreator::new(vec!["a.smc".to_string()]);
    assert!(!c.can_open());
    c.validate_path(false, false);
    assert_eq!(c.err_base_rom_path, "");
    c.base_rom_path = "smw.smc".to_string();
    c.validate_path(false, false);
    assert_eq!(c.err_base_rom_path, "File 'smw.smc' does not exist.");
    assert!(!c.can_open());
    c.validate_path(true, true);
    assert_eq!(c.err_base_rom_path, "'smw.smc' is a directory, not a file.");
    c.validate_path(true, false);
    assert_eq!(c.err_base_rom_path, "");
    assert!(c.can_open());
    assert_eq!(c.recent_files, vec!["a.smc".to_string()]);
}

#[test]
fn open_failures_are_reported_and_cleared() {
    let mut c = UiProjectCreator::new(Vec::new());
    c.open_failed("bad header");
    assert_eq!(c.err_project_creation, "Error: bad header");
    c.open_succeeded();
    assert_eq!(c.err_project_creation, "");
}

#[test]
fn batch_export_level_numbers() {
    assert_eq!(parse_level_hex("1FF"), Some(0x1FF));
    assert_eq!(parse_level_hex("  0x105 "), Some(0x105));
    assert_eq!(parse_level_hex("$0C"), Some(0x0C));
    assert_eq!(parse_level_hex("#7"), Some(7));
    assert_eq!(parse_level_hex("0x0x$$#1A"), Some(0x1A));
    assert_eq!(parse_level_hex("$0x1A"), None);
    assert_eq!(parse_level_hex(""), None);
    assert_eq!(parse_level_hex("G"), None);
}

#[test]
fn batch_export_range_checks() {
    assert_eq!(batch_level_range("000", "1FF"), Ok((0, 0x1FF)));
    assert_eq!(batch_level_range("105", "105"), Ok((0x105, 0x105)));
    assert_eq!(
        batch_level_range("106", "105"),
        Err("Range must satisfy 000 ≤ from ≤ to ≤ 1FF.".to_string())
    );
    assert_eq!(
        batch_level_range("000", "200"),
        Err("Range must satisfy 000 ≤ from ≤ to ≤ 1FF.".to_string())
    );
    assert_eq!(
        batch_level_range("xyz", "105"),
        Err("Invalid level range — enter hex numbers like 000 and 1FF.".to_string())
    );
}

#[test]
fn placement_check_outcomes() {
    assert_eq!(placement_check(false, true, 3), (PlacementCheck::Proceed, true));
    assert_eq!(placement_check(true, true, 3), (PlacementCheck::Proceed, false));
    assert_eq!(placement_check(true, false, 0), (PlacementCheck::Proceed, false));
    assert_eq!(placement_check(true, false, 2), (PlacementCheck::Warn, false));
}

#[test]
fn level_address_is_hex_with_optional_prefix() {
    assert_eq!(parse_level_address(" 0x1F2A3 "), Some(0x1F2A3));
    assert_eq!(parse_level_address("1f2a3"), Some(0x1F2A3));
    assert_eq!(parse_level_address("0X10"), Some(0x10));
    assert_eq!(parse_level_address("+A"), Some(10));
    assert_eq!(parse_level_address("FFFFFFFF"), Some(u32::MAX));
    assert_eq!(parse_level_address("100000000"), None);
    assert_eq!(parse_level_address("0x"), None);
    assert_eq!(parse_level_address("xyz"), None);
    assert_eq!(parse_level_address(""), None);
}

#[test]
fn tabs_with_unsaved_changes_stay_open() {
    let viewer = EditorToolTabViewer;
    assert!(!viewer.on_close(true));
    assert!(viewer.on_close(false));
    assert_eq!(viewer.scroll_bars(), [false, false]);
}
