use std::collections::BTreeSet;

use lib::resource_report::format_text_report;
use lib::resource_scan::{LevelResources, ResourceReport, ScanOptions};
use lib::resource_scan_view::{
    image_summary_text, level_summary, levels_for, resource_label, summary_text, ResourceClass, ResourceKey,
};

fn scanned_level() -> LevelResources {
    LevelResources {
        level: 0x105,
        scanned: true,
        music: 3,
        sprites: [0x0F, 0xAB].into_iter().collect(),
        map16: [0x0130].into_iter().collect(),
        map16_ok: true,
        fg_tileset: 0,
        sp_tileset: 0,
        fg_files: [0x00, 0x01, 0x13, 0x02],
        sp_files: [0x00, 0x01, 0x80, 0x03],
        custom_palette: false,
    }
}

fn broken_level() -> LevelResources {
    LevelResources {
        level: 0x106,
        scanned: false,
        music: 0,
        sprites: BTreeSet::new(),
        map16: BTreeSet::new(),
        map16_ok: false,
        fg_tileset: 0,
        sp_tileset: 0,
        fg_files: [0; 4],
        sp_files: [0; 4],
        custom_palette: false,
    }
}

fn sample_report() -> ResourceReport {
    ResourceReport {
        per_level: vec![scanned_level(), broken_level()],
        levels_scanned: 1,
        levels_skipped: 1,
        submap_music: Some([1, 2, 3, 4, 5, 6, 7]),
        exgfx_installed: vec![0x80, 0x81],
        options: ScanOptions::all(),
    }
}

fn labels() -> Vec<String> {
    (0..256).map(|t| format!("T{t}")).collect()
}

#[test]
fn text_report_lists_every_section() {
    let text = format_text_report(&sample_report(), &labels());
    let mut expected = String::new();
    expected.push_str("SMW Resource Analysis Report\n");
    expected.push_str("Generated by smw-editor — Tools > Analyze Resources in Levels...\n");
    expected.push_str("(Lunar Magic v3.03 parity; music-track reporting added in LM v3.20)\n");
    expected.push_str("Levels scanned: 1 (1 skipped: unparseable data)\n\n");
    expected.push_str("== Music tracks used in levels ==\n");
    expected.push_str("Track T3 — used by 1 level: $105\n");
    expected.push_str("\n-- Overworld submap music --\n");
    for i in 0..7 {
        expected.push_str(&format!("Submap {i}: SPC track ${:02X}\n", i + 1));
    }
    expected.push('\n');
    expected.push_str("== Sprites used in levels (2 distinct) ==\n");
    expected.push_str("Sprite $0F — used by 1 level: $105\n");
    expected.push_str("Sprite $AB — used by 1 level: $105\n");
    expected.push('\n');
    expected.push_str(
        "== Map16 tiles used in levels (1 distinct; Layer 1 block maps, tile $0000 excluded) ==\n",
    );
    expected.push_str("Tile $0130 — used by 1 level: $105\n");
    expected.push('\n');
    expected.push_str("== GFX/ExGFX files used in levels ==\n");
    expected.push_str("GFX file $00 — used by 1 level (slots FG1/SP1): $105\n");
    expected.push_str("GFX file $01 — used by 1 level (slots FG2/SP2): $105\n");
    expected.push_str("GFX file $02 — used by 1 level (slots BG1): $105\n");
    expected.push_str("GFX file $03 — used by 1 level (slots SP4): $105\n");
    expected.push_str("GFX file $13 — used by 1 level (slots FG3): $105\n");
    expected.push_str("ExGFX file $080 — used by 1 level (slots SP3): $105\n");
    expected.push_str("\nInstalled ExGFX files used by NO level: $081\n");
    expected.push('\n');
    expected.push_str("== Custom palettes (0 levels with a custom palette enabled) ==\n(none)\n\n");
    expected.push_str("== Per-level summary ==\n");
    expected.push_str(
        "Level $105: music T3 · FG1-3/BG1=00/01/13/02 SP1-4=00/01/80/03 · 2 sprites · 1 Map16 tiles\n",
    );
    expected.push_str("Level $106: could not parse\n");
    assert_eq!(text, expected);
}

#[test]
fn text_report_without_classes_keeps_header_and_levels() {
    let mut report = sample_report();
    report.options =
        ScanOptions { sprites: false, map16: false, gfx: false, music: false, palettes: false };
    let text = format_text_report(&report, &labels());
    let expected = "SMW Resource Analysis Report\n\
Generated by smw-editor — Tools > Analyze Resources in Levels...\n\
(Lunar Magic v3.03 parity; music-track reporting added in LM v3.20)\n\
Levels scanned: 1 (1 skipped: unparseable data)\n\n\
== Per-level summary ==\n\
Level $105: \n\
Level $106: could not parse\n";
    assert_eq!(text, expected);
}

#[test]
fn every_installed_exgfx_used_is_reported() {
    let mut report = sample_report();
    report.exgfx_installed = vec![0x80];
    report.options = ScanOptions { sprites: false, map16: false, gfx: true, music: false, palettes: true };
    report.per_level[0].custom_palette = true;
    let text = format_text_report(&report, &labels());
    assert!(text.contains("\nEvery installed ExGFX file is used by at least one level.\n\n"));
    assert!(text.contains("== Custom palettes (1 level with a custom palette enabled) ==\n$105\n\n"));
    assert!(text.contains("Level $105: FG1-3/BG1=00/01/13/02 SP1-4=00/01/80/03 · custom palette\n"));
}

#[test]
fn summary_line_counts_each_class() {
    assert_eq!(
        summary_text(&sample_report()),
        "Scanned 1 levels (1 skipped: unparseable data). 1 music tracks in use. 2 distinct sprites. \
1 distinct Map16 tiles. 6 GFX/ExGFX files referenced. 1 installed ExGFX file unused. \
0 levels with a custom palette."
    );
}

#[test]
fn summary_line_plural_unused_and_no_skips() {
    let mut report = sample_report();
    report.levels_skipped = 0;
    report.exgfx_installed = vec![0x81, 0x90];
    report.options = ScanOptions { sprites: false, map16: false, gfx: true, music: false, palettes: false };
    assert_eq!(
        summary_text(&report),
        "Scanned 1 levels. 6 GFX/ExGFX files referenced. 2 installed ExGFX files unused."
    );
}

#[test]
fn level_rows_of_the_results_window() {
    let report = sample_report();
    assert_eq!(
        level_summary(&report, 0, &labels()),
        "music T3 · FG1-3/BG1 00/01/13/02 · SP1-4 00/01/80/03 · 2 sprites · 1 Map16 tiles"
    );
    assert_eq!(level_summary(&report, 1, &labels()), "could not parse");
    assert_eq!(level_summary(&report, 2, &labels()), "unknown level");
}

#[test]
fn level_row_when_map16_walk_failed() {
    let mut report = sample_report();
    report.per_level[0].map16_ok = false;
    report.options = ScanOptions { sprites: false, map16: true, gfx: false, music: false, palettes: false };
    assert_eq!(level_summary(&report, 0, &labels()), "Map16 walk failed");
}

#[test]
fn resource_labels() {
    let report = sample_report();
    let slots: Vec<String> = (0..8).map(|i| format!("S{i}")).collect();
    assert_eq!(resource_label(&report, ResourceKey::Music(3), &labels(), &slots), "Track T3");
    assert_eq!(resource_label(&report, ResourceKey::Sprite(0x3F), &labels(), &slots), "Sprite $3F");
    assert_eq!(resource_label(&report, ResourceKey::Map16(0x130), &labels(), &slots), "Tile $0130");
    assert_eq!(
        resource_label(&report, ResourceKey::GfxFile(0x80), &labels(), &slots),
        "ExGFX file $080 (S6)"
    );
    assert_eq!(
        resource_label(&report, ResourceKey::GfxFile(0x00), &labels(), &slots),
        "GFX file $00 (S0/S4)"
    );
    assert_eq!(resource_label(&report, ResourceKey::GfxFile(0x55), &labels(), &slots), "GFX file $55");
    assert_eq!(
        resource_label(&report, ResourceKey::CustomPalettes, &labels(), &slots),
        "Levels with a custom palette"
    );
}

#[test]
fn levels_for_each_key() {
    let report = sample_report();
    assert_eq!(levels_for(&report, ResourceKey::Music(3)), vec![0x105]);
    assert_eq!(levels_for(&report, ResourceKey::Music(0)), Vec::<u16>::new());
    assert_eq!(levels_for(&report, ResourceKey::Sprite(0xAB)), vec![0x105]);
    assert_eq!(levels_for(&report, ResourceKey::Map16(0x130)), vec![0x105]);
    assert_eq!(levels_for(&report, ResourceKey::GfxFile(0x13)), vec![0x105]);
    assert_eq!(levels_for(&report, ResourceKey::CustomPalettes), Vec::<u16>::new());
}

#[test]
fn resource_classes_in_picker_order() {
    let labels: Vec<&str> = ResourceClass::all().iter().map(|c| c.label()).collect();
    assert_eq!(labels, vec!["Music tracks", "Sprites", "Map16 tiles", "GFX / ExGFX files", "Custom palettes"]);
}

#[test]
fn used_sets_and_unused_files() {
    let report = sample_report();
    assert_eq!(report.used_music_tracks().into_iter().collect::<Vec<_>>(), vec![3]);
    assert_eq!(report.used_gfx_files().len(), 6);
    assert_eq!(report.unused_exgfx_files(), vec![0x81]);
}

#[test]
fn image_summary_shows_every_count() {
    let mut report = sample_report();
    report.levels_skipped = 0;
    report.options = ScanOptions { sprites: false, map16: false, gfx: true, music: false, palettes: false };
    assert_eq!(
        image_summary_text(&report),
        "Scanned 1 levels. 1 music tracks in use. 2 distinct sprites. 1 distinct Map16 tiles. \
6 GFX/ExGFX files referenced. 0 levels with a custom palette."
    );
}
