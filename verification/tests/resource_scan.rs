use lib::resource_scan::{
    gfx_file_label, level_list, level_resources, map16_tiles_of_level, slot_name, LevelScanInputs, ResourceReport,
    ScanOptions, ScanStep, scan_levels, scan_with_progress, ScanCancelled,
};

#[test]
fn gfx_file_labels() {
    assert_eq!(gfx_file_label(0x0E), "GFX file $0E");
    assert_eq!(gfx_file_label(0x80), "ExGFX file $080");
    assert_eq!(gfx_file_label(0xFFF), "ExGFX file $FFF");
}

#[test]
fn slot_names_cover_all_eight() {
    for i in 0..8 {
        assert!(!slot_name(i).is_empty());
    }
}

#[test]
fn slot_names_in_slot_order() {
    let names: Vec<&str> = (0..8).map(slot_name).collect();
    assert_eq!(names, vec!["FG1", "FG2", "FG3", "BG1", "SP1", "SP2", "SP3", "SP4"]);
}

#[test]
fn gfx_label_boundary_below_exgfx() {
    assert_eq!(gfx_file_label(0x7F), "GFX file $7F");
    assert_eq!(gfx_file_label(0x1234), "ExGFX file $1234");
}

#[test]
fn level_lists_are_comma_separated_hex() {
    assert_eq!(level_list(&[]), "");
    assert_eq!(level_list(&[0x105]), "$105");
    assert_eq!(level_list(&[0x1, 0x105, 0x1FF]), "$001, $105, $1FF");
}

#[test]
fn map16_tiles_are_distinct_and_skip_empty_space() {
    let tiles = map16_tiles_of_level(&vec![0, 5, 5, 0x1FF, 0, 3]);
    assert_eq!(tiles.into_iter().collect::<Vec<u16>>(), vec![3, 5, 0x1FF]);
    assert!(map16_tiles_of_level(&vec![0, 0]).is_empty());
}

fn scan_inputs() -> LevelScanInputs {
    let mut obj = vec![[0u8; 4]; 26];
    obj[25] = [1, 2, 3, 4];
    let mut spr = vec![[0u8; 4]; 26];
    spr[2] = [10, 11, 12, 13];
    LevelScanInputs {
        music: 5,
        sprite_ids: vec![3, 3, 9],
        fg_bg_gfx: 30,
        sprite_gfx: 2,
        object_tileset_files: Some(obj),
        sprite_tileset_files: Some(spr),
        bypass: [None, Some(0x80), Some(0xFFFF), None, None, None, None, Some(0x99)],
        bypass_default: 0xFFFF,
        custom_palette: true,
        map16_blocks: Some(vec![0, 5, 5]),
    }
}

#[test]
fn level_summary_resolves_tilesets_and_bypass() {
    let r = level_resources(0x105, ScanOptions::all(), &scan_inputs());
    assert_eq!(r.level, 0x105);
    assert!(r.scanned);
    assert_eq!(r.music, 5);
    assert_eq!(r.sprites.iter().copied().collect::<Vec<u8>>(), vec![3, 9]);
    // The FG/BG tileset is clamped to the last of the 26 table rows.
    assert_eq!((r.fg_tileset, r.sp_tileset), (25, 2));
    assert_eq!(r.fg_files, [1, 0x80, 3, 4]);
    assert_eq!(r.sp_files, [10, 11, 12, 0x99]);
    assert!(r.custom_palette);
    assert!(r.map16_ok);
    assert_eq!(r.map16.iter().copied().collect::<Vec<u16>>(), vec![5]);
}

#[test]
fn level_summary_leaves_unrequested_classes_empty() {
    let none = ScanOptions { sprites: false, map16: false, gfx: false, music: false, palettes: false };
    let r = level_resources(7, none, &scan_inputs());
    assert!(r.scanned);
    assert_eq!(r.music, 0);
    assert!(r.sprites.is_empty());
    assert_eq!((r.fg_tileset, r.sp_tileset), (0, 0));
    assert_eq!(r.fg_files, [0; 4]);
    assert!(!r.custom_palette);
    assert!(!r.map16_ok);
    let mut failed_walk = scan_inputs();
    failed_walk.map16_blocks = None;
    failed_walk.object_tileset_files = None;
    let r = level_resources(7, ScanOptions::all(), &failed_walk);
    assert!(!r.map16_ok);
    assert!(r.map16.is_empty());
    assert_eq!(r.fg_files, [0; 4]);
}

#[test]
fn report_records_levels_in_order_and_counts_them() {
    let mut report = ResourceReport::begin_scan(ScanOptions::all(), Some([1, 2, 3, 4, 5, 6, 7]), vec![0x80]);
    report.record_skipped();
    report.record_scanned(&scan_inputs());
    report.record_skipped();
    assert_eq!(report.per_level.len(), 3);
    assert_eq!(report.levels_scanned, 1);
    assert_eq!(report.levels_skipped, 2);
    assert_eq!(report.per_level[0].level, 0);
    assert!(!report.per_level[0].scanned);
    assert!(report.per_level[0].sprites.is_empty());
    let parsed = &report.per_level[1];
    assert_eq!(parsed.level, 1);
    assert!(parsed.scanned);
    assert_eq!(parsed.music, 5);
    assert_eq!(parsed.sprites.iter().copied().collect::<Vec<u8>>(), vec![3, 9]);
    assert_eq!(report.per_level[2].level, 2);
    assert_eq!(report.submap_music, Some([1, 2, 3, 4, 5, 6, 7]));
    assert_eq!(report.exgfx_installed, vec![0x80]);
}

#[test]
fn switched_off_classes_read_as_empty() {
    let no_gfx_no_music = ScanOptions { sprites: true, map16: true, gfx: false, music: false, palettes: true };
    let mut report = ResourceReport::begin_scan(no_gfx_no_music, Some([1, 2, 3, 4, 5, 6, 7]), vec![0x80, 0x81]);
    report.record_scanned(&scan_inputs());
    assert_eq!(report.submap_music, None);
    assert!(report.unused_exgfx_files().is_empty());
    let mut with_gfx = ResourceReport::begin_scan(ScanOptions::all(), None, vec![0x80, 0x81]);
    with_gfx.record_scanned(&scan_inputs());
    assert!(!with_gfx.unused_exgfx_files().is_empty());
}

#[test]
fn walk_over_all_levels_finishes_after_the_last() {
    let mut report = ResourceReport::begin_scan(ScanOptions::all(), None, vec![]);
    let inputs = scan_inputs();
    let mut progress = Vec::new();
    loop {
        progress.push(report.next_progress());
        let parsed = if report.per_level.len() % 2 == 0 { Some(&inputs) } else { None };
        match report.scan_step(parsed, true) {
            ScanStep::NextLevel => {}
            ScanStep::Finished => break,
            ScanStep::Cancelled => panic!("not cancelled"),
        }
    }
    assert_eq!(report.per_level.len(), 512);
    assert_eq!((report.levels_scanned, report.levels_skipped), (256, 256));
    assert_eq!(progress.first(), Some(&1));
    assert_eq!(progress.last(), Some(&512));
    assert_eq!(report.per_level[511].level, 511);
}

#[test]
fn a_false_progress_answer_cancels_the_walk() {
    let mut report = ResourceReport::begin_scan(ScanOptions::all(), None, vec![]);
    assert_eq!(report.scan_step(None, true), ScanStep::NextLevel);
    assert_eq!(report.scan_step(Some(&scan_inputs()), false), ScanStep::Cancelled);
    assert_eq!(report.per_level.len(), 2);
}

#[test]
fn uncancelled_scan_records_every_level() {
    let parsed: Vec<Option<LevelScanInputs>> =
        (0..512).map(|i| if i % 3 == 0 { Some(scan_inputs()) } else { None }).collect();
    let report = scan_levels(ScanOptions::all(), Some([0; 7]), vec![0x80, 0x81], &parsed);
    assert_eq!(report.per_level.len(), 512);
    assert_eq!(report.levels_scanned, 171);
    assert_eq!(report.levels_skipped, 341);
    assert!(report.per_level[3].scanned && !report.per_level[4].scanned);
    assert_eq!(report.per_level[4].level, 4);
    assert_eq!(report.unused_exgfx_files(), vec![0x81]);
}

#[test]
fn progress_scan_is_cancelled_at_the_first_false_answer() {
    let parsed: Vec<Option<LevelScanInputs>> = (0..512).map(|_| None).collect();
    let mut answers = vec![true; 512];
    answers[300] = false;
    assert_eq!(scan_with_progress(ScanOptions::all(), None, vec![], &parsed, &answers).err(), Some(ScanCancelled));
}

#[test]
fn progress_scan_that_always_goes_on_equals_the_plain_scan() {
    let parsed: Vec<Option<LevelScanInputs>> =
        (0..512).map(|i| if i % 5 == 1 { Some(scan_inputs()) } else { None }).collect();
    let a = scan_with_progress(ScanOptions::all(), None, vec![0x80], &parsed, &vec![true; 512]).unwrap();
    let b = scan_levels(ScanOptions::all(), None, vec![0x80], &parsed);
    assert_eq!((a.levels_scanned, a.levels_skipped), (b.levels_scanned, b.levels_skipped));
    for (x, y) in a.per_level.iter().zip(b.per_level.iter()) {
        assert_eq!((x.level, x.scanned, x.music, &x.sprites, &x.map16), (y.level, y.scanned, y.music, &y.sprites, &y.map16));
        assert_eq!((x.fg_files, x.sp_files), (y.fg_files, y.sp_files));
    }
}
