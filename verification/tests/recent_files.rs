use lib::recent_files::{add_to_recent, recent_from_stored, recent_with_path, MAX_RECENT_FILES};

fn strings(v: &[&str]) -> Vec<String> {
    v.iter().map(|s| s.to_string()).collect()
}

#[test]
fn opened_path_moves_to_the_front() {
    let recent = strings(&["a.smc", "b.smc", "c.smc"]);
    assert_eq!(add_to_recent(&recent, "b.smc"), strings(&["b.smc", "a.smc", "c.smc"]));
    assert_eq!(add_to_recent(&recent, "d.smc"), strings(&["d.smc", "a.smc", "b.smc", "c.smc"]));
    assert_eq!(add_to_recent(&vec![], "x.smc"), strings(&["x.smc"]));
}

#[test]
fn paths_compare_by_component() {
    let recent = strings(&["roms/smw.smc", "other.smc"]);
    assert_eq!(add_to_recent(&recent, "roms//smw.smc"), strings(&["roms//smw.smc", "other.smc"]));
}

#[test]
fn list_keeps_the_ten_most_recent() {
    let recent: Vec<String> = (0..MAX_RECENT_FILES).map(|i| format!("{i}.smc")).collect();
    let out = add_to_recent(&recent, "new.smc");
    assert_eq!(out.len(), MAX_RECENT_FILES);
    assert_eq!(out[0], "new.smc");
    assert_eq!(out[1], "0.smc");
    assert_eq!(out[9], "8.smc");
}

#[test]
fn flagged_entries_are_dropped() {
    let recent = strings(&["a", "b", "c"]);
    assert_eq!(recent_with_path(&recent, "z", &vec![true, false, true]), strings(&["z", "b"]));
    assert_eq!(recent_with_path(&recent, "z", &vec![false, false, false]), strings(&["z", "a", "b", "c"]));
}

#[test]
fn loaded_list_keeps_existing_files_only() {
    let stored = strings(&["a.smc", "gone.smc", "b.smc"]);
    assert_eq!(recent_from_stored(&stored, &vec![true, false, true]), strings(&["a.smc", "b.smc"]));
    assert_eq!(recent_from_stored(&stored, &vec![false, false, false]), Vec::<String>::new());
    let many: Vec<String> = (0..12).map(|i| format!("{i}.smc")).collect();
    let loaded = recent_from_stored(&many, &vec![true; 12]);
    assert_eq!(loaded.len(), MAX_RECENT_FILES);
    assert_eq!(loaded[9], "9.smc");
}

#[test]
fn plain_names_differing_in_spelling_are_both_kept() {
    let recent = strings(&["A.smc", "a.smc", "a.smc.bak"]);
    assert_eq!(add_to_recent(&recent, "a.smc"), strings(&["a.smc", "A.smc", "a.smc.bak"]));
}

#[test]
fn absolute_paths_are_compared_by_their_segments() {
    let recent = strings(&["/home/u/b.smc", "/home/u/a.smc", "/home/v/a.smc"]);
    assert_eq!(
        add_to_recent(&recent, "/home/u/a.smc"),
        strings(&["/home/u/a.smc", "/home/u/b.smc", "/home/v/a.smc"])
    );
}

#[test]
fn entries_with_the_same_components_are_dropped() {
    let recent = strings(&["a//b", "a/b/", "a/./b", "./a/b", "/a/b", "c"]);
    assert_eq!(add_to_recent(&recent, "a/b"), strings(&["a/b", "./a/b", "/a/b", "c"]));
}
