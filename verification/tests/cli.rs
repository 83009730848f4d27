use lib::cli::{arg, level_from_args, list_layer1_objects, parse_level_arg, resolve_rom_path, ObjectRow};
use lib::level_editor::object_layer::RawObject;

#[test]
fn level_numbers_in_decimal_and_hex() {
    assert_eq!(parse_level_arg("0"), Some(0));
    assert_eq!(parse_level_arg("261"), Some(261));
    assert_eq!(parse_level_arg("0x105"), Some(0x105));
    assert_eq!(parse_level_arg("0x1fF"), Some(0x1FF));
    assert_eq!(parse_level_arg("+12"), Some(12));
    assert_eq!(parse_level_arg("0x+A"), Some(10));
    assert_eq!(parse_level_arg("65535"), Some(65535));
}

#[test]
fn bad_level_numbers_are_refused() {
    assert_eq!(parse_level_arg(""), None);
    assert_eq!(parse_level_arg("+"), None);
    assert_eq!(parse_level_arg("0x"), None);
    assert_eq!(parse_level_arg("65536"), None);
    assert_eq!(parse_level_arg("0x10000"), None);
    assert_eq!(parse_level_arg("1F"), None);
    assert_eq!(parse_level_arg("0X1F"), None);
    assert_eq!(parse_level_arg(" 12"), None);
    assert_eq!(parse_level_arg("-1"), None);
    assert_eq!(parse_level_arg("99999999999999999999"), None);
}

fn raw() -> RawObject {
    RawObject::default()
}

#[test]
fn object_listing_tracks_screens_and_counts() {
    let objects = vec![
        RawObject { x: 3, y: 4, standard_object_number: 0x21, settings: 0x12, ..raw() },
        RawObject { is_exit: true, ..raw() },
        RawObject { is_new_screen: true, x: 1, y: 2, settings: 0x40, is_extended: true, ..raw() },
        RawObject { is_screen_jump: true, screen_number: 9, ..raw() },
        RawObject { x: 5, y: 6, standard_object_number: 7, settings: 1, ..raw() },
    ];
    let listing = list_layer1_objects(&objects, false);
    assert_eq!(listing.standard, 2);
    assert_eq!(listing.extended, 1);
    assert_eq!(listing.exits, 1);
    assert_eq!(listing.screen_jumps, 1);
    assert_eq!(
        listing.rows,
        vec![
            ObjectRow { screen: 0, local_x: 3, local_y: 4, abs_x: 3, abs_y: 4, is_extended: false, number: 0x21, settings: 0x12 },
            ObjectRow { screen: 1, local_x: 1, local_y: 2, abs_x: 17, abs_y: 2, is_extended: true, number: 0x40, settings: 0x40 },
            ObjectRow { screen: 9, local_x: 5, local_y: 6, abs_x: 149, abs_y: 6, is_extended: false, number: 7, settings: 1 },
        ]
    );
}

#[test]
fn object_listing_keeps_at_most_25_rows() {
    let objects: Vec<RawObject> = (0..30).map(|i| RawObject { x: i as u8, ..raw() }).collect();
    let listing = list_layer1_objects(&objects, true);
    assert_eq!(listing.rows.len(), 25);
    assert_eq!(listing.standard, 30);
    assert_eq!(listing.rows[24], ObjectRow { screen: 0, local_x: 0, local_y: 24, abs_x: 0, abs_y: 24, is_extended: false, number: 0, settings: 0 });
}

fn args(list: &[&str]) -> Vec<String> {
    list.iter().map(|a| a.to_string()).collect()
}

#[test]
fn option_values_by_equals_or_next_argument() {
    assert_eq!(arg(&args(&["--out=x.png"]), "--out", "d"), "x.png");
    assert_eq!(arg(&args(&["--rom", "a.smc", "--out", "y"]), "--out", "d"), "y");
    assert_eq!(arg(&args(&["--out="]), "--out", "d"), "");
    assert_eq!(arg(&args(&["--out=1", "--out=2"]), "--out", "d"), "1");
}

#[test]
fn option_defaults_when_absent_or_last() {
    assert_eq!(arg(&args(&[]), "--out", "d"), "d");
    assert_eq!(arg(&args(&["--outfile=z"]), "--out", "d"), "d");
    assert_eq!(arg(&args(&["x", "--out"]), "--out", "d"), "d");
}

#[test]
fn headless_level_comes_from_the_first_level_option() {
    assert_eq!(level_from_args(&args(&["editor", "--nogui", "--level=0x105"])), 0x105);
    assert_eq!(level_from_args(&args(&["editor", "--level=20", "--level=30"])), 20);
    assert_eq!(level_from_args(&args(&["editor", "--level=zz"])), 0);
    assert_eq!(level_from_args(&args(&["editor", "--nogui"])), 0);
}

#[test]
fn rom_path_prefers_a_non_empty_rom_option() {
    let env = Some("env.smc".to_string());
    assert_eq!(resolve_rom_path(&args(&["e", "--rom=a.smc"]), env.clone()), Some("a.smc".to_string()));
    assert_eq!(resolve_rom_path(&args(&["e", "--rom="]), env.clone()), Some("env.smc".to_string()));
    assert_eq!(resolve_rom_path(&args(&["e"]), env), Some("env.smc".to_string()));
    assert_eq!(resolve_rom_path(&args(&["e"]), Some(String::new())), None);
    assert_eq!(resolve_rom_path(&args(&["e", "--rom=", "--rom=b.smc"]), None), None);
}
