use lib::level_editor::sprite_catalog::{preview_sprite_tileset, sprite_matches_search, sprite_name};

#[test]
fn names_cover_common_sprites() {
    assert_eq!(sprite_name(0x0F), "Goomba");
    assert_eq!(sprite_name(0xAB), "Rex");
    assert_eq!(sprite_name(0xA2), "MechaKoopa");
}

#[test]
fn search_matches_name_and_hex() {
    assert!(sprite_matches_search(0xAB, "rex"));
    assert!(sprite_matches_search(0xAB, "ab"));
    assert!(!sprite_matches_search(0xAB, "goomba"));
}

#[test]
fn preview_tileset_covers_problem_ids() {
    assert_eq!(preview_sprite_tileset(0x0D), Some(0));
    assert_eq!(preview_sprite_tileset(0x20), Some(1));
    assert_eq!(preview_sprite_tileset(0x22), Some(1));
    assert_eq!(preview_sprite_tileset(0x26), Some(1));
    assert_eq!(preview_sprite_tileset(0x3F), Some(0));
    assert_eq!(preview_sprite_tileset(0x37), Some(7));
    assert_eq!(preview_sprite_tileset(0x41), Some(4));
    assert_eq!(preview_sprite_tileset(0x46), Some(2));
    assert_eq!(preview_sprite_tileset(0xBE), Some(3));
    assert_eq!(preview_sprite_tileset(0xC2), Some(4));
    assert_eq!(preview_sprite_tileset(0xC5), Some(7));
    assert_eq!(preview_sprite_tileset(0x60), Some(11));
    assert_eq!(preview_sprite_tileset(0x29), Some(13));
    assert_eq!(preview_sprite_tileset(0x51), Some(14));
    assert_eq!(preview_sprite_tileset(0x0F), None);
}

#[test]
fn unknown_and_spawn_names() {
    assert_eq!(sprite_name(0xFE), "Mario (spawn point)");
    assert_eq!(sprite_name(0xC9), "Unknown / unsupported");
    assert_eq!(sprite_name(0x00), "Green Koopa, no shell");
    assert_eq!(sprite_name(0xC8), "Light switch block for dark room");
}

#[test]
fn blank_query_matches_everything() {
    assert!(sprite_matches_search(0x00, ""));
    assert!(sprite_matches_search(0x42, "   \t "));
    assert!(sprite_matches_search(0xFF, "\u{3000}"));
}

#[test]
fn search_trims_and_ignores_ascii_case() {
    assert!(sprite_matches_search(0x0F, "  GOOMBA  "));
    assert!(sprite_matches_search(0x0F, "0f"));
    assert!(sprite_matches_search(0x0F, "0F"));
    assert!(sprite_matches_search(0xA2, "chako"));
    assert!(!sprite_matches_search(0x0F, "goomba x"));
    assert!(!sprite_matches_search(0x0F, "1f"));
}

#[test]
fn search_keeps_inner_whitespace() {
    assert!(sprite_matches_search(0x00, "koopa, no"));
    assert!(!sprite_matches_search(0x00, "koopa,  no"));
}
