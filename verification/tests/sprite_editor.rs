use lib::level_editor::secondary_entrance::{parse_se_index, se_flag_badges, SeOptionFlags};
use lib::level_editor::sprite_editor::{
    find_sprite_at, read_sprites_from_wram, sprite_color, sprite_pixel_pos, write_sprites_to_wram, SpriteSpot,
    WRAM_SPRITE_LIST,
};

#[test]
fn sprite_list_round_trips_through_wram() {
    let mut wram = vec![0u8; 0x20000];
    let sprites = vec![[0x10, 0x21, 0x05], [0x00, 0x30, 0x7F]];
    write_sprites_to_wram(&mut wram, &sprites);
    assert_eq!(&wram[WRAM_SPRITE_LIST..WRAM_SPRITE_LIST + 7], &[0x10, 0x21, 0x05, 0x00, 0x30, 0x7F, 0xFF]);
    assert_eq!(read_sprites_from_wram(&wram), sprites);
    // An empty list is just the terminator.
    write_sprites_to_wram(&mut wram, &vec![]);
    assert_eq!(wram[WRAM_SPRITE_LIST], 0xFF);
    assert!(read_sprites_from_wram(&wram).is_empty());
}

#[test]
fn sprite_list_stops_at_the_end_of_wram() {
    let mut wram = vec![0u8; WRAM_SPRITE_LIST + 5];
    // No terminator: the second record would run past the end.
    wram[WRAM_SPRITE_LIST] = 1;
    assert_eq!(read_sprites_from_wram(&wram), vec![[1, 0, 0]]);
    assert!(read_sprites_from_wram(&[]).is_empty());
    // Writing two records keeps only what fits.
    write_sprites_to_wram(&mut wram, &vec![[7, 7, 7], [8, 8, 8]]);
    assert_eq!(&wram[WRAM_SPRITE_LIST..], &[7, 7, 7, 0, 0]);
}

#[test]
fn sprite_anchors_and_hits() {
    let a = SpriteSpot { x_tile: 3, y_tile: 5, screen: 2 };
    assert_eq!(sprite_pixel_pos(a, false), (2 * 256 + 48, 80));
    assert_eq!(sprite_pixel_pos(a, true), (48, 512 + 80));
    let b = SpriteSpot { x_tile: 3, y_tile: 5, screen: 2 };
    let c = SpriteSpot { x_tile: 0, y_tile: 0, screen: 0 };
    let spots = vec![a, c, b];
    // Two sprites on one tile: the later one is on top.
    assert_eq!(find_sprite_at(&spots, 35, 5, false), Some(2));
    assert_eq!(find_sprite_at(&spots, 0, 0, false), Some(1));
    assert_eq!(find_sprite_at(&spots, 36, 5, false), None);
    assert_eq!(find_sprite_at(&spots, 3, 37, true), Some(2));
}

#[test]
fn sprite_overlay_colors() {
    assert_eq!(sprite_color(0), [40, 40, 40, 100]);
    assert_eq!(sprite_color(1), [93, 137, 191, 100]);
}

#[test]
fn secondary_entrance_numbers() {
    assert_eq!(parse_se_index(" 0x1F ", 0x2000), Some(0x1F));
    assert_eq!(parse_se_index("0X1f", 0x2000), Some(0x1F));
    assert_eq!(parse_se_index("31", 0x2000), Some(31));
    assert_eq!(parse_se_index("+7", 0x2000), Some(7));
    assert_eq!(parse_se_index("0x2000", 0x2000), None);
    assert_eq!(parse_se_index("0xZZ", 0x2000), None);
    assert_eq!(parse_se_index("abc", 0x2000), None);
    assert_eq!(parse_se_index("", 0x2000), None);
    assert_eq!(parse_se_index("70000", 0x2000), None);
}

#[test]
fn extended_option_badges() {
    assert_eq!(se_flag_badges(SeOptionFlags::default()), "");
    let all = SeOptionFlags {
        water_level: true,
        exit_to_overworld: true,
        midway_redirect: true,
        face_left: true,
        new_fg_bg_init: true,
    };
    assert_eq!(se_flag_badges(all), "W OW →M FL FG");
    let some = SeOptionFlags { midway_redirect: true, new_fg_bg_init: true, ..SeOptionFlags::default() };
    assert_eq!(se_flag_badges(some), "→M FG");
}
