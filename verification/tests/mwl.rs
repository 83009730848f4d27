use lib::level_editor::mwl::{
    apply_mwl, bg_ids_from_tilemap, bg_tilemap_from_ids, check_layer2_kind, entrances_to_level, import_entrances,
    validate_mwl, Layer2Kind, MwlError, MwlImport,
};
use lib::level_editor::secondary_entrance::{se_destination_level, se_screen, se_x, se_y};

#[test]
fn background_tilemap_interleaves_low_and_high_blocks() {
    let ids = vec![0x10, 0x11, 0x12, 0x01, 0x00, 0x02];
    let tiles = bg_tilemap_from_ids(&ids);
    assert_eq!(tiles, vec![0x0110, 0x0011, 0x0212]);
    assert_eq!(bg_ids_from_tilemap(&tiles), ids);
}

#[test]
fn odd_background_tilemap_drops_the_last_byte() {
    assert_eq!(bg_tilemap_from_ids(&vec![1, 2, 3]), vec![0x0201]);
    assert_eq!(bg_tilemap_from_ids(&vec![]), Vec::<u16>::new());
}

#[test]
fn tiles_survive_the_rom_layout() {
    let tiles = vec![0xFFFF, 0x0000, 0x1234, 0x00FF];
    assert_eq!(bg_tilemap_from_ids(&bg_ids_from_tilemap(&tiles)), tiles);
}

#[test]
fn exported_entrances_are_those_leading_to_the_level() {
    let data = vec![[0x05, 0x11, 0x22, 0x08], [0x05, 0x33, 0x44, 0x00], [0x06, 0x55, 0x66, 0x08]];
    assert_eq!(entrances_to_level(&data, 0x105), vec![(0, [0x11, 0x22, 0x08])]);
    assert_eq!(entrances_to_level(&data, 0x005), vec![(1, [0x33, 0x44, 0x00])]);
    assert_eq!(entrances_to_level(&data, 0x106), vec![(2, [0x55, 0x66, 0x08])]);
}

#[test]
fn imported_entrances_lead_to_the_new_level() {
    let mut data = vec![[0u8; 4]; 3];
    import_entrances(&mut data, &vec![(1, [0x7A, 0xE5, 0x08]), (9, [1, 2, 3])], 0x024);
    assert_eq!(data[0], [0, 0, 0, 0]);
    assert_eq!(data[1], [0x24, 0x7A, 0xE5, 0x00]);
    assert_eq!(se_destination_level(&data[1]), 0x024);
    assert_eq!(se_screen(&data[1]), 0x05);
    assert_eq!(se_x(&data[1]), 0x07);
    assert_eq!(se_y(&data[1]), 0x0A);
    assert_eq!(data[2], [0, 0, 0, 0]);
}

#[test]
fn export_then_import_into_the_same_level_changes_nothing() {
    let original = vec![[0x05, 0x11, 0x22, 0x08 | 0x41], [0x07, 0x33, 0x44, 0x00]];
    let exported = entrances_to_level(&original, 0x105);
    let mut data = original.clone();
    import_entrances(&mut data, &exported, 0x105);
    assert_eq!(data, original);
}

#[test]
fn layer2_representation_must_match() {
    assert!(check_layer2_kind(Layer2Kind::Objects, Layer2Kind::Objects, 0x105).is_ok());
    assert!(check_layer2_kind(Layer2Kind::Background, Layer2Kind::Background, 0x105).is_ok());
    assert_eq!(
        check_layer2_kind(Layer2Kind::Objects, Layer2Kind::Background, 0x105).unwrap_err(),
        "this .mwl uses a layer 2 background tilemap, but level 105 in the ROM uses layer 2 objects; \
import it over a background-tilemap level instead"
    );
    assert_eq!(
        check_layer2_kind(Layer2Kind::Background, Layer2Kind::Objects, 0x00C).unwrap_err(),
        "this .mwl uses layer 2 objects, but level 00C in the ROM uses a background tilemap; \
import it over a layer-2-objects level instead"
    );
}

fn good_import() -> MwlImport {
    MwlImport {
        layer1_len: 10,
        layer1_parse: Ok(()),
        layer2: Layer2Kind::Objects,
        layer2_len: 6,
        layer2_parse: Ok(()),
        sprites_len: 1,
        sprites_parse: Ok(()),
    }
}

#[test]
fn mwl_checks_run_in_order() {
    assert!(validate_mwl(&good_import(), Some(Layer2Kind::Objects), 0x105).is_ok());
    let mut m = good_import();
    m.layer1_len = 5;
    m.sprites_len = 0;
    assert!(matches!(validate_mwl(&m, Some(Layer2Kind::Objects), 1), Err(MwlError::Layer1TooShort)));
    let mut m = good_import();
    m.layer2_parse = Err("bad".to_string());
    assert!(matches!(validate_mwl(&m, None, 1), Err(MwlError::BadLayer2(msg)) if msg == "bad"));
    let mut m = good_import();
    m.layer2 = Layer2Kind::Background;
    m.layer2_len = 0;
    assert!(matches!(validate_mwl(&m, None, 1), Err(MwlError::LevelOutOfRange)));
    assert!(matches!(validate_mwl(&m, Some(Layer2Kind::Objects), 1), Err(MwlError::Layer2Mismatch(_))));
    let mut m = good_import();
    m.sprites_parse = Err("x".to_string());
    assert!(matches!(validate_mwl(&m, Some(Layer2Kind::Objects), 1), Err(MwlError::BadSprites(_))));
}

#[test]
fn refused_mwl_changes_nothing() {
    let mut data = vec![[1u8, 2, 3, 4]; 2];
    let ents = vec![(1u16, [9u8, 9, 9])];
    let mut m = good_import();
    m.sprites_len = 0;
    assert!(matches!(apply_mwl(&mut data, &m, Some(Layer2Kind::Objects), 0x105, &ents), Err(MwlError::SpritesMissing)));
    assert_eq!(data, vec![[1u8, 2, 3, 4]; 2]);
    assert!(apply_mwl(&mut data, &good_import(), Some(Layer2Kind::Objects), 0x105, &ents).is_ok());
    assert_eq!(data[0], [1, 2, 3, 4]);
    assert_eq!(data[1], [0x05, 9, 9, 9 | 8]);
}
