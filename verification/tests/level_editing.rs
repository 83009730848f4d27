use lib::level_editor::block_map::{block_id_at, block_map_base, block_map_index, read_u16, read_u24, set_block_id_at};
use lib::level_editor::background_layer::EditableBackgroundLayer;
use lib::level_editor::editing::{
    delete_selected_objects, erase_background_block, erase_object_at, object_at_block, paint_background_block,
    place_object_at, position_mario_at_entrance, remove_selected, BLANK_BLOCK,
};
use lib::level_editor::object_layer::{EditableExit, EditableObject, EditableObjectLayer, RawObject};
use lib::level_editor::sprite_layer::EditableSprite;

fn obj(x: u32, y: u32, settings: u8, is_extended: bool) -> EditableObject {
    EditableObject { x, y, id: 1, settings, is_extended, extended_id: 0 }
}

#[test]
fn topmost_object_under_a_block_wins() {
    let objects = vec![obj(0, 0, 0x33, false), obj(2, 2, 0x00, false), obj(5, 5, 0xFF, true)];
    assert_eq!(object_at_block(&objects, 2, 2), Some(1));
    assert_eq!(object_at_block(&objects, 3, 3), Some(0));
    assert_eq!(object_at_block(&objects, 4, 3), None);
    assert_eq!(object_at_block(&objects, 5, 5), Some(2));
    assert_eq!(object_at_block(&objects, 6, 5), None);
    assert_eq!(object_at_block(&objects, -1, 0), None);
}

#[test]
fn selected_items_are_removed_in_order() {
    let items = vec![10, 11, 12, 13, 14];
    assert_eq!(remove_selected(&items, &vec![1, 3, 9]), vec![10, 12, 14]);
    assert_eq!(remove_selected(&items, &vec![]), items);
    assert_eq!(remove_selected(&items, &vec![4, 0, 2, 1, 3]), Vec::<i32>::new());
}

#[test]
fn mario_moves_to_the_entrance() {
    let mut sprites = vec![
        EditableSprite { x: 1, y: 1, sprite_id: 0x0F, extra_bits: 0 },
        EditableSprite { x: 9, y: 9, sprite_id: 0x00, extra_bits: 2 },
        EditableSprite { x: 7, y: 7, sprite_id: 0x00, extra_bits: 0 },
    ];
    position_mario_at_entrance(&mut sprites, false, 3, 5, 2);
    assert_eq!(sprites[1], EditableSprite { x: 2 * 16 + 6, y: 10, sprite_id: 0x00, extra_bits: 2 });
    assert_eq!(sprites[2], EditableSprite { x: 7, y: 7, sprite_id: 0x00, extra_bits: 0 });
    assert_eq!(sprites.len(), 3);
}

#[test]
fn mario_is_added_first_when_missing() {
    let mut sprites = vec![EditableSprite { x: 1, y: 1, sprite_id: 0x0F, extra_bits: 0 }];
    position_mario_at_entrance(&mut sprites, true, 4, 6, 3);
    // Vertical: screen 3 is column 1, row 1 of screens.
    assert_eq!(sprites[0], EditableSprite { x: 16 + 8, y: 32 + 12, sprite_id: 0, extra_bits: 0 });
    assert_eq!(sprites.len(), 2);
}

#[test]
fn horizontal_block_map_index() {
    assert_eq!(block_map_index(false, true, 1, 0, 0), 0);
    assert_eq!(block_map_index(false, true, 1, 5, 3), 3 * 16 + 5);
    assert_eq!(block_map_index(false, true, 1, 21, 3), 432 + 3 * 16 + 5);
}

#[test]
fn vertical_block_map_index() {
    assert_eq!(block_map_index(true, true, 1, 17, 2), 512 + 2 * 16 + 1);
    assert_eq!(block_map_index(true, true, 1, 3, 33), 2 * 512 + 16 + 3);
}

#[test]
fn background_layer2_wraps_every_two_screens() {
    assert_eq!(block_map_index(false, false, 2, 33, 0), (2 * 432 + 1) % 864);
    assert_eq!(block_map_index(false, true, 2, 33, 0), 2 * 432 + 1);
}

#[test]
fn block_map_bases() {
    assert_eq!(block_map_base(1, true, false), (0x7EC800, 0x7FC800));
    assert_eq!(block_map_base(2, false, false), (0x7EB900, 0x7EBD00));
    assert_eq!(block_map_base(2, true, false), (0x7EC800 + 0x10 * 432, 0x7FC800 + 0x10 * 432));
    assert_eq!(block_map_base(2, true, true), (0x7EC800 + 0x0E * 512, 0x7FC800 + 0x0E * 512));
}

#[test]
fn little_endian_reads() {
    let bytes = [0x01, 0x02, 0x03];
    assert_eq!(read_u16(&bytes, 0), Some(0x0201));
    assert_eq!(read_u16(&bytes, 1), Some(0x0302));
    assert_eq!(read_u16(&bytes, 2), None);
    assert_eq!(read_u24(&bytes, 0), Some(0x030201));
    assert_eq!(read_u24(&bytes, 1), None);
    assert_eq!(read_u16(&bytes, 3), None);
}

fn raw() -> RawObject {
    RawObject::default()
}

#[test]
fn raw_objects_become_layer_entries() {
    let objects = vec![
        RawObject { x: 3, y: 4, standard_object_number: 0x21, settings: 0x12, ..raw() },
        RawObject { is_new_screen: true, x: 1, y: 2, settings: 0x40, is_extended: true, ..raw() },
        RawObject { is_exit: true, screen_number: 1, is_midway: true, exit_id: 0x105, ..raw() },
        RawObject { is_screen_jump: true, screen_number: 7, ..raw() },
        RawObject { x: 0, y: 0, standard_object_number: 5, ..raw() },
    ];
    let layer = EditableObjectLayer::from_objects(&objects, false);
    assert_eq!(
        layer.objects,
        vec![
            EditableObject { x: 3, y: 4, id: 0x21, settings: 0x12, is_extended: false, extended_id: 0x12 },
            EditableObject { x: 16 + 1, y: 2, id: 0, settings: 0x40, is_extended: true, extended_id: 0x40 },
            EditableObject { x: 7 * 16, y: 0, id: 5, settings: 0, is_extended: false, extended_id: 0 },
        ]
    );
    assert_eq!(layer.exits, vec![EditableExit { screen: 1, midway: true, secondary: false, id: 0x105 }]);
}

#[test]
fn vertical_levels_swap_raw_coordinates() {
    let o = RawObject { x: 3, y: 9, standard_object_number: 2, ..raw() };
    assert_eq!(
        EditableObject::from_raw(o, 2, true),
        Some(EditableObject { x: 9, y: 3 + 32, id: 2, settings: 0, is_extended: false, extended_id: 0 })
    );
    assert_eq!(EditableObject::from_raw(RawObject { is_exit: true, ..o }, 0, false), None);
    assert_eq!(EditableExit::from_raw(o), None);
}

#[test]
fn new_screen_flag_saturates_at_screen_255() {
    let mut objects = vec![RawObject { is_screen_jump: true, screen_number: 255, ..raw() }];
    objects.push(RawObject { is_new_screen: true, ..raw() });
    let layer = EditableObjectLayer::from_objects(&objects, true);
    assert_eq!(layer.objects[0].y, 255 * 16);
}

#[test]
fn block_index_inverts_the_horizontal_render_layout() {
    for idx in [0u32, 15, 16, 431, 432, 433, 5000, 512 * 27 - 1] {
        let (screen, sidx) = (idx / 432, idx % 432);
        let (x, y) = (sidx % 16 + screen * 16, sidx / 16);
        assert_eq!(block_map_index(false, true, 1, x, y), idx);
        assert_eq!(block_map_index(false, false, 2, x, y), idx % 864);
    }
    // Vertical levels are drawn in 16x16-block screens but indexed in
    // 16x32-block ones: entry 256 is drawn at block (16, 0), whose index
    // is 512.
    assert_eq!(block_map_index(true, false, 1, 16, 0), 512);
}

#[test]
fn block_ids_are_stored_as_low_byte_and_ninth_bit() {
    let mut wram = vec![0u8; 0x20000];
    // Horizontal level, layer 1, block (17, 3): screen 1, entry 0x1E1.
    set_block_id_at(&mut wram, false, false, 1, 17, 3, 0x1AB);
    assert_eq!(wram[0xC9E1], 0xAB);
    assert_eq!(wram[0x1C9E1], 0x01);
    assert_eq!(wram.iter().filter(|&&b| b != 0).count(), 2);
    assert_eq!(block_id_at(&wram, false, false, 1, 17, 3), Some(0x1AB));
    // Only nine bits are kept.
    set_block_id_at(&mut wram, false, false, 1, 17, 3, 0x2CD);
    assert_eq!(block_id_at(&wram, false, false, 1, 17, 3), Some(0x0CD));
}

#[test]
fn background_layer2_blocks_use_their_own_tables() {
    let mut wram = vec![0u8; 0x20000];
    set_block_id_at(&mut wram, false, false, 2, 0, 0, 0x155);
    assert_eq!(wram[0xB900], 0x55);
    assert_eq!(wram[0xBD00], 0x01);
    // Two horizontal screens further the background repeats.
    assert_eq!(block_id_at(&wram, false, false, 2, 32, 0), Some(0x155));
    assert_eq!(block_id_at(&wram, false, false, 1, 0, 0), Some(0));
}

fn std_obj(x: u32, y: u32, settings: u8) -> EditableObject {
    EditableObject { x, y, id: 0x21, settings, is_extended: false, extended_id: 0 }
}

#[test]
fn placing_an_object_paints_its_footprint() {
    let mut objects = vec![std_obj(0, 0, 0)];
    let mut wram = vec![0u8; 0x20000];
    let idx = place_object_at(&mut objects, &mut wram, false, false, 1, 2, 3, 0x33, 0x21, 0x130);
    assert_eq!(idx, 1);
    assert_eq!(objects[1], EditableObject { x: 2, y: 3, id: 0x33, settings: 0x21, is_extended: false, extended_id: 0 });
    for y in 3..6 {
        for x in 2..4 {
            assert_eq!(block_id_at(&wram, false, false, 1, x, y), Some(0x130));
        }
    }
    assert_eq!(block_id_at(&wram, false, false, 1, 4, 3), Some(0));
    assert_eq!(wram.iter().filter(|&&b| b != 0).count(), 12);
}

#[test]
fn erasing_blanks_the_topmost_object() {
    let mut objects = vec![std_obj(0, 0, 0x11), std_obj(1, 1, 0x00)];
    let mut wram = vec![0u8; 0x20000];
    assert_eq!(erase_object_at(&mut objects, &mut wram, false, false, 1, 1, 1), Some(1));
    assert_eq!(objects, vec![std_obj(0, 0, 0x11)]);
    assert_eq!(block_id_at(&wram, false, false, 1, 1, 1), Some(BLANK_BLOCK));
    assert_eq!(block_id_at(&wram, false, false, 1, 0, 0), Some(0));
    assert_eq!(erase_object_at(&mut objects, &mut wram, false, false, 1, 5, 5), None);
    assert_eq!(objects.len(), 1);
}

#[test]
fn deleting_the_selection_blanks_each_selected_footprint() {
    let mut objects = vec![std_obj(0, 0, 0x00), std_obj(4, 2, 0x10), std_obj(8, 8, 0x00)];
    let mut wram = vec![0u8; 0x20000];
    delete_selected_objects(&mut objects, &mut wram, false, false, 1, &vec![1, 7]);
    assert_eq!(objects, vec![std_obj(0, 0, 0x00), std_obj(8, 8, 0x00)]);
    assert_eq!(block_id_at(&wram, false, false, 1, 4, 2), Some(BLANK_BLOCK));
    assert_eq!(block_id_at(&wram, false, false, 1, 4, 3), Some(BLANK_BLOCK));
    assert_eq!(wram.iter().filter(|&&b| b != 0).count(), 2);
}

#[test]
fn background_blocks_are_painted_and_erased() {
    let mut bg = EditableBackgroundLayer::new(vec![0u8; 864]);
    let mut wram = vec![0u8; 0x20000];
    paint_background_block(&mut bg, &mut wram, false, false, 2, 3, 1, 0x1C5);
    // Ids above a byte are cut to 0xFF.
    assert_eq!(bg.tile_ids[19], 0xFF);
    assert_eq!(block_id_at(&wram, false, false, 2, 3, 1), Some(0xFF));
    erase_background_block(&mut bg, &mut wram, false, false, 2, 3, 1);
    assert_eq!(bg.tile_ids[19], 0);
    assert_eq!(block_id_at(&wram, false, false, 2, 3, 1), Some(0));
}
