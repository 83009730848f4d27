use lib::level_editor::level_save::{primary_header_bytes, rewrite_block, BlockPlacement, NoFreeSpace};
use lib::level_editor::properties::LevelProperties;

#[test]
fn primary_header_packs_the_properties() {
    let p = LevelProperties {
        palette_bg: 3,
        level_length: 0x0A,
        back_area_color: 2,
        level_mode: 0x0C,
        layer3_priority: true,
        music: 5,
        sprite_gfx: 0x1E,
        timer: 2,
        palette_sprite: 4,
        palette_fg: 1,
        item_memory: 1,
        vertical_scroll: 2,
        fg_bg_gfx: 0x0D,
        ..LevelProperties::default()
    };
    assert_eq!(primary_header_bytes(&p), [0x6A, 0x4C, 0xDE, 0xA1, 0x6D]);
    assert_eq!(primary_header_bytes(&LevelProperties::default()), [0; 5]);
}

fn rom_with_block() -> Vec<u8> {
    let mut rom = vec![0u8; 0x10000];
    for b in &mut rom[0x100..0x108] {
        *b = 0xAA;
    }
    rom
}

#[test]
fn smaller_block_is_rewritten_in_place() {
    let mut rom = rom_with_block();
    assert_eq!(rewrite_block(&mut rom, 0x100, 8, &vec![1, 2, 3], 0x8000, 0x10000, 0), Ok(BlockPlacement::InPlace));
    assert_eq!(&rom[0xFF..0x109], &[0, 1, 2, 3, 0xFF, 0xFF, 0xFF, 0xFF, 0xFF, 0]);
}

#[test]
fn grown_block_moves_to_free_space() {
    let mut rom = rom_with_block();
    for b in &mut rom[0x9000..0x9010] {
        *b = 0xFF;
    }
    let content: Vec<u8> = (1..=10).collect();
    assert_eq!(
        rewrite_block(&mut rom, 0x100, 8, &content, 0x8000, 0x10000, 0),
        Ok(BlockPlacement::Moved { pc: 0x9000 })
    );
    assert_eq!(&rom[0x9000..0x900A], &content[..]);
    assert_eq!(&rom[0x900A..0x9010], &[0xFF; 6]);
    assert_eq!(&rom[0x100..0x108], &[0xFF; 8]);
}

#[test]
fn grown_block_without_free_space_changes_nothing() {
    let mut rom = rom_with_block();
    let before = rom.clone();
    let content = vec![7u8; 10];
    assert_eq!(rewrite_block(&mut rom, 0x100, 8, &content, 0x8000, 0x10000, 0), Err(NoFreeSpace { needed: 10 }));
    assert_eq!(rom, before);
}
