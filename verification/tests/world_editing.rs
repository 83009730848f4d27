use lib::world_editing::{
    activate_all_overworld_events, build_bg_tiles, l2_tile_and_attr_streams, read_overworld_l2_words,
    set_source_l1_tile_at_view, source_l1_tile_at_view, sync_vram_from_edit_state, write_l1_tile, write_l2_tile,
    write_overworld_l2_stream, write_source_l1_block_words, write_tile, L2StreamError, OW_L2_WORDS, WRAM_OW_L2,
};

#[test]
fn painting_layer2_updates_words_wram_and_vram() {
    let mut vram = vec![0u8; 0x10000];
    let mut wram = vec![0u8; 0x20000];
    let mut words = vec![0u16; 4096];
    assert!(write_tile(&mut vram, &mut wram, &mut words, 2, 0, 3, 33, 0x12, 0x34));
    // Entry (3, 33) lies in the bottom-left 32x32 screen: offset 0x1046.
    assert_eq!(words[0x823], 0x3412);
    assert_eq!(&wram[WRAM_OW_L2 + 0x1046..WRAM_OW_L2 + 0x1048], &[0x12, 0x34]);
    assert_eq!(&vram[0x7046..0x7048], &[0x12, 0x34]);
    assert_eq!(words.iter().filter(|&&w| w != 0).count(), 1);
}

#[test]
fn painting_layer1_writes_the_block_corner_in_vram_only() {
    let mut vram = vec![0u8; 0x10000];
    let mut wram = vec![0u8; 0x20000];
    let mut words = vec![0u16; 4096];
    assert!(!write_tile(&mut vram, &mut wram, &mut words, 1, 1, 2, 3, 0x56, 0x78));
    // Submap window starts at (16, 40): block (2, 3) is tile (6, 11).
    assert_eq!(&vram[0x42CC..0x42CE], &[0x56, 0x78]);
    assert_eq!(vram.iter().filter(|&&b| b != 0).count(), 2);
    assert!(wram.iter().all(|&b| b == 0));
    assert!(words.iter().all(|&w| w == 0));
    let mut v2 = vec![0u8; 0x10000];
    write_l1_tile(&mut v2, 1, 2, 3, 0x56, 0x78);
    assert_eq!(v2, vram);
    let mut v3 = vec![0u8; 0x6002];
    write_l2_tile(&mut v3, 0, 0, 9, 8);
    assert_eq!(&v3[0x6000..], &[9, 8]);
    // A tilemap entry past the end of VRAM is not written.
    let mut short = vec![0u8; 0x6001];
    write_l2_tile(&mut short, 0, 0, 9, 8);
    assert!(short.iter().all(|&b| b == 0));
}

#[test]
fn source_block_words_fill_two_by_two_tiles() {
    let mut vram = vec![0u8; 0x10000];
    write_source_l1_block_words(&mut vram, 1, 2, [1, 2, 3, 0x1234]);
    assert_eq!(&vram[0x4104..0x4108], &[1, 0, 2, 0]);
    assert_eq!(&vram[0x4144..0x4148], &[3, 0, 0x34, 0x12]);
    assert_eq!(vram.iter().filter(|&&b| b != 0).count(), 5);
}

#[test]
fn setting_a_source_tile_in_view() {
    let mut layer1 = vec![0u8; 0x800];
    let mut vram = vec![0u8; 0x10000];
    set_source_l1_tile_at_view(&mut layer1, &mut vram, 0, 1, 2, 0x77, [1, 2, 3, 4]);
    assert_eq!(layer1[33], 0x77);
    assert_eq!(&vram[0x4104..0x4108], &[1, 0, 2, 0]);
    // Outside the 32x32 grid nothing changes.
    let before = (layer1.clone(), vram.clone());
    set_source_l1_tile_at_view(&mut layer1, &mut vram, 0, 32, 0, 0x55, [9, 9, 9, 9]);
    assert_eq!((layer1, vram), before);
}

#[test]
fn sync_redraws_layer1_blocks_and_layer2_words() {
    let mut layer1 = vec![0u8; 0x800];
    layer1[0] = 5;
    let mut char_words = vec![[0u16; 4]; 256];
    char_words[5] = [0x11, 0x22, 0x33, 0x44];
    let mut vram = vec![0xFFu8; 0x10000];
    let mut wram = vec![0u8; 0x20000];
    sync_vram_from_edit_state(&mut vram, &mut wram, 0, &layer1, &vec![0xABCD], &char_words);
    assert_eq!(&vram[0x4000..0x4004], &[0x11, 0, 0x22, 0]);
    assert_eq!(&vram[0x4040..0x4044], &[0x33, 0, 0x44, 0]);
    // Every other block of the 32x32 grid is redrawn from tile 0.
    assert!(vram[0x4004..0x4040].iter().all(|&b| b == 0));
    assert!(vram[0x4044..0x6000].iter().all(|&b| b == 0));
    assert_eq!(&vram[0x6000..0x6002], &[0xCD, 0xAB]);
    assert_eq!(&wram[WRAM_OW_L2..WRAM_OW_L2 + 2], &[0xCD, 0xAB]);
    // A submap whose half of the layer 1 data is missing redraws no block.
    let mut vram2 = vec![0xFFu8; 0x10000];
    sync_vram_from_edit_state(&mut vram2, &mut wram, 1, &vec![0u8; 0x400], &vec![], &char_words);
    assert!(vram2.iter().all(|&b| b == 0xFF));
}

#[test]
fn renderer_tiles_follow_the_view() {
    let mut vram = vec![0u8; 0x10000];
    vram[0x4000] = 0x55;
    vram[0x4001] = 0x01 | (3 << 2) | 0x20 | 0x40;
    let all = build_bg_tiles(&vram, 0x4000, 0, 0, 0);
    assert_eq!(all.len(), 4096);
    // The priority bit is dropped; tile, palette and X flip are kept.
    assert_eq!(all[0], [0, 0, 0x155, 8 | (3 << 8) | 0x4000]);
    assert_eq!(all[1], [8, 0, 0, 8]);
    let sub = build_bg_tiles(&vram, 0x4000, 1, 0, 0);
    assert_eq!(sub.len(), 28 * 21);
    assert_eq!(sub[0], [0, 0, 0, 8]);
    assert_eq!(sub[1], [8, 0, 0, 8]);
    // A tile partly off the left edge is placed at the edge.
    let scrolled = build_bg_tiles(&vram, 0x4000, 1, 4, 0);
    assert_eq!(scrolled[0], [0, 0, 0, 8]);
    assert_eq!(scrolled[1], [4, 0, 0, 8]);
}

#[test]
fn layer2_save_streams() {
    let (tiles, attrs) = l2_tile_and_attr_streams(&vec![0x1234, 0xABCD]);
    assert_eq!(tiles, vec![0x34, 0xCD]);
    assert_eq!(attrs, vec![0x12, 0xAB]);
}

#[test]
fn compressed_stream_is_written_in_place() {
    let mut rom = vec![0xEEu8; 0x20];
    assert_eq!(write_overworld_l2_stream(&mut rom, false, 4, 5, &vec![1, 2, 3]), Ok(()));
    assert_eq!(&rom[2..11], &[0xEE, 0xEE, 1, 2, 3, 0, 0, 0xEE, 0xEE]);
    let mut headered = vec![0xEEu8; 0x220];
    assert_eq!(write_overworld_l2_stream(&mut headered, true, 4, 2, &vec![7]), Ok(()));
    assert_eq!(&headered[0x204..0x206], &[7, 0]);
}

#[test]
fn compressed_stream_errors() {
    let mut rom = vec![0xEEu8; 0x20];
    let before = rom.clone();
    assert_eq!(write_overworld_l2_stream(&mut rom, false, 0x21, 0, &vec![]), Err(L2StreamError::StartOutOfBounds));
    assert_eq!(
        write_overworld_l2_stream(&mut rom, false, 4, 5, &vec![0; 6]),
        Err(L2StreamError::Grew { old_size: 5, new_size: 6 })
    );
    assert_eq!(write_overworld_l2_stream(&mut rom, false, 0x1E, 5, &vec![1]), Err(L2StreamError::RangeOutOfBounds));
    assert_eq!(write_overworld_l2_stream(&mut rom, true, 0, 1, &vec![1]), Err(L2StreamError::StartOutOfBounds));
    assert_eq!(rom, before);
}

#[test]
fn layer2_words_read_from_wram_little_endian() {
    let mut wram = vec![0u8; 0x20000];
    wram[WRAM_OW_L2] = 0x34;
    wram[WRAM_OW_L2 + 1] = 0x12;
    wram[WRAM_OW_L2 + 0x3FFE] = 0xFF;
    wram[WRAM_OW_L2 + 0x3FFF] = 0x80;
    wram[WRAM_OW_L2 + 0x4000] = 0x55;
    let words = read_overworld_l2_words(&wram);
    assert_eq!(words.len(), OW_L2_WORDS);
    assert_eq!(words[0], 0x1234);
    assert_eq!(words[OW_L2_WORDS - 1], 0x80FF);
    assert_eq!(words.iter().filter(|&&w| w != 0).count(), 2);
}

#[test]
fn synced_layer2_words_read_back_unchanged() {
    let mut vram = vec![0u8; 0x10000];
    let mut wram = vec![0x5Au8; 0x20000];
    let words: Vec<u16> = (0..OW_L2_WORDS).map(|i| (i as u16).wrapping_mul(0x9E37)).collect();
    let char_words = vec![[0u16; 4]; 256];
    sync_vram_from_edit_state(&mut vram, &mut wram, 0, &vec![0u8; 0x800], &words, &char_words);
    assert_eq!(read_overworld_l2_words(&wram), words);
}

#[test]
fn all_event_flags_are_set() {
    let mut wram = vec![0u8; 0x2000];
    activate_all_overworld_events(&mut wram);
    assert_eq!(wram[0x1F01], 0);
    assert!(wram[0x1F02..=0x1F60].iter().all(|&b| b == 0xFF));
    assert_eq!(wram[0x1F61], 0);
    assert_eq!(wram.iter().filter(|&&b| b != 0).count(), 0x5F);
}

#[test]
fn source_tile_under_a_view_block() {
    let mut layer1 = vec![0u8; 0x800];
    layer1[0x005] = 7;
    assert_eq!(source_l1_tile_at_view(&layer1, 0, 5, 0), Some(7));
    assert_eq!(source_l1_tile_at_view(&layer1, 0, 32, 0), None);
    assert_eq!(source_l1_tile_at_view(&vec![0u8; 4], 0, 5, 0), None);
}
