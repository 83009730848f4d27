use lib::overworld::{
    l1_vram_addr_for_map16, ow_tile, render_ow_block_preview, render_single_tile_preview,
    source_l1_index_for_view, visible_map_crop, visible_map_size, OwTilePicker,
    VRAM_L1_TILEMAP_BASE,
};
use lib::snes_gfx::tilemap_vram_addr;

#[test]
fn main_map_and_submap_views() {
    assert_eq!(visible_map_size(0), (512, 512));
    assert_eq!(visible_map_size(3), (224, 168));
    assert_eq!(visible_map_crop(0), (0, 0));
    assert_eq!(visible_map_crop(1), (16, 40));
}

#[test]
fn layer1_block_addresses() {
    assert_eq!(l1_vram_addr_for_map16(0, 0, 0), VRAM_L1_TILEMAP_BASE);
    assert_eq!(l1_vram_addr_for_map16(0, 1, 1), tilemap_vram_addr(VRAM_L1_TILEMAP_BASE, 2, 2));
    assert_eq!(l1_vram_addr_for_map16(2, 0, 0), tilemap_vram_addr(VRAM_L1_TILEMAP_BASE, 2, 5));
}

#[test]
fn layer1_source_indices() {
    assert_eq!(source_l1_index_for_view(0, 0, 0), Some(0));
    assert_eq!(source_l1_index_for_view(0, 17, 2), Some(0x100 + 0x20 + 1));
    assert_eq!(source_l1_index_for_view(1, 0, 0), Some(0x400 + 0x20 + 1));
    assert_eq!(source_l1_index_for_view(0, 32, 0), None);
    assert_eq!(source_l1_index_for_view(1, 0, 30), None);
}

#[test]
fn overworld_renderer_tile() {
    assert_eq!(ow_tile(8, 16, 0x8000 | (2 << 10) | 0x3FF), [8, 16, 0x3FF, 8 | (2 << 8) | 0x8000]);
}

fn vram_and_cgram() -> (Vec<u8>, Vec<u8>) {
    let mut vram = vec![0u8; 0x8000];
    // Tile 1: row 0, pixel 0 has color index 1.
    vram[32] = 0x80;
    let mut cgram = vec![0u8; 512];
    cgram[2] = 0x1F; // palette 0, color 1: red
    cgram[(16 + 1) * 2 + 1] = 0x7C; // palette 1, color 1: blue
    (vram, cgram)
}

#[test]
fn single_tile_preview_doubles_each_texel() {
    let (vram, cgram) = vram_and_cgram();
    let px = render_single_tile_preview(&vram, &cgram, 1, 0);
    assert_eq!(px.len(), 1024);
    for (x, y) in [(0, 0), (1, 0), (0, 1), (1, 1)] {
        let o = (y * 16 + x) * 4;
        assert_eq!(&px[o..o + 4], &[0xF8, 0, 0, 255]);
    }
    assert_eq!(px.iter().filter(|&&b| b != 0).count(), 8);
    let blue = render_single_tile_preview(&vram, &cgram, 1, 1);
    assert_eq!(&blue[0..4], &[0, 0, 0xF8, 255]);
}

#[test]
fn block_preview_reads_four_tilemap_entries() {
    let (mut vram, cgram) = vram_and_cgram();
    // Main map block (0, 0): its bottom-right 8x8 entry (1, 1) shows tile 1
    // in palette 1, flipped in X.
    let addr = tilemap_vram_addr(VRAM_L1_TILEMAP_BASE, 1, 1);
    vram[addr] = 1;
    vram[addr + 1] = (1 << 2) | 0x40;
    let px = render_ow_block_preview(&vram, &cgram, 0, 0, 0, VRAM_L1_TILEMAP_BASE);
    assert_eq!(px.len(), 1024);
    let o = (8 * 16 + 15) * 4;
    assert_eq!(&px[o..o + 4], &[0, 0, 0xF8, 255]);
    assert_eq!(px.iter().filter(|&&b| b != 0).count(), 2);
}

#[test]
fn tile_picker_lists_used_pairs_in_order() {
    let (mut vram, cgram) = vram_and_cgram();
    let l1 = 0x4000;
    let l2 = 0x6000;
    let addr = tilemap_vram_addr(l1, 5, 7);
    vram[addr] = 1;
    vram[addr + 1] = 1 << 2;
    let mut picker = OwTilePicker::new();
    assert!(picker.used_tiles.is_empty());
    picker.rebuild(&vram, &cgram, l1, l2);
    assert_eq!(picker.used_tiles, vec![(0, 0), (1, 1)]);
    assert_eq!((picker.tex_w, picker.tex_h), (256, 16));
    assert_eq!(picker.pixels.len(), 256 * 16 * 4);
    // Cell 1 shows tile 1 at twice its size: texel (0, 0) covers 2x2 pixels.
    for (x, y) in [(16, 0), (17, 0), (16, 1), (17, 1)] {
        let o = (y * 256 + x) * 4;
        assert_eq!(&picker.pixels[o..o + 4], &[0, 0, 0xF8, 255]);
    }
    assert_eq!(picker.pixels.iter().filter(|&&b| b != 0).count(), 8);
    assert_eq!(picker.tile_at_pixel(0, 0), Some((0, 0)));
    assert_eq!(picker.tile_at_pixel(20, 15), Some((1, 1)));
    assert_eq!(picker.tile_at_pixel(40, 0), None);
    assert_eq!(picker.tile_at_pixel(0, 16), None);
}
