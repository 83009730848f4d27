use lib::level_editor::tile_picker::{BgTilePicker, TilePicker, NUM_BLOCKS, TEX_H, TEX_W};

fn vram_and_cgram() -> (Vec<u8>, Vec<u8>) {
    let mut vram = vec![0u8; 0x8000];
    vram[32] = 0x80;
    let mut cgram = vec![0u8; 512];
    cgram[2] = 0x1F;
    (vram, cgram)
}

fn rgba(pixels: &[u8], x: usize, y: usize) -> [u8; 4] {
    let o = (y * TEX_W + x) * 4;
    [pixels[o], pixels[o + 1], pixels[o + 2], pixels[o + 3]]
}

fn opaque(pixels: &[u8]) -> usize {
    pixels.chunks(4).filter(|p| p[3] != 0).count()
}

#[test]
fn picker_draws_blocks_in_their_cells() {
    let (vram, cgram) = vram_and_cgram();
    let mut picker = TilePicker::new();
    assert_eq!(picker.pixels.len(), TEX_W * TEX_H * 4);
    let mut blocks = vec![None; NUM_BLOCKS];
    // Block 17 is cell (1, 1): tile 1 top-left, and tile 1 flipped in X as
    // its top-right quarter (the third word).
    blocks[17] = Some([1, 0, 0x4001, 0]);
    picker.rebuild(&vram, &cgram, &blocks);
    assert!(picker.dirty);
    assert_eq!(rgba(&picker.pixels, 16, 16), [0xF8, 0, 0, 255]);
    assert_eq!(rgba(&picker.pixels, 31, 16), [0xF8, 0, 0, 255]);
    assert_eq!(opaque(&picker.pixels), 2);
}

#[test]
fn rebuild_clears_old_blocks() {
    let (vram, cgram) = vram_and_cgram();
    let mut picker = TilePicker::new();
    let mut blocks = vec![None; NUM_BLOCKS];
    blocks[0] = Some([1, 1, 1, 1]);
    picker.rebuild(&vram, &cgram, &blocks);
    assert_eq!(opaque(&picker.pixels), 4);
    // Quarter order is top-left, bottom-left, top-right, bottom-right.
    assert_eq!(rgba(&picker.pixels, 0, 8), [0xF8, 0, 0, 255]);
    assert_eq!(rgba(&picker.pixels, 8, 0), [0xF8, 0, 0, 255]);
    picker.rebuild(&vram, &cgram, &vec![None; NUM_BLOCKS]);
    assert_eq!(opaque(&picker.pixels), 0);
}

#[test]
fn block_under_a_picker_pixel() {
    let picker = TilePicker::new();
    assert_eq!(picker.block_at_pixel(20, 18), Some(17));
    assert_eq!(picker.block_at_pixel(255, 511), Some(511));
    assert_eq!(picker.block_at_pixel(256, 0), None);
    assert_eq!(picker.block_at_pixel(0, 512), None);
}

#[test]
fn background_picker_grid() {
    let (vram, cgram) = vram_and_cgram();
    let mut bg = BgTilePicker::new();
    let mut blocks = vec![[0u16; 4]; 256];
    blocks[255] = [1, 0, 0, 0];
    bg.rebuild(&vram, &cgram, &blocks);
    assert_eq!(bg.pixels.len(), TEX_W * 256 * 4);
    assert_eq!(rgba(&bg.pixels, 240, 240), [0xF8, 0, 0, 255]);
    assert_eq!(opaque(&bg.pixels), 1);
    assert_eq!(bg.block_at_pixel(0, 255), Some(240));
    assert_eq!(bg.block_at_pixel(0, 256), None);
    assert_eq!(bg.block_grid_pos(0x35), Some((5, 3)));
    // Every pixel of a block's cell picks that block.
    assert_eq!(bg.block_at_pixel(5 * 16, 3 * 16), Some(0x35));
    assert_eq!(bg.block_at_pixel(5 * 16 + 15, 3 * 16 + 15), Some(0x35));
    assert_eq!(bg.block_grid_pos(255), Some((15, 15)));
}
