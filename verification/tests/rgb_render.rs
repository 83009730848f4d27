use lib::rgb_render::{
    draw_hex_label, draw_map16_border, render_bg, render_bg_full, render_bg_tile, render_l1_proper,
    render_l1_sub_tile_2x, render_l2, render_sp_tile, render_tile,
};
use lib::snes_gfx::tilemap_vram_addr;

const RED: [u8; 3] = [0xF8, 0, 0];
const BLUE: [u8; 3] = [0, 0, 0xF8];

/// VRAM whose tile 1 (and sprite tile 0x601) has one texel of color 1 at
/// its top left; CGRAM where palette 0 color 1 is red and palette 9 color
/// 1 is blue.
fn vram_and_cgram() -> (Vec<u8>, Vec<u8>) {
    let mut vram = vec![0u8; 0x10000];
    vram[32] = 0x80;
    vram[0x601 * 32] = 0x80;
    let mut cgram = vec![0u8; 512];
    cgram[2] = 0x1F;
    cgram[(9 * 16 + 1) * 2 + 1] = 0x7C;
    (vram, cgram)
}

fn px(pixels: &[u8], width: usize, x: usize, y: usize) -> [u8; 3] {
    let o = (y * width + x) * 3;
    [pixels[o], pixels[o + 1], pixels[o + 2]]
}

fn lit(pixels: &[u8]) -> usize {
    pixels.chunks(3).filter(|p| p.iter().any(|&b| b != 0)).count()
}

#[test]
fn tile_texel_lands_at_its_offset() {
    let (vram, cgram) = vram_and_cgram();
    let mut pixels = vec![0u8; 16 * 16 * 3];
    render_tile(&vram, &cgram, 1, 0, false, false, 2, 3, 16, &mut pixels);
    assert_eq!(px(&pixels, 16, 2, 3), RED);
    assert_eq!(lit(&pixels), 1);
    let mut flipped = vec![0u8; 16 * 16 * 3];
    render_tile(&vram, &cgram, 1, 0, true, true, 2, 3, 16, &mut flipped);
    assert_eq!(px(&flipped, 16, 9, 10), RED);
    assert_eq!(lit(&flipped), 1);
}

#[test]
fn colors_past_cgram_draw_black_and_transparent_texels_keep_the_buffer() {
    let (vram, cgram) = vram_and_cgram();
    let mut pixels = vec![0x11u8; 8 * 8 * 3];
    // Palette 40 lies past the 256 colors of CGRAM.
    render_tile(&vram, &cgram, 1, 40, false, false, 0, 0, 8, &mut pixels);
    assert_eq!(px(&pixels, 8, 0, 0), [0, 0, 0]);
    assert_eq!(px(&pixels, 8, 1, 0), [0x11, 0x11, 0x11]);
}

#[test]
fn writes_past_the_buffer_are_skipped() {
    let (vram, cgram) = vram_and_cgram();
    let mut pixels = vec![0u8; 4 * 3];
    render_tile(&vram, &cgram, 1, 0, false, false, 0, 2, 4, &mut pixels);
    assert_eq!(pixels, vec![0u8; 12]);
}

#[test]
fn layer_and_sprite_words() {
    let (vram, cgram) = vram_and_cgram();
    let mut pixels = vec![0u8; 16 * 16 * 3];
    // Tile 1, palette 0, flipped in X.
    render_bg_tile(&vram, &cgram, 0, 0, 0x4001, 16, &mut pixels);
    assert_eq!(px(&pixels, 16, 7, 0), RED);
    // Sprite tile 0x601, palette 8 + 1, flipped in Y.
    render_sp_tile(&vram, &cgram, 8, 8, 0x8000 | (1 << 9) | 1, 16, &mut pixels);
    assert_eq!(px(&pixels, 16, 8, 15), BLUE);
    assert_eq!(lit(&pixels), 2);
}

#[test]
fn double_size_tile_paints_grey_background() {
    let (vram, cgram) = vram_and_cgram();
    let mut pixels = vec![0u8; 16 * 16 * 3];
    render_l1_sub_tile_2x(&vram, &cgram, 1, 0, false, false, 0, 0, 16, &mut pixels);
    for (x, y) in [(0, 0), (1, 0), (0, 1), (1, 1)] {
        assert_eq!(px(&pixels, 16, x, y), RED);
    }
    assert_eq!(px(&pixels, 16, 2, 0), [24, 24, 24]);
    assert_eq!(px(&pixels, 16, 15, 15), [24, 24, 24]);
    assert_eq!(lit(&pixels), 256);
}

#[test]
fn hex_label_glyphs() {
    let mut pixels = vec![0u8; 8 * 5 * 3];
    draw_hex_label(0x1F, 0, 0, 8, &mut pixels);
    let expected = ["010 111", "110 100", "010 111", "010 100", "111 100"];
    for (y, row) in expected.iter().enumerate() {
        for (x, c) in row.chars().enumerate() {
            let want = if c == '1' { [255, 255, 0] } else { [0, 0, 0] };
            assert_eq!(px(&pixels, 8, x, y), want, "pixel ({x}, {y})");
        }
    }
}

#[test]
fn border_outlines_the_block() {
    let mut pixels = vec![0u8; 20 * 20 * 3];
    draw_map16_border(&mut pixels, 2, 2, 20, [1, 2, 3]);
    assert_eq!(lit(&pixels), 60);
    assert_eq!(px(&pixels, 20, 2, 2), [1, 2, 3]);
    assert_eq!(px(&pixels, 20, 17, 17), [1, 2, 3]);
    assert_eq!(px(&pixels, 20, 3, 3), [0, 0, 0]);
    assert_eq!(px(&pixels, 20, 18, 2), [0, 0, 0]);
}

#[test]
fn scrolled_layer_clamps_partly_visible_tiles() {
    let (mut vram, cgram) = vram_and_cgram();
    let base = 0x4000;
    let a = tilemap_vram_addr(base, 0, 0);
    vram[a] = 1;
    let b = tilemap_vram_addr(base, 40, 1);
    vram[b] = 1;
    let mut pixels = vec![0u8; 512 * 512 * 3];
    render_bg(&vram, base, 4, 0, 512, &cgram, &mut pixels);
    // Entry (0, 0) starts 4 pixels off the left edge: drawn at x = 0.
    assert_eq!(px(&pixels, 512, 0, 0), RED);
    assert_eq!(px(&pixels, 512, 40 * 8 - 4, 8), RED);
    assert_eq!(lit(&pixels), 2);
    let mut hidden = vec![0u8; 512 * 512 * 3];
    render_bg(&vram, base, 8, 0, 512, &cgram, &mut hidden);
    assert_eq!(px(&hidden, 512, 0, 0), [0, 0, 0]);
    assert_eq!(lit(&hidden), 1);
}

#[test]
fn full_layer_is_unscrolled() {
    let (mut vram, cgram) = vram_and_cgram();
    let base = 0x6000;
    let a = tilemap_vram_addr(base, 33, 2);
    vram[a] = 1;
    let mut pixels = vec![0u8; 1024 * 512 * 3];
    render_bg_full(&vram, base, 1024, &cgram, &mut pixels);
    assert_eq!(px(&pixels, 1024, 33 * 8, 16), RED);
    assert_eq!(lit(&pixels), 1);
}

#[test]
fn layer2_from_wram() {
    let (vram, cgram) = vram_and_cgram();
    let mut wram = vec![0u8; 8];
    wram[2] = 1;
    wram[3] = 0x40;
    let pixels = render_l2(&wram, 2, 1, &vram, &cgram);
    assert_eq!(pixels.len(), 16 * 8 * 3);
    assert_eq!(px(&pixels, 16, 15, 0), RED);
    assert_eq!(lit(&pixels), 1);
    // Entries past the end of the buffer are not drawn.
    assert_eq!(render_l2(&[], 2, 2, &vram, &cgram), vec![0u8; 16 * 16 * 3]);
}

fn l1_inputs() -> (Vec<u8>, Vec<u8>, Vec<u8>) {
    let mut l1 = vec![0u8; 0x800];
    l1[0] = 1;
    // Tile 1 points at $8000 of bank $05: ROM offset $28000.
    let m16ptr = vec![0, 0, 0x00, 0x80];
    let mut rom = vec![0u8; 0x28400];
    rom[0x28000] = 1;
    (l1, m16ptr, rom)
}

#[test]
fn layer1_block_from_rom_character_data() {
    let (vram, cgram) = vram_and_cgram();
    let (l1, m16ptr, rom) = l1_inputs();
    let mut pixels = vec![0u8; 32 * 32 * 3];
    render_l1_proper(&l1, &m16ptr, 0, &rom, &vram, &cgram, &mut pixels, 4, 4, 0x7E0FBE, 0x05_0000, false, 0);
    assert_eq!(px(&pixels, 32, 0, 0), RED);
    assert_eq!(lit(&pixels), 1);
    // With a copier header in front the same data is found.
    let mut with_header = vec![0xEEu8; 0x200];
    with_header.extend_from_slice(&rom);
    let mut again = vec![0u8; 32 * 32 * 3];
    render_l1_proper(&l1, &m16ptr, 0, &with_header, &vram, &cgram, &mut again, 4, 4, 0, 0x05_0000, false, 0);
    assert_eq!(again, pixels);
    // Submap 1 reads the second half of the layer 1 data: empty here.
    let mut other = vec![0u8; 32 * 32 * 3];
    render_l1_proper(&l1, &m16ptr, 1, &rom, &vram, &cgram, &mut other, 4, 4, 0, 0x05_0000, false, 0);
    assert_eq!(lit(&other), 0);
}

#[test]
fn layer1_wireframe_and_offset() {
    let (vram, cgram) = vram_and_cgram();
    let (l1, m16ptr, rom) = l1_inputs();
    let mut pixels = vec![0u8; 32 * 32 * 3];
    render_l1_proper(&l1, &m16ptr, 0, &rom, &vram, &cgram, &mut pixels, 4, 4, 0, 0x05_0000, true, 8);
    assert_eq!(px(&pixels, 32, 0, 8), [255, 255, 0]);
    assert_eq!(px(&pixels, 32, 15, 23), [255, 255, 0]);
    assert_eq!(px(&pixels, 32, 1, 9), [0, 0, 0]);
    assert_eq!(lit(&pixels), 60);
    // A block that would run past the image is skipped.
    let mut small = vec![0u8; 8 * 8 * 3];
    render_l1_proper(&l1, &m16ptr, 0, &rom, &vram, &cgram, &mut small, 1, 1, 0, 0x05_0000, true, 0);
    assert_eq!(lit(&small), 0);
}
