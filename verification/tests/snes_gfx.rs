use lib::level_editor::gfx_sheet::Tile;
use lib::snes_gfx::{
    bg_tile, bgr555_to_rgb, build_cgram, build_gfx_vram, convert_3bpp_to_4bpp, draw_tile,
    encode_tile_4bpp, ow_l1_addr, read_color, render_preview_tile, render_signed_sprite_sub_tile,
    render_sub_tile, rgb_to_bgr555, sp_tile, tilemap_vram_addr, update_tile_palette, TilePlacement,
};

/// Decode pixel `(col, row)` of a 32-byte 4bpp tile.
fn decode(tile: &[u8], row: usize, col: usize) -> u8 {
    let bit = 7 - col;
    let b = |i: usize| (tile[i] >> bit) & 1;
    b(row * 2) | (b(row * 2 + 1) << 1) | (b(row * 2 + 16) << 2) | (b(row * 2 + 17) << 3)
}

fn sample_tile() -> Tile {
    let mut ci = [0u8; 64];
    for (i, v) in ci.iter_mut().enumerate() {
        *v = ((i * 7 + i / 8) % 16) as u8;
    }
    Tile { color_indices: ci }
}

#[test]
fn encoded_tile_decodes_to_its_indices() {
    let tile = sample_tile();
    let enc = encode_tile_4bpp(&tile);
    for row in 0..8 {
        for col in 0..8 {
            assert_eq!(decode(&enc, row, col), tile.color_indices[row * 8 + col]);
        }
    }
}

#[test]
fn encoding_keeps_only_the_low_nibble() {
    let mut ci = [0u8; 64];
    ci[0] = 0xF3;
    ci[9] = 0x10;
    let enc = encode_tile_4bpp(&Tile { color_indices: ci });
    assert_eq!(decode(&enc, 0, 0), 3);
    assert_eq!(decode(&enc, 1, 1), 0);
    assert_eq!(enc[0], 0x80);
    assert_eq!(enc[1], 0x80);
    assert_eq!(enc[16], 0);
}

#[test]
fn one_plane_byte_per_row() {
    let mut ci = [0u8; 64];
    for col in 0..8 {
        ci[8 * 2 + col] = if col % 2 == 0 { 0x8 } else { 0x1 };
    }
    let enc = encode_tile_4bpp(&Tile { color_indices: ci });
    assert_eq!(enc[4], 0b0101_0101);
    assert_eq!(enc[5], 0);
    assert_eq!(enc[16 + 4], 0);
    assert_eq!(enc[17 + 4], 0b1010_1010);
}

#[test]
fn vram_holds_files_in_4k_slots() {
    let files = vec![vec![sample_tile()], vec![], vec![sample_tile(), sample_tile()]];
    let vram = build_gfx_vram(&files);
    assert_eq!(vram.len(), 0x10000);
    let enc = encode_tile_4bpp(&sample_tile());
    assert_eq!(&vram[0..32], &enc[..]);
    assert!(vram[32..0x1000].iter().all(|&b| b == 0));
    assert!(vram[0x1000..0x2000].iter().all(|&b| b == 0));
    assert_eq!(&vram[0x2000..0x2020], &enc[..]);
    assert_eq!(&vram[0x2020..0x2040], &enc[..]);
    assert!(vram[0x2040..].iter().all(|&b| b == 0));
}

#[test]
fn cgram_is_little_endian() {
    let mut colors = vec![0u16; 256];
    colors[1] = 0x7FFF;
    colors[255] = 0x1234;
    let cgram = build_cgram(&colors);
    assert_eq!(cgram.len(), 512);
    assert_eq!(&cgram[2..4], &[0xFF, 0x7F]);
    assert_eq!(&cgram[510..512], &[0x34, 0x12]);
}

#[test]
fn bgr555_channels() {
    assert_eq!(bgr555_to_rgb(0x1F, 0x00), (0xF8, 0, 0));
    assert_eq!(bgr555_to_rgb(0xE0, 0x03), (0, 0xF8, 0));
    assert_eq!(bgr555_to_rgb(0x00, 0x7C), (0, 0, 0xF8));
    assert_eq!(bgr555_to_rgb(0xFF, 0xFF), (0xF8, 0xF8, 0xF8));
}

#[test]
fn read_color_past_the_end_is_black() {
    let cgram = [0x1F, 0x00, 0xE0, 0x03];
    assert_eq!(read_color(&cgram, 0), [0xF8, 0, 0]);
    assert_eq!(read_color(&cgram, 1), [0, 0xF8, 0]);
    assert_eq!(read_color(&cgram, 2), [0, 0, 0]);
}

#[test]
fn three_bpp_tiles_widen_to_four() {
    let mut data: Vec<u8> = (0..48).map(|i| i as u8 + 1).collect();
    data.push(0xEE);
    let out = convert_3bpp_to_4bpp(&data);
    assert_eq!(out.len(), 64);
    assert_eq!(&out[0..16], &data[0..16]);
    assert_eq!(&out[16..20], &[17, 0, 18, 0]);
    assert_eq!(out[30], 24);
    assert_eq!(out[31], 0);
    assert_eq!(&out[32..48], &data[24..40]);
    assert_eq!(&out[48..50], &[41, 0]);
}

#[test]
fn tilemap_quadrants() {
    assert_eq!(tilemap_vram_addr(0x4000, 0, 0), 0x4000);
    assert_eq!(tilemap_vram_addr(0x4000, 1, 0), 0x4002);
    assert_eq!(tilemap_vram_addr(0x4000, 0, 1), 0x4040);
    assert_eq!(tilemap_vram_addr(0x4000, 32, 0), 0x4800);
    assert_eq!(tilemap_vram_addr(0x4000, 0, 32), 0x5000);
    assert_eq!(tilemap_vram_addr(0x4000, 63, 63), 0x4000 + 0x1800 + (31 * 32 + 31) * 2);
}

#[test]
fn overworld_layer1_quadrants() {
    assert_eq!(ow_l1_addr(0, 0), 0);
    assert_eq!(ow_l1_addr(15, 0), 15);
    assert_eq!(ow_l1_addr(16, 0), 0x100);
    assert_eq!(ow_l1_addr(0, 1), 0x10);
    assert_eq!(ow_l1_addr(0, 16), 0x200);
    assert_eq!(ow_l1_addr(31, 31), 0x3FF);
}

#[test]
fn renderer_tiles() {
    assert_eq!(bg_tile(3, 4, 0xC000 | (5 << 10) | 0x123), [3, 4, 0x123, 8 | (5 << 8) | 0xC000]);
    assert_eq!(sp_tile(1, 2, 0x4000 | (3 << 9) | 0x1FF), [1, 2, 0x1FF + 0x600, 8 | (11 << 8) | 0x4000]);
}

#[test]
fn tile_palette_switch_keeps_flips_and_scale() {
    let mut tiles = vec![[0, 0, 7, 0xC508], [1, 1, 8, 0x0008]];
    update_tile_palette(&mut tiles, 2);
    assert_eq!(tiles, vec![[0, 0, 7, 0xCA08], [1, 1, 8, 0x0A08]]);
}

fn vram_with_one_pixel() -> Vec<u8> {
    // Tile 1, row 0: pixel 0 has color index 1, pixel 7 color index 2.
    let mut vram = vec![0u8; 64];
    vram[32] = 0x80;
    vram[33] = 0x01;
    vram
}

fn red_green_cgram() -> Vec<u8> {
    // Palette 0: color 1 red, color 2 green.
    vec![0, 0, 0x1F, 0x00, 0xE0, 0x03]
}

#[test]
fn sub_tile_draws_opaque_texels_only() {
    let mut pixels = vec![0u8; 16 * 16 * 4];
    render_sub_tile(&vram_with_one_pixel(), &red_green_cgram(), 1, 8, 0, &mut pixels, 16);
    assert_eq!(&pixels[8 * 4..8 * 4 + 4], &[0xF8, 0, 0, 255]);
    assert_eq!(&pixels[15 * 4..15 * 4 + 4], &[0, 0xF8, 0, 255]);
    assert_eq!(pixels.iter().filter(|&&b| b != 0).count(), 4);
}

#[test]
fn sub_tile_x_flip_mirrors_the_row() {
    let mut pixels = vec![0u8; 16 * 16 * 4];
    render_sub_tile(&vram_with_one_pixel(), &red_green_cgram(), 0x4001, 0, 0, &mut pixels, 16);
    assert_eq!(&pixels[7 * 4..7 * 4 + 4], &[0xF8, 0, 0, 255]);
    assert_eq!(&pixels[0..4], &[0, 0xF8, 0, 255]);
}

#[test]
fn signed_sprite_tile_clips_left_edge() {
    // Sprite tile 0 is VRAM tile 0x600, sprite palette 8.
    let mut vram = vec![0u8; 0x600 * 32 + 32];
    vram[0x600 * 32] = 0x81;
    let mut cgram = vec![0u8; 512];
    cgram[(8 * 16 + 1) * 2] = 0x1F;
    let mut pixels = vec![0u8; 8 * 8 * 4];
    render_signed_sprite_sub_tile(&vram, &cgram, 0, -7, 0, &mut pixels, 8);
    // Only texel 7 of row 0 lands on screen, at x = 0.
    assert_eq!(&pixels[0..4], &[0xF8, 0, 0, 255]);
    assert_eq!(pixels.iter().filter(|&&b| b != 0).count(), 2);
}

#[test]
fn preview_tile_with_palette_row() {
    let vram = vram_with_one_pixel();
    let mut cgram = vec![0u8; 64];
    cgram[(16 + 2) * 2] = 0xE0;
    cgram[(16 + 2) * 2 + 1] = 0x03;
    let mut pixels = vec![0u8; 8 * 8 * 4];
    render_preview_tile(&vram, &cgram, 1, 1, false, true, 0, 0, 8, &mut pixels);
    // Y flip puts row 0 at the bottom; color 1 of palette 1 is black.
    assert_eq!(&pixels[(7 * 8 + 7) * 4..(7 * 8 + 7) * 4 + 4], &[0, 0xF8, 0, 255]);
    assert_eq!(&pixels[(7 * 8) * 4..(7 * 8) * 4 + 4], &[0, 0, 0, 255]);
}

#[test]
fn draw_tile_skips_rows_past_vram() {
    let mut pixels = vec![0u8; 8 * 8 * 4];
    let p = TilePlacement { tile_num: 5, pal: 0, flip_x: false, flip_y: false, x0: 0, y0: 0, stride: 8 };
    draw_tile(&vram_with_one_pixel(), &red_green_cgram(), p, &mut pixels);
    assert!(pixels.iter().all(|&b| b == 0));
}

#[test]
fn edited_colors_pack_into_bgr555() {
    assert_eq!(rgb_to_bgr555(255, 255, 255), 0x7FFF);
    assert_eq!(rgb_to_bgr555(255, 0, 0), 0x001F);
    assert_eq!(rgb_to_bgr555(0, 255, 0), 0x03E0);
    assert_eq!(rgb_to_bgr555(0, 0, 255), 0x7C00);
    // 128 * 31 / 255 = 15.
    assert_eq!(rgb_to_bgr555(128, 0, 0), 15);
    assert_eq!(rgb_to_bgr555(0, 0, 0), 0);
}
