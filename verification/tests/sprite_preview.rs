use lib::level_editor::sprite_preview::{
    largest_opaque_component, render_sprite_preview_image, score_sprite_preview,
    sprite_pixel_bounds, sprite_preview_fallback_image, ColorImage, SpriteOamTile, PREVIEW_SIZE,
};

fn mask_from(rows: &[&str]) -> (Vec<bool>, usize, usize) {
    let h = rows.len();
    let w = rows[0].len();
    let mask = rows.iter().flat_map(|r| r.chars().map(|c| c == '#')).collect();
    (mask, w, h)
}

#[test]
fn largest_blob_of_an_empty_mask_is_zero() {
    let (mask, w, h) = mask_from(&["....", "...."]);
    assert_eq!(largest_opaque_component(&mask, w, h), 0);
    assert_eq!(largest_opaque_component(&[], 0, 0), 0);
}

#[test]
fn blobs_connect_through_edges_not_corners() {
    let (mask, w, h) = mask_from(&["##..#", "#..##", "..#..", "#####"]);
    // {(0,0),(1,0),(0,1)} = 3; {(4,0),(3,1),(4,1)} = 3; row 3 plus (2,2) = 6.
    assert_eq!(largest_opaque_component(&mask, w, h), 6);
}

#[test]
fn diagonal_pixels_are_separate_blobs() {
    let (mask, w, h) = mask_from(&["#.#", ".#.", "#.#"]);
    assert_eq!(largest_opaque_component(&mask, w, h), 1);
}

#[test]
fn blobs_do_not_wrap_around_rows() {
    let (mask, w, h) = mask_from(&["..#", "#.."]);
    assert_eq!(largest_opaque_component(&mask, w, h), 1);
}

#[test]
fn a_winding_blob_is_counted_whole() {
    let (mask, w, h) = mask_from(&["#####", "....#", "###.#", "#...#", "#####"]);
    assert_eq!(largest_opaque_component(&mask, w, h), 17);
}

fn image(w: usize, h: usize, opaque: &[(usize, usize, [u8; 3])]) -> ColorImage {
    let mut pixels = vec![[0u8; 4]; w * h];
    for &(x, y, [r, g, b]) in opaque {
        pixels[y * w + x] = [r, g, b, 255];
    }
    ColorImage { size: [w, h], pixels }
}

#[test]
fn transparent_preview_scores_lowest() {
    assert_eq!(score_sprite_preview(&image(4, 4, &[])), -10_000);
}

#[test]
fn score_of_a_small_solid_block() {
    // 2x2 opaque block of one color in a 4x4 image: opaque 4, area 4,
    // density 100, 1 color (bonus 8), one blob of 4 (bonus 8), no penalty,
    // area / 8 = 0, no fullness penalty (4 <= 12).
    let img = image(4, 4, &[(1, 1, [1, 2, 3]), (2, 1, [1, 2, 3]), (1, 2, [1, 2, 3]), (2, 2, [1, 2, 3])]);
    assert_eq!(score_sprite_preview(&img), 4 + 100 + 8 + 8);
}

#[test]
fn score_penalises_fragments_and_full_boxes() {
    // Two single pixels in opposite corners of a 4x4 image: opaque 2,
    // area 16, density 12, 2 colors (16), largest blob 1 (2), penalty
    // (2 - 1) * 3 = 3, area / 8 = 2, fullness 16 > 12 so 16 / 3 = 5.
    let img = image(4, 4, &[(0, 0, [9, 9, 9]), (3, 3, [1, 1, 1])]);
    assert_eq!(score_sprite_preview(&img), 2 + 12 + 16 + 2 - 3 - 2 - 5);
}

#[test]
fn many_colors_earn_at_most_sixteen() {
    let pixels: Vec<(usize, usize, [u8; 3])> = (0..20).map(|i| (i, 0, [i as u8, 0, 0])).collect();
    let img = image(20, 20, &pixels);
    // opaque 20, area 20, density 100, colors capped 16 (128), one blob (40),
    // area / 8 = 2.
    assert_eq!(score_sprite_preview(&img), 20 + 100 + 128 + 40 - 2);
}

#[test]
fn fallback_image_pattern() {
    let img = sprite_preview_fallback_image(48);
    assert_eq!(img.size, [48, 48]);
    assert_eq!(img.pixels.len(), 48 * 48);
    let px = |x: usize, y: usize| img.pixels[y * 48 + x];
    assert_eq!(px(0, 0), [220, 170, 40, 255]);
    assert_eq!(px(47, 20), [220, 170, 40, 255]);
    assert_eq!(px(10, 10), [120, 120, 120, 255]);
    assert_eq!(px(10, 37), [120, 120, 120, 255]);
    assert_eq!(px(3, 4), [52, 52, 52, 255]);
    assert_eq!(px(7, 4), [82, 82, 82, 255]);
    assert_eq!(px(7, 8), [52, 52, 52, 255]);
}

/// VRAM whose sprite tile 0x600 has one pixel of color 1 at its top left,
/// and CGRAM where sprite palette 8, color 1 is red.
fn sprite_vram_and_cgram() -> (Vec<u8>, Vec<u8>) {
    let mut vram = vec![0u8; 0x10000];
    vram[0x600 * 32] = 0x80;
    let mut cgram = vec![0u8; 512];
    cgram[(8 * 16 + 1) * 2] = 0x1F;
    (vram, cgram)
}

fn opaque_pixels(img: &ColorImage) -> Vec<(usize, usize, [u8; 4])> {
    let w = img.size[0];
    img.pixels
        .iter()
        .enumerate()
        .filter(|(_, p)| p[3] != 0)
        .map(|(i, p)| (i % w, i / w, *p))
        .collect()
}

#[test]
fn sprite_without_tiles_shows_the_placeholder() {
    let (vram, cgram) = sprite_vram_and_cgram();
    let img = render_sprite_preview_image(&vec![], &vram, &cgram);
    assert_eq!(img.size, [PREVIEW_SIZE, PREVIEW_SIZE]);
    assert_eq!(img.pixels, sprite_preview_fallback_image(PREVIEW_SIZE).pixels);
    assert_eq!(img.pixels[0], [220, 170, 40, 255]);
    assert_eq!(img.pixels[10 * PREVIEW_SIZE + 10], [120, 120, 120, 255]);
}

#[test]
fn small_tile_is_centred() {
    let (vram, cgram) = sprite_vram_and_cgram();
    let tiles = vec![SpriteOamTile { dx: 0, dy: 0, tile_word: 0, is_16x16: false }];
    let img = render_sprite_preview_image(&tiles, &vram, &cgram);
    assert_eq!(img.size, [48, 48]);
    // The 8x8 box is centred: its origin lands at (20, 20).
    assert_eq!(opaque_pixels(&img), vec![(20, 20, [0xF8, 0, 0, 255])]);
}

#[test]
fn big_flipped_tile_places_its_quarters() {
    let (vram, cgram) = sprite_vram_and_cgram();
    // A 16x16 tile flipped in X: tile 0x600 is its top-right quarter, drawn
    // mirrored, so its first texel lands on the quarter's right edge.
    let tiles = vec![SpriteOamTile { dx: 0, dy: 0, tile_word: 0x4000, is_16x16: true }];
    let img = render_sprite_preview_image(&tiles, &vram, &cgram);
    assert_eq!(opaque_pixels(&img), vec![(31, 16, [0xF8, 0, 0, 255])]);
}

#[test]
fn sprite_drawing_nothing_shows_the_placeholder() {
    let (vram, cgram) = sprite_vram_and_cgram();
    let tiles = vec![SpriteOamTile { dx: -4, dy: 3, tile_word: 2, is_16x16: false }];
    let img = render_sprite_preview_image(&tiles, &vram, &cgram);
    assert_eq!(img.pixels, sprite_preview_fallback_image(PREVIEW_SIZE).pixels);
}

#[test]
fn sprite_bounds_cover_every_tile() {
    assert_eq!(sprite_pixel_bounds(&vec![]), None);
    let tiles = vec![
        SpriteOamTile { dx: -4, dy: 3, tile_word: 0, is_16x16: false },
        SpriteOamTile { dx: 2, dy: -6, tile_word: 0, is_16x16: true },
    ];
    assert_eq!(sprite_pixel_bounds(&tiles), Some((-4, -6, 18, 11)));
}
