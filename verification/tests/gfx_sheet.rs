use lib::level_editor::gfx_sheet::{
    image_to_tiles, index_scale, tile_byte_size, tiles_to_image, GrayImage, Tile, TileFormat,
    GFX_IMAGE_COLS,
};

fn tile_with_indices(color_indices: [u8; 64]) -> Tile {
    Tile { color_indices }
}

#[test]
fn tiles_to_image_and_back_round_trips_4bpp() {
    let mut indices_a = [0u8; 64];
    let mut indices_b = [0u8; 64];
    for i in 0..64 {
        indices_a[i] = (i % 16) as u8;
        indices_b[i] = ((i * 3) % 16) as u8;
    }
    let tiles = vec![tile_with_indices(indices_a), tile_with_indices(indices_b)];
    let img = tiles_to_image(&tiles, TileFormat::Tile4bpp).unwrap();
    let round_tripped = image_to_tiles(&img, TileFormat::Tile4bpp).unwrap();

    assert_eq!(round_tripped.len(), GFX_IMAGE_COLS * 1); // padded to one full row
    assert_eq!(round_tripped[0].color_indices, tiles[0].color_indices);
    assert_eq!(round_tripped[1].color_indices, tiles[1].color_indices);
}

#[test]
fn tiles_to_image_and_back_round_trips_all_formats() {
    for format in [
        TileFormat::Tile2bpp,
        TileFormat::Tile3bpp,
        TileFormat::Tile4bpp,
        TileFormat::Tile8bpp,
        TileFormat::Tile3bppMode7,
    ] {
        let max = 255u16 / index_scale(format) as u16;
        let mut indices = [0u8; 64];
        for (i, v) in indices.iter_mut().enumerate() {
            *v = (i as u16 % (max + 1)) as u8;
        }
        let tiles = vec![tile_with_indices(indices)];
        let img = tiles_to_image(&tiles, format).unwrap();
        let round_tripped = image_to_tiles(&img, format).unwrap();
        assert_eq!(round_tripped[0].color_indices, tiles[0].color_indices, "format {format:?}");
    }
}

#[test]
fn image_to_tiles_rejects_wrong_width() {
    let img = GrayImage::new(100, 8);
    let err = image_to_tiles(&img, TileFormat::Tile4bpp).unwrap_err();
    assert!(err.contains("must be"));
}

#[test]
fn empty_tiles_produce_no_image() {
    assert!(tiles_to_image(&[], TileFormat::Tile4bpp).is_none());
}

#[test]
fn wrong_size_message_is_exact() {
    let img = GrayImage::new(128, 12);
    let err = image_to_tiles(&img, TileFormat::Tile2bpp).unwrap_err();
    assert_eq!(err, "Image must be 128px wide (16 tiles/row) and a multiple of 8px tall; got 128x12.");
}

#[test]
fn sheet_layout_and_scale() {
    let mut a = [0u8; 64];
    a[9] = 3; // row 1, column 1
    let mut b = [0u8; 64];
    b[0] = 1;
    let mut tiles = vec![tile_with_indices([0u8; 64]); 17];
    tiles[0] = tile_with_indices(a);
    tiles[16] = tile_with_indices(b); // first tile of the second row
    let img = tiles_to_image(&tiles, TileFormat::Tile2bpp).unwrap();
    assert_eq!(img.dimensions(), (128, 16));
    assert_eq!(img.get_pixel(1, 1), 255);
    assert_eq!(img.get_pixel(0, 8), 85);
    assert_eq!(img.get_pixel(127, 15), 0);
}

#[test]
fn bright_pixels_clamp_to_the_largest_index() {
    let mut img = GrayImage::new(128, 8);
    img.pixels[0] = 255;
    img.pixels[1] = 250;
    let tiles = image_to_tiles(&img, TileFormat::Tile3bpp).unwrap();
    assert_eq!(tiles.len(), 16);
    assert_eq!(tiles[0].color_indices[0], 7);
    assert_eq!(tiles[0].color_indices[1], 6);
}

#[test]
fn formats_have_their_tile_sizes_and_scales() {
    assert_eq!(tile_byte_size(TileFormat::Tile2bpp), 16);
    assert_eq!(tile_byte_size(TileFormat::Tile3bpp), 24);
    assert_eq!(tile_byte_size(TileFormat::Tile3bppMode7), 24);
    assert_eq!(tile_byte_size(TileFormat::Tile4bpp), 32);
    assert_eq!(tile_byte_size(TileFormat::Tile8bpp), 64);
    assert_eq!(index_scale(TileFormat::Tile2bpp), 85);
    assert_eq!(index_scale(TileFormat::Tile3bpp), 36);
    assert_eq!(index_scale(TileFormat::Tile4bpp), 17);
    assert_eq!(index_scale(TileFormat::Tile8bpp), 1);
}
