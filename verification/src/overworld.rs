//! Overworld map geometry: the visible part of each submap, where a
//! visible 16x16 map block lives in the layer 1 VRAM tilemap and in the
//! layer 1 source buffer, renderer tiles for overworld tilemap words, tile
//! previews, and the tile picker of the tiles an overworld uses.

use crate::snes_gfx::{
    draw_tile, ow_l1_addr, ow_l1_offset, texel_color, texel_rgb, tile_drawn,
    tile_params, tilemap_offset, tilemap_vram_addr, TilePlacement,
};
use vstd::prelude::*;

verus! {

/// Left edge (pixels) of the visible part of a submap.
pub const SUBMAP_VIEW_X: u32 = 16;

/// Top edge (pixels) of the visible part of a submap.
pub const SUBMAP_VIEW_Y: u32 = 40;

/// Width (pixels) of the visible part of a submap.
pub const SUBMAP_VIEW_W: u32 = 224;

/// Height (pixels) of the visible part of a submap.
pub const SUBMAP_VIEW_H: u32 = 168;

/// VRAM byte address of the layer 1 tilemap.
pub const VRAM_L1_TILEMAP_BASE: usize = 0x4000;

/// VRAM byte address of the layer 2 tilemap.
pub const VRAM_L2_TILEMAP_BASE: usize = 0x6000;

/// Size in pixels of the visible map: the whole 512x512 main map, or the
/// submap window.
pub fn visible_map_size(submap: u8) -> (size: (u32, u32))
    ensures
        size == (if submap == 0 {
            (512u32, 512u32)
        } else {
            (SUBMAP_VIEW_W, SUBMAP_VIEW_H)
        }),
{
    if submap == 0 {
        (512, 512)
    } else {
        (SUBMAP_VIEW_W, SUBMAP_VIEW_H)
    }
}

/// Top-left pixel of the visible map within the full tilemap.
pub open spec fn map_crop(submap: u8) -> (u32, u32) {
    if submap == 0 {
        (0, 0)
    } else {
        (SUBMAP_VIEW_X, SUBMAP_VIEW_Y)
    }
}

/// Top-left pixel of the visible map within the full tilemap.
pub fn visible_map_crop(submap: u8) -> (crop: (u32, u32))
    ensures
        crop == map_crop(submap),
{
    if submap == 0 {
        (0, 0)
    } else {
        (SUBMAP_VIEW_X, SUBMAP_VIEW_Y)
    }
}

/// VRAM address of the top-left 8x8 tile of visible map block
/// `(map16_x, map16_y)` in the layer 1 tilemap.
pub open spec fn l1_block_vram_addr(submap: u8, map16_x: int, map16_y: int) -> int {
    let (cx, cy) = map_crop(submap);
    VRAM_L1_TILEMAP_BASE + tilemap_offset((map16_x * 16 + cx) / 8, (map16_y * 16 + cy) / 8)
}

/// The VRAM layer 1 tilemap position `(tile_x, tile_y)` of the 8x8 tile at
/// the top-left of visible map block `(map16_x, map16_y)`.
pub open spec fn l1_view_tile(submap: u8, map16_x: int, map16_y: int) -> (int, int) {
    let (cx, cy) = map_crop(submap);
    ((map16_x * 16 + cx) / 8, (map16_y * 16 + cy) / 8)
}

/// The arithmetic of addressing tilemap entry `(col, row)` of the tilemap
/// at `base` fits the machine.
pub open spec fn entry_fits(base: int, col: int, row: int) -> bool {
    &&& col <= u32::MAX
    &&& row <= u32::MAX
    &&& ((row / 32) * 2 + col / 32) * 2048 <= u32::MAX
    &&& base + tilemap_offset(col, row) <= usize::MAX
}

/// The arithmetic of addressing the top-left layer 1 tile of visible map
/// block `(map16_x, map16_y)` fits the machine.
pub open spec fn l1_view_fits(submap: u8, map16_x: int, map16_y: int) -> bool {
    let (tx, ty) = l1_view_tile(submap, map16_x, map16_y);
    &&& map16_x * 16 + map_crop(submap).0 <= u32::MAX
    &&& map16_y * 16 + map_crop(submap).1 <= u32::MAX
    &&& entry_fits(VRAM_L1_TILEMAP_BASE as int, tx, ty)
}

/// Layer 1 VRAM tilemap address of visible map block `(map16_x,
/// map16_y)`.
pub fn l1_vram_addr_for_map16(submap: u8, map16_x: u32, map16_y: u32) -> (addr: usize)
    requires
        l1_view_fits(submap, map16_x as int, map16_y as int),
    ensures
        addr == l1_block_vram_addr(submap, map16_x as int, map16_y as int),
{
    let (crop_x, crop_y) = visible_map_crop(submap);
    let tile_x = (map16_x * 16 + crop_x) / 8;
    let tile_y = (map16_y * 16 + crop_y) / 8;
    tilemap_vram_addr(VRAM_L1_TILEMAP_BASE, tile_x, tile_y)
}

/// Offset of a submap's 32x32 layer 1 block grid in the source buffer: the
/// main map's first, the submaps' after it.
pub open spec fn source_l1_base(submap: u8) -> int {
    if submap == 0 {
        0
    } else {
        0x400
    }
}

/// Index in the layer 1 source buffer of visible map block `(map16_x,
/// map16_y)`, or `None` outside the 32x32 block grid.
pub open spec fn source_l1_index(submap: u8, map16_x: int, map16_y: int) -> Option<int> {
    let (cx, cy) = map_crop(submap);
    let col = (map16_x * 16 + cx) / 16;
    let row = (map16_y * 16 + cy) / 16;
    if col >= 32 || row >= 32 {
        None
    } else {
        Some(source_l1_base(submap) + ow_l1_offset(col as u32, row as u32))
    }
}

/// Layer 1 source buffer index of visible map block `(map16_x, map16_y)`.
pub fn source_l1_index_for_view(submap: u8, map16_x: u32, map16_y: u32) -> (idx: Option<usize>)
    requires
        map16_x * 16 + 16 <= u32::MAX,
        map16_y * 16 + 40 <= u32::MAX,
    ensures
        idx == (match source_l1_index(submap, map16_x as int, map16_y as int) {
            Some(i) => Some(i as usize),
            None => None,
        }),
        source_l1_index(submap, map16_x as int, map16_y as int) matches Some(i) ==> 0 <= i < 0x800,
{
    let (crop_x, crop_y) = visible_map_crop(submap);
    let src_col = (map16_x * 16 + crop_x) / 16;
    let src_row = (map16_y * 16 + crop_y) / 16;
    if src_col >= 32 || src_row >= 32 {
        return None;
    }
    let base: usize = if submap == 0 { 0 } else { 0x400 };
    let a = ow_l1_addr(src_col, src_row);
    assert(a <= 0x3FF) by {
        assert((src_col & 0x0F) <= 0x0F && (src_col & 0x10) <= 0x10 && (src_row & 0x0F) <= 0x0F
            && (src_row & 0x10) <= 0x10) by (bit_vector);
        assert(((src_col & 0x0F) | ((src_col & 0x10) << 4u32)) + (((src_row & 0x0F) << 4u32) | ((src_row
            & 0x10) << 5u32)) <= 0x3FF) by (bit_vector)
            requires
                src_col < 32,
                src_row < 32,
        ;
    }
    Some(base + a)
}

/// Renderer tile `[x, y, tile, params]` for overworld tilemap word `t`.
pub fn ow_tile(x: u32, y: u32, t: u16) -> (tile: [u32; 4])
    ensures
        tile@ == seq![x, y, (t as u32) & 0x3FF, tile_params(((t as u32) >> 10u32) & 7, t as u32)],
{
    let t32 = t as u32;
    let tile_num = t32 & 0x3FF;
    let pal = (t32 >> 10u32) & 0x7;
    let params = 8 | (pal << 8u32) | (t32 & 0xC000);
    let out = [x, y, tile_num, params];
    assert(out@ =~= seq![x, y, tile_num, params]);
    out
}


/// RGBA bytes of pixel `(x, y)` (each 0-15) of a 16x16 preview that shows
/// VRAM tile `tile_num` in palette `pal` at twice its size.
pub open spec fn single_tile_pixel(vram: Seq<u8>, cgram: Seq<u8>, tile_num: u8, pal: u8, x: int, y: int) -> Option<(u8, u8, u8)> {
    texel_color(
        vram,
        cgram,
        TilePlacement {
            tile_num: tile_num as usize,
            pal: pal as usize,
            flip_x: false,
            flip_y: false,
            x0: 0,
            y0: 0,
            stride: 16,
        },
        (y / 2) * 8 + x / 2,
    )
}

/// Bytes `4 * i .. 4 * i + 4` of `pixels` show preview pixel `i`: its
/// color with alpha 255, or zero when transparent.
pub open spec fn single_tile_px_ok(pixels: Seq<u8>, vram: Seq<u8>, cgram: Seq<u8>, tile_num: u8, pal: u8, i: int) -> bool {
    match single_tile_pixel(vram, cgram, tile_num, pal, i % 16, i / 16) {
        Some(rgb) => pixels[4 * i] == rgb.0 && pixels[4 * i + 1] == rgb.1 && pixels[4 * i + 2] == rgb.2
            && pixels[4 * i + 3] == 255,
        None => pixels[4 * i] == 0 && pixels[4 * i + 1] == 0 && pixels[4 * i + 2] == 0 && pixels[4 * i
            + 3] == 0,
    }
}

/// The 16x16 RGBA preview (1024 bytes) of VRAM tile `tile_num` in palette
/// `pal`, each texel drawn as a 2x2 square; transparent texels stay zero.
pub fn render_single_tile_preview(vram: &[u8], cgram: &[u8], tile_num: u8, pal: u8) -> (pixels: Vec<u8>)
    ensures
        pixels@.len() == 1024,
        forall|i: int| 0 <= i < 256 ==> #[trigger] single_tile_px_ok(pixels@, vram@, cgram@, tile_num, pal, i),
{
    let p = TilePlacement {
        tile_num: tile_num as usize,
        pal: pal as usize,
        flip_x: false,
        flip_y: false,
        x0: 0,
        y0: 0,
        stride: 16,
    };
    let mut pixels: Vec<u8> = Vec::new();
    let mut i: usize = 0;
    while i < 256
        invariant
            p == (TilePlacement {
                tile_num: tile_num as usize,
                pal: pal as usize,
                flip_x: false,
                flip_y: false,
                x0: 0,
                y0: 0,
                stride: 16,
            }),
            i <= 256,
            pixels@.len() == 4 * i,
            forall|k: int| 0 <= k < i ==> #[trigger] single_tile_px_ok(pixels@, vram@, cgram@, tile_num, pal, k),
        decreases 256 - i,
    {
        let x = i % 16;
        let y = i / 16;
        let ghost before = pixels@;
        match texel_rgb(vram, cgram, p, (y / 2) * 8 + x / 2) {
            Some((r, g, b)) => {
                pixels.push(r);
                pixels.push(g);
                pixels.push(b);
                pixels.push(255);
            },
            None => {
                pixels.push(0);
                pixels.push(0);
                pixels.push(0);
                pixels.push(0);
            },
        }
        proof {
            assert forall|k: int| 0 <= k < i + 1 implies #[trigger] single_tile_px_ok(
                pixels@,
                vram@,
                cgram@,
                tile_num,
                pal,
                k,
            ) by {
                if k < i {
                    assert(single_tile_px_ok(before, vram@, cgram@, tile_num, pal, k));
                    assert(pixels@[4 * k] == before[4 * k] && pixels@[4 * k + 1] == before[4 * k + 1]
                        && pixels@[4 * k + 2] == before[4 * k + 2] && pixels@[4 * k + 3] == before[4 * k
                        + 3]);
                }
            }
        }
        i += 1;
    }
    pixels
}

/// Placement of sub-tile `k` (top-left, top-right, bottom-left,
/// bottom-right) of visible map block `(map16_x, map16_y)` in a 16x16
/// preview, read from the tilemap at `base`; `None` when its entry lies
/// past the end of VRAM.
pub open spec fn block_sub_tile(vram: Seq<u8>, base: int, submap: u8, map16_x: int, map16_y: int, k: int) -> Option<TilePlacement> {
    let (cx, cy) = map_crop(submap);
    let dx = k % 2;
    let dy = k / 2;
    let addr = base + tilemap_offset((map16_x * 16 + cx) / 8 + dx, (map16_y * 16 + cy) / 8 + dy);
    if addr + 1 >= vram.len() {
        None
    } else {
        let t0 = vram[addr];
        let t1 = vram[addr + 1];
        Some(
            TilePlacement {
                tile_num: (t0 + 256 * (t1 % 4)) as usize,
                pal: ((t1 / 4) % 8) as usize,
                flip_x: (t1 / 64) % 2 == 1,
                flip_y: t1 / 128 == 1,
                x0: (dx * 8) as i64,
                y0: (dy * 8) as i64,
                stride: 16,
            },
        )
    }
}

/// The preview's RGBA bytes after drawing its first `k` sub-tiles onto a
/// transparent 16x16 image.
pub open spec fn block_preview_upto(vram: Seq<u8>, cgram: Seq<u8>, base: int, submap: u8, map16_x: int, map16_y: int, k: int) -> Seq<u8>
    decreases k,
{
    if k <= 0 {
        Seq::new(1024, |i: int| 0u8)
    } else {
        let prev = block_preview_upto(vram, cgram, base, submap, map16_x, map16_y, k - 1);
        match block_sub_tile(vram, base, submap, map16_x, map16_y, k - 1) {
            Some(p) => tile_drawn(vram, cgram, p, prev, 64),
            None => prev,
        }
    }
}

/// The 16x16 RGBA preview (1024 bytes) of visible map block `(map16_x,
/// map16_y)`, from its four tilemap entries at `tilemap_base`.
pub fn render_ow_block_preview(
    vram: &[u8],
    cgram: &[u8],
    submap: u8,
    map16_x: u32,
    map16_y: u32,
    tilemap_base: usize,
) -> (pixels: Vec<u8>)
    requires
        map16_x < 64,
        map16_y < 64,
        tilemap_base <= 0x10000,
    ensures
        pixels@ == block_preview_upto(
            vram@,
            cgram@,
            tilemap_base as int,
            submap,
            map16_x as int,
            map16_y as int,
            4,
        ),
{
    let (crop_x, crop_y) = visible_map_crop(submap);
    let base_tile_x = (map16_x * 16 + crop_x) / 8;
    let base_tile_y = (map16_y * 16 + crop_y) / 8;
    let mut pixels: Vec<u8> = Vec::new();
    let mut z: usize = 0;
    while z < 1024
        invariant
            z <= 1024,
            pixels@.len() == z,
            forall|j: int| 0 <= j < z ==> pixels@[j] == 0,
        decreases 1024 - z,
    {
        pixels.push(0);
        z += 1;
    }
    assert(pixels@ =~= block_preview_upto(vram@, cgram@, tilemap_base as int, submap, map16_x as int, map16_y as int, 0));
    let mut k: u32 = 0;
    while k < 4
        invariant
            map16_x < 64,
            map16_y < 64,
            tilemap_base <= 0x10000,
            (base_tile_x as int) == (map16_x * 16 + map_crop(submap).0) / 8,
            (base_tile_y as int) == (map16_y * 16 + map_crop(submap).1) / 8,
            base_tile_x < 140,
            base_tile_y < 140,
            k <= 4,
            pixels@ == block_preview_upto(vram@, cgram@, tilemap_base as int, submap, map16_x as int, map16_y as int, k as int),
        decreases 4 - k,
    {
        let dx = k % 2;
        let dy = k / 2;
        let addr = tilemap_vram_addr(tilemap_base, base_tile_x + dx, base_tile_y + dy);
        if addr + 1 < vram.len() {
            let t0 = vram[addr] as usize;
            let t1 = vram[addr + 1];
            proof {
                crate::bits::lemma_u8_fields();
            }
            let p = TilePlacement {
                tile_num: t0 + 256 * ((t1 & 3) as usize),
                pal: ((t1 >> 2u8) & 7) as usize,
                flip_x: (t1 & 0x40) != 0,
                flip_y: (t1 & 0x80) != 0,
                x0: (dx * 8) as i64,
                y0: (dy * 8) as i64,
                stride: 16,
            };
            assert((t1 & 3) == t1 % 4 && ((t1 >> 2u8) & 7) == (t1 / 4) % 8 && ((t1 & 0x40) != 0) == ((t1
                / 64) % 2 == 1) && ((t1 & 0x80) != 0) == (t1 / 128 == 1)) by (bit_vector);
            draw_tile(vram, cgram, p, &mut pixels);
        }
        k += 1;
    }
    pixels
}


/// Tile number and palette row of the tilemap entry at `addr`.
pub open spec fn entry_key(vram: Seq<u8>, addr: int) -> (u16, u8) {
    ((vram[addr] + 256 * (vram[addr + 1] % 4)) as u16, ((vram[addr + 1] / 4) % 8) as u8)
}

/// Entry `e` (0-8191) of the two 64x64 tilemaps at `l1_base` and
/// `l2_base`: the first 4096 are layer 1, row-major.
pub open spec fn entry_addr(l1_base: int, l2_base: int, e: int) -> int {
    let base = if e < 4096 {
        l1_base
    } else {
        l2_base
    };
    let f = e % 4096;
    base + tilemap_offset(f % 64, f / 64)
}

/// Some entry of the two tilemaps inside VRAM shows tile `t` in palette
/// row `p`.
pub open spec fn key_used(vram: Seq<u8>, l1_base: int, l2_base: int, t: int, p: int) -> bool {
    exists|e: int|
        0 <= e < 8192 && entry_addr(l1_base, l2_base, e) + 1 < vram.len() && #[trigger] entry_key(
            vram,
            entry_addr(l1_base, l2_base, e),
        ) == (t as u16, p as u8)
}

/// The used `(tile, palette)` pairs among the first `k` in ascending
/// order (pair `k` is tile `k / 8`, palette `k % 8`).
pub open spec fn used_keys_upto(vram: Seq<u8>, l1_base: int, l2_base: int, k: int) -> Seq<(u16, u8)>
    decreases k,
{
    if k <= 0 {
        seq![]
    } else {
        used_keys_upto(vram, l1_base, l2_base, k - 1) + if key_used(vram, l1_base, l2_base, (k - 1) / 8, (k - 1) % 8) {
            seq![(((k - 1) / 8) as u16, ((k - 1) % 8) as u8)]
        } else {
            seq![]
        }
    }
}

/// Pixel `(x, y)` of the overworld tile picker: used tile `i` sits in
/// column `i % 16`, row `i / 16` of 16x16 cells, drawn at twice its size;
/// tiles past the end of VRAM stay blank.
pub open spec fn picker_pixel(vram: Seq<u8>, cgram: Seq<u8>, used: Seq<(u16, u8)>, x: int, y: int) -> Option<(u8, u8, u8)> {
    let i = (y / 16) * 16 + x / 16;
    if i >= used.len() {
        None
    } else {
        let (t, p) = used[i];
        if t * 32 + 32 > vram.len() {
            None
        } else {
            texel_color(
                vram,
                cgram,
                TilePlacement {
                    tile_num: t as usize,
                    pal: p as usize,
                    flip_x: false,
                    flip_y: false,
                    x0: 0,
                    y0: 0,
                    stride: 16,
                },
                ((y % 16) / 2) * 8 + (x % 16) / 2,
            )
        }
    }
}

/// Bytes `4 * i .. 4 * i + 4` of `pixels` show picker pixel `i` of a
/// 256-pixel-wide texture.
pub open spec fn picker_px_ok(pixels: Seq<u8>, vram: Seq<u8>, cgram: Seq<u8>, used: Seq<(u16, u8)>, i: int) -> bool {
    match picker_pixel(vram, cgram, used, i % 256, i / 256) {
        Some(rgb) => pixels[4 * i] == rgb.0 && pixels[4 * i + 1] == rgb.1 && pixels[4 * i + 2] == rgb.2
            && pixels[4 * i + 3] == 255,
        None => pixels[4 * i] == 0 && pixels[4 * i + 1] == 0 && pixels[4 * i + 2] == 0 && pixels[4 * i
            + 3] == 0,
    }
}

/// The overworld tile picker: every `(tile, palette)` pair the overworld
/// tilemaps use, and the RGBA texture showing them.
#[derive(Clone, Debug)]
pub struct OwTilePicker {
    pub pixels: Vec<u8>,
    pub used_tiles: Vec<(u16, u8)>,
    pub tex_w: usize,
    pub tex_h: usize,
}

impl OwTilePicker {
    /// An empty picker.
    pub fn new() -> (picker: Self)
        ensures
            picker.pixels@.len() == 0,
            picker.used_tiles@.len() == 0,
            picker.tex_w == 0,
            picker.tex_h == 0,
    {
        OwTilePicker { pixels: Vec::new(), used_tiles: Vec::new(), tex_w: 0, tex_h: 0 }
    }

    /// Collect the pairs the layer 1 and layer 2 tilemaps use, sorted, and
    /// render them into a texture 16 cells wide (at least one row).
    pub fn rebuild(&mut self, vram: &[u8], cgram: &[u8], l1_base: usize, l2_base: usize)
        requires
            l1_base <= 0x10000,
            l2_base <= 0x10000,
        ensures
            final(self).used_tiles@ == used_keys_upto(vram@, l1_base as int, l2_base as int, 8192),
            final(self).tex_w == 256,
            final(self).tex_h == 16 * (if final(self).used_tiles@.len() == 0 {
                1
            } else {
                (final(self).used_tiles@.len() + 15) / 16
            }),
            final(self).pixels@.len() == 4 * final(self).tex_w * final(self).tex_h,
            forall|i: int|
                0 <= i < final(self).tex_w * final(self).tex_h ==> #[trigger] picker_px_ok(
                    final(self).pixels@,
                    vram@,
                    cgram@,
                    final(self).used_tiles@,
                    i,
                ),
    {
        let ghost l1 = l1_base as int;
        let ghost l2 = l2_base as int;
        let mut table: Vec<bool> = Vec::new();
        let mut k: usize = 0;
        while k < 8192
            invariant
                k <= 8192,
                table@.len() == k,
                forall|j: int| 0 <= j < k ==> !table@[j],
            decreases 8192 - k,
        {
            table.push(false);
            k += 1;
        }
        let mut e: usize = 0;
        while e < 8192
            invariant
                l1_base <= 0x10000,
                l2_base <= 0x10000,
                l1 == l1_base,
                l2 == l2_base,
                e <= 8192,
                table@.len() == 8192,
                forall|j: int|
                    0 <= j < 8192 ==> #[trigger] table@[j] == exists|f: int|
                        0 <= f < e && entry_addr(l1, l2, f) + 1 < vram@.len() && #[trigger] entry_key(
                            vram@,
                            entry_addr(l1, l2, f),
                        ) == ((j / 8) as u16, (j % 8) as u8),
            decreases 8192 - e,
        {
            let base = if e < 4096 { l1_base } else { l2_base };
            let f = e % 4096;
            let addr = tilemap_vram_addr(base, (f % 64) as u32, (f / 64) as u32);
            assert(addr == entry_addr(l1, l2, e as int));
            if addr + 1 < vram.len() {
                let t0 = vram[addr] as usize;
                let t1 = vram[addr + 1];
                let tile = t0 + 256 * ((t1 % 4) as usize);
                let pal = ((t1 / 4) % 8) as usize;
                let key_index = tile * 8 + pal;
                table.set(key_index, true);
                proof {
                    let key = entry_key(vram@, addr as int);
                    assert(key == (tile as u16, pal as u8));
                    assert forall|j: int| 0 <= j < 8192 implies #[trigger] table@[j] == exists|g: int|
                        0 <= g < e + 1 && entry_addr(l1, l2, g) + 1 < vram@.len() && #[trigger] entry_key(
                            vram@,
                            entry_addr(l1, l2, g),
                        ) == ((j / 8) as u16, (j % 8) as u8) by {
                        if j == key_index {
                            assert(entry_key(vram@, entry_addr(l1, l2, e as int)) == ((j / 8) as u16, (j % 8) as u8));
                        } else {
                            if entry_key(vram@, entry_addr(l1, l2, e as int)) == ((j / 8) as u16, (j % 8) as u8) {
                                assert(j == key_index);
                            }
                        }
                    }
                }
            }
            e += 1;
        }
        let mut used: Vec<(u16, u8)> = Vec::new();
        let mut k: usize = 0;
        while k < 8192
            invariant
                l1 == l1_base,
                l2 == l2_base,
                k <= 8192,
                table@.len() == 8192,
                forall|j: int|
                    0 <= j < 8192 ==> #[trigger] table@[j] == key_used(vram@, l1, l2, j / 8, j % 8),
                used@ == used_keys_upto(vram@, l1, l2, k as int),
                used@.len() <= k,
            decreases 8192 - k,
        {
            if table[k] {
                used.push(((k / 8) as u16, (k % 8) as u8));
            }
            k += 1;
        }
        let n = used.len();
        let rows: usize = if n == 0 { 1 } else { (n + 15) / 16 };
        let tex_w: usize = 256;
        let tex_h: usize = rows * 16;
        let total = tex_w * tex_h;
        let mut pixels: Vec<u8> = Vec::new();
        let mut i: usize = 0;
        while i < total
            invariant
                n == used@.len(),
                n <= 8192,
                total == tex_w * tex_h,
                tex_w == 256,
                tex_h == rows * 16,
                rows <= 512,
                i <= total,
                pixels@.len() == 4 * i,
                forall|k: int| 0 <= k < i ==> #[trigger] picker_px_ok(pixels@, vram@, cgram@, used@, k),
            decreases total - i,
        {
            let x = i % 256;
            let y = i / 256;
            let cell = (y / 16) * 16 + x / 16;
            let ghost before = pixels@;
            let mut rgb: Option<(u8, u8, u8)> = None;
            if cell < n {
                let (t, p) = used[cell];
                if (t as usize) * 32 + 32 <= vram.len() {
                    let pl = TilePlacement {
                        tile_num: t as usize,
                        pal: p as usize,
                        flip_x: false,
                        flip_y: false,
                        x0: 0,
                        y0: 0,
                        stride: 16,
                    };
                    rgb = texel_rgb(vram, cgram, pl, ((y % 16) / 2) * 8 + (x % 16) / 2);
                }
            }
            match rgb {
                Some((r, g, b)) => {
                    pixels.push(r);
                    pixels.push(g);
                    pixels.push(b);
                    pixels.push(255);
                },
                None => {
                    pixels.push(0);
                    pixels.push(0);
                    pixels.push(0);
                    pixels.push(0);
                },
            }
            proof {
                assert(rgb == picker_pixel(vram@, cgram@, used@, x as int, y as int));
                assert forall|k: int| 0 <= k < i + 1 implies #[trigger] picker_px_ok(
                    pixels@,
                    vram@,
                    cgram@,
                    used@,
                    k,
                ) by {
                    if k < i {
                        assert(picker_px_ok(before, vram@, cgram@, used@, k));
                        assert(pixels@[4 * k] == before[4 * k] && pixels@[4 * k + 1] == before[4 * k + 1]
                            && pixels@[4 * k + 2] == before[4 * k + 2] && pixels@[4 * k + 3] == before[4
                            * k + 3]);
                    }
                }
            }
            i += 1;
        }
        assert(pixels@.len() == 4 * tex_w * tex_h) by (nonlinear_arith)
            requires
                pixels@.len() == 4 * i,
                i == total,
                total == tex_w * tex_h,
        ;
        self.used_tiles = used;
        self.tex_w = tex_w;
        self.tex_h = tex_h;
        self.pixels = pixels;
    }

    /// The `(tile, palette)` of the picker cell under texture pixel `(px,
    /// py)`, the tile number cut to its low byte.
    pub fn tile_at_pixel(&self, px: usize, py: usize) -> (hit: Option<(u8, u8)>)
        ensures
            ({
                let idx = (py / 16) * 16 + px / 16;
                if idx < self.used_tiles@.len() {
                    hit == Some(((self.used_tiles@[idx].0 % 256) as u8, self.used_tiles@[idx].1))
                } else {
                    hit is None
                }
            }),
    {
        let col = px / 16;
        let row = py / 16;
        let n = self.used_tiles.len();
        if row > n / 16 {
            assert((py / 16) * 16 + px / 16 >= n) by (nonlinear_arith)
                requires
                    row == py / 16,
                    row > n / 16,
            ;
            return None;
        }
        assert(row * 16 <= n) by (nonlinear_arith)
            requires
                row <= n / 16,
        ;
        if col >= n - row * 16 {
            return None;
        }
        let idx = row * 16 + col;
        let (t, p) = self.used_tiles[idx];
        Some(((t % 256) as u8, p))
    }
}

proof fn lemma_used_keys_contains(vram: Seq<u8>, l1_base: int, l2_base: int, k: int, j: int)
    requires
        0 <= j < k,
        key_used(vram, l1_base, l2_base, j / 8, j % 8),
    ensures
        used_keys_upto(vram, l1_base, l2_base, k).contains(((j / 8) as u16, (j % 8) as u8)),
    decreases k,
{
    let prev = used_keys_upto(vram, l1_base, l2_base, k - 1);
    let cur = used_keys_upto(vram, l1_base, l2_base, k);
    if j < k - 1 {
        lemma_used_keys_contains(vram, l1_base, l2_base, k - 1, j);
        let i = choose|i: int| 0 <= i < prev.len() && prev[i] == ((j / 8) as u16, (j % 8) as u8);
        assert(cur[i] == prev[i]);
    } else {
        assert(cur[prev.len() as int] == ((j / 8) as u16, (j % 8) as u8));
    }
}

proof fn lemma_used_keys_members(vram: Seq<u8>, l1_base: int, l2_base: int, k: int, i: int)
    requires
        0 <= i < used_keys_upto(vram, l1_base, l2_base, k).len(),
    ensures
        exists|t: int, p: int|
            #[trigger] key_used(vram, l1_base, l2_base, t, p) && used_keys_upto(vram, l1_base, l2_base, k)[i] == (
                t as u16,
                p as u8,
            ),
    decreases k,
{
    let prev = used_keys_upto(vram, l1_base, l2_base, k - 1);
    let cur = used_keys_upto(vram, l1_base, l2_base, k);
    if i < prev.len() {
        lemma_used_keys_members(vram, l1_base, l2_base, k - 1, i);
        let (t, p) = choose|t: int, p: int|
            #[trigger] key_used(vram, l1_base, l2_base, t, p) && prev[i] == (t as u16, p as u8);
        assert(cur[i] == prev[i]);
        assert(key_used(vram, l1_base, l2_base, t, p) && cur[i] == (t as u16, p as u8));
    } else {
        let t = (k - 1) / 8;
        let p = (k - 1) % 8;
        assert(key_used(vram, l1_base, l2_base, t, p) && cur[i] == (t as u16, p as u8));
    }
}

/// The tile picker lists the full tile of every entry of the two
/// tilemaps: for an entry with bytes `lo`, `hi` inside VRAM, the pair of
/// its 10-bit tile number `lo + 256 * (hi & 3)` and its palette row
/// `(hi >> 2) & 7` is among the listed pairs.
pub proof fn lemma_picker_lists_every_entry(vram: Seq<u8>, l1_base: int, l2_base: int, e: int)
    requires
        0 <= e < 8192,
        0 <= entry_addr(l1_base, l2_base, e),
        entry_addr(l1_base, l2_base, e) + 1 < vram.len(),
    ensures
        ({
            let a = entry_addr(l1_base, l2_base, e);
            used_keys_upto(vram, l1_base, l2_base, 8192).contains(
                ((vram[a] + 256 * (vram[a + 1] % 4)) as u16, ((vram[a + 1] / 4) % 8) as u8),
            )
        }),
{
    let a = entry_addr(l1_base, l2_base, e);
    let t = vram[a] + 256 * (vram[a + 1] % 4);
    let p = (vram[a + 1] / 4) % 8;
    assert(0 <= t < 1024 && 0 <= p < 8);
    let j = t * 8 + p;
    assert(j / 8 == t && j % 8 == p);
    assert(entry_key(vram, a) == (t as u16, p as u8));
    assert(key_used(vram, l1_base, l2_base, j / 8, j % 8));
    lemma_used_keys_contains(vram, l1_base, l2_base, 8192, j);
}

/// The tile picker lists nothing else: every listed pair is the 10-bit
/// tile number `lo + 256 * (hi & 3)` and palette row `(hi >> 2) & 7` of
/// some entry with bytes `lo`, `hi` inside VRAM.
pub proof fn lemma_picker_lists_only_entries(vram: Seq<u8>, l1_base: int, l2_base: int, i: int)
    requires
        0 <= i < used_keys_upto(vram, l1_base, l2_base, 8192).len(),
    ensures
        exists|e: int|
            #![trigger entry_addr(l1_base, l2_base, e)]
            {
                let a = entry_addr(l1_base, l2_base, e);
                &&& 0 <= e < 8192
                &&& a + 1 < vram.len()
                &&& used_keys_upto(vram, l1_base, l2_base, 8192)[i] == (
                    (vram[a] + 256 * (vram[a + 1] % 4)) as u16,
                    ((vram[a + 1] / 4) % 8) as u8,
                )
            },
{
    lemma_used_keys_members(vram, l1_base, l2_base, 8192, i);
    let (t, p) = choose|t: int, p: int|
        #[trigger] key_used(vram, l1_base, l2_base, t, p) && used_keys_upto(vram, l1_base, l2_base, 8192)[i] == (
            t as u16,
            p as u8,
        );
    let e = choose|e: int|
        0 <= e < 8192 && entry_addr(l1_base, l2_base, e) + 1 < vram.len() && #[trigger] entry_key(
            vram,
            entry_addr(l1_base, l2_base, e),
        ) == (t as u16, p as u8);
    let a = entry_addr(l1_base, l2_base, e);
    assert(entry_key(vram, a) == ((vram[a] + 256 * (vram[a + 1] % 4)) as u16, ((vram[a + 1] / 4) % 8) as u8));
}

} // verus!
