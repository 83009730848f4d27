//! Editing the overworld: tiles written into the composed VRAM tilemaps and
//! the layer 2 buffer in WRAM, the layer 1 source blocks, the tile list
//! handed to the renderer, and the layer 2 streams written back on save.

use crate::bits::lemma_u16_fields;
use crate::overworld::{
    entry_fits, l1_view_fits, l1_view_tile, map_crop, ow_tile, source_l1_index, visible_map_crop, SUBMAP_VIEW_H, SUBMAP_VIEW_W, SUBMAP_VIEW_X, SUBMAP_VIEW_Y,
    VRAM_L1_TILEMAP_BASE, VRAM_L2_TILEMAP_BASE,
};
use crate::snes_gfx::{tile_params, tilemap_offset, tilemap_vram_addr};
use vstd::prelude::*;

verus! {

/// Offset in WRAM of the overworld layer 2 tilemap (`$7F4000`), two bytes
/// per entry.
pub const WRAM_OW_L2: usize = 0x14000;

/// `bytes` with `lo`, `hi` written at `addr` and `addr + 1`, when both lie
/// inside it.
pub open spec fn put_pair(bytes: Seq<u8>, addr: int, lo: u8, hi: u8) -> Seq<u8> {
    if addr + 1 < bytes.len() {
        bytes.update(addr, lo).update(addr + 1, hi)
    } else {
        bytes
    }
}

/// `bytes` with word `w` written little-endian at `addr`, when it fits.
pub open spec fn put_word(bytes: Seq<u8>, addr: int, w: u16) -> Seq<u8> {
    put_pair(bytes, addr, (w % 256) as u8, (w / 256) as u8)
}

fn store_pair(bytes: &mut Vec<u8>, addr: usize, lo: u8, hi: u8)
    ensures
        final(bytes)@ == put_pair(old(bytes)@, addr as int, lo, hi),
{
    if bytes.len() > 1 && addr < bytes.len() - 1 {
        bytes.set(addr, lo);
        bytes.set(addr + 1, hi);
    }
}

fn store_word(bytes: &mut Vec<u8>, addr: usize, w: u16)
    ensures
        final(bytes)@ == put_word(old(bytes)@, addr as int, w),
{
    proof {
        lemma_u16_fields();
    }
    store_pair(bytes, addr, (w & 0xFF) as u8, (w >> 8u16) as u8);
}

/// Write `tile_num` and `attr` into the layer 1 VRAM tilemap entry under
/// visible map block `(map16_x, map16_y)`.
pub fn write_l1_tile(vram: &mut Vec<u8>, submap: u8, map16_x: u32, map16_y: u32, tile_num: u8, attr: u8)
    requires
        l1_view_fits(submap, map16_x as int, map16_y as int),
    ensures
        final(vram)@ == put_pair(
            old(vram)@,
            VRAM_L1_TILEMAP_BASE + tilemap_offset(
                l1_view_tile(submap, map16_x as int, map16_y as int).0,
                l1_view_tile(submap, map16_x as int, map16_y as int).1,
            ),
            tile_num,
            attr,
        ),
{
    let (crop_x, crop_y) = visible_map_crop(submap);
    let tile_x = (map16_x * 16 + crop_x) / 8;
    let tile_y = (map16_y * 16 + crop_y) / 8;
    let addr = tilemap_vram_addr(VRAM_L1_TILEMAP_BASE, tile_x, tile_y);
    store_pair(vram, addr, tile_num, attr);
}

/// Write `tile_num` and `attr` into entry `(tile_x, tile_y)` of the layer 2
/// VRAM tilemap.
pub fn write_l2_tile(vram: &mut Vec<u8>, tile_x: u32, tile_y: u32, tile_num: u8, attr: u8)
    requires
        entry_fits(VRAM_L2_TILEMAP_BASE as int, tile_x as int, tile_y as int),
    ensures
        final(vram)@ == put_pair(
            old(vram)@,
            VRAM_L2_TILEMAP_BASE + tilemap_offset(tile_x as int, tile_y as int),
            tile_num,
            attr,
        ),
{
    let addr = tilemap_vram_addr(VRAM_L2_TILEMAP_BASE, tile_x, tile_y);
    store_pair(vram, addr, tile_num, attr);
}

/// Paint `tile_num` with attributes `attr` at `(map16_x, map16_y)` of the
/// edited layer. On layer 2 the position is a layer 2 tilemap entry: the
/// word is stored in `layer2_words`, the WRAM copy and VRAM, and the edit
/// is reported (`true`). On layer 1 the position is a visible map block and
/// only its top-left VRAM tilemap entry is written.
pub fn write_tile(
    vram: &mut Vec<u8>,
    wram: &mut Vec<u8>,
    layer2_words: &mut Vec<u16>,
    edit_layer: u8,
    submap: u8,
    map16_x: u32,
    map16_y: u32,
    tile_num: u8,
    attr: u8,
) -> (edited: bool)
    requires
        edit_layer == 2 ==> entry_fits(VRAM_L2_TILEMAP_BASE as int, map16_x as int, map16_y as int),
        edit_layer == 2 ==> WRAM_OW_L2 + tilemap_offset(map16_x as int, map16_y as int) <= usize::MAX,
        edit_layer != 2 ==> l1_view_fits(submap, map16_x as int, map16_y as int),
    ensures
        edited == (edit_layer == 2),
        edit_layer == 2 ==> {
            let idx = tilemap_offset(map16_x as int, map16_y as int) / 2;
            let word = (tile_num + 256 * attr) as u16;
            &&& final(layer2_words)@ == (if idx < old(layer2_words)@.len() {
                old(layer2_words)@.update(idx, word)
            } else {
                old(layer2_words)@
            })
            &&& final(wram)@ == put_word(old(wram)@, WRAM_OW_L2 + 2 * idx, word)
            &&& final(vram)@ == put_pair(
                old(vram)@,
                VRAM_L2_TILEMAP_BASE + tilemap_offset(map16_x as int, map16_y as int),
                tile_num,
                attr,
            )
        },
        edit_layer != 2 ==> {
            &&& final(layer2_words)@ == old(layer2_words)@
            &&& final(wram)@ == old(wram)@
            &&& final(vram)@ == put_pair(
                old(vram)@,
                VRAM_L1_TILEMAP_BASE + tilemap_offset(
                    l1_view_tile(submap, map16_x as int, map16_y as int).0,
                    l1_view_tile(submap, map16_x as int, map16_y as int).1,
                ),
                tile_num,
                attr,
            )
        },
{
    if edit_layer == 2 {
        let addr = tilemap_vram_addr(VRAM_L2_TILEMAP_BASE, map16_x, map16_y);
        let word: u16 = (tile_num as u16) | ((attr as u16) << 8u16);
        assert(word == tile_num + 256 * attr) by (bit_vector)
            requires
                word == (tile_num as u16) | ((attr as u16) << 8u16),
        ;
        let idx = (addr - VRAM_L2_TILEMAP_BASE) / 2;
        if idx < layer2_words.len() {
            layer2_words.set(idx, word);
        }
        store_word(wram, WRAM_OW_L2 + idx * 2, word);
        write_l2_tile(vram, map16_x, map16_y, tile_num, attr);
        true
    } else {
        write_l1_tile(vram, submap, map16_x, map16_y, tile_num, attr);
        false
    }
}


/// Position of character word `k` (top-left, top-right, bottom-left,
/// bottom-right) of a 16x16 block within its 2x2 tiles.
pub open spec fn quarter(k: int) -> (int, int) {
    if k == 0 {
        (0, 0)
    } else if k == 1 {
        (1, 0)
    } else if k == 2 {
        (0, 1)
    } else {
        (1, 1)
    }
}

/// `vram` after writing the first `k` character words of layer 1 block
/// `(col, row)` into the layer 1 tilemap.
pub open spec fn block_words_written(vram: Seq<u8>, col: int, row: int, words: [u16; 4], k: int) -> Seq<u8>
    decreases k,
{
    if k <= 0 {
        vram
    } else {
        let (dx, dy) = quarter(k - 1);
        put_word(
            block_words_written(vram, col, row, words, k - 1),
            VRAM_L1_TILEMAP_BASE + tilemap_offset(col * 2 + dx, row * 2 + dy),
            words[k - 1],
        )
    }
}

/// The arithmetic of writing layer 1 block `(col, row)` fits the machine.
pub open spec fn block_fits(col: int, row: int) -> bool {
    &&& entry_fits(VRAM_L1_TILEMAP_BASE as int, col * 2, row * 2)
    &&& entry_fits(VRAM_L1_TILEMAP_BASE as int, col * 2 + 1, row * 2)
    &&& entry_fits(VRAM_L1_TILEMAP_BASE as int, col * 2, row * 2 + 1)
    &&& entry_fits(VRAM_L1_TILEMAP_BASE as int, col * 2 + 1, row * 2 + 1)
}

/// Write the four character words `sub_tiles` of an overworld layer 1 tile
/// (top-left, top-right, bottom-left, bottom-right) as source block
/// `(src_col, src_row)` of the layer 1 VRAM tilemap.
pub fn write_source_l1_block_words(vram: &mut Vec<u8>, src_col: u32, src_row: u32, sub_tiles: [u16; 4])
    requires
        block_fits(src_col as int, src_row as int),
    ensures
        final(vram)@ == block_words_written(old(vram)@, src_col as int, src_row as int, sub_tiles, 4),
{
    let base_tile_x = src_col * 2;
    let base_tile_y = src_row * 2;
    let mut k: usize = 0;
    while k < 4
        invariant
            block_fits(src_col as int, src_row as int),
            base_tile_x == src_col * 2,
            base_tile_y == src_row * 2,
            k <= 4,
            vram@ == block_words_written(old(vram)@, src_col as int, src_row as int, sub_tiles, k as int),
        decreases 4 - k,
    {
        let (dx, dy): (u32, u32) = if k == 0 {
            (0, 0)
        } else if k == 1 {
            (1, 0)
        } else if k == 2 {
            (0, 1)
        } else {
            (1, 1)
        };
        let addr = tilemap_vram_addr(VRAM_L1_TILEMAP_BASE, base_tile_x + dx, base_tile_y + dy);
        store_word(vram, addr, sub_tiles[k]);
        k += 1;
    }
}

/// Source block `(col, row)` of visible map block `(map16_x, map16_y)`.
pub open spec fn view_source_block(submap: u8, map16_x: int, map16_y: int) -> (int, int) {
    let (cx, cy) = map_crop(submap);
    ((map16_x * 16 + cx) / 16, (map16_y * 16 + cy) / 16)
}

/// Set the layer 1 source tile under visible map block `(map16_x,
/// map16_y)` to `tile_id` and draw it into VRAM from its character words
/// `sub_tiles`; a block outside the 32x32 source grid changes nothing.
pub fn set_source_l1_tile_at_view(
    layer1: &mut Vec<u8>,
    vram: &mut Vec<u8>,
    submap: u8,
    map16_x: u32,
    map16_y: u32,
    tile_id: u8,
    sub_tiles: [u16; 4],
)
    requires
        map16_x * 16 + 16 <= u32::MAX,
        map16_y * 16 + 40 <= u32::MAX,
    ensures
        match source_l1_index(submap, map16_x as int, map16_y as int) {
            None => final(layer1)@ == old(layer1)@ && final(vram)@ == old(vram)@,
            Some(i) => {
                &&& final(layer1)@ == (if i < old(layer1)@.len() {
                    old(layer1)@.update(i, tile_id)
                } else {
                    old(layer1)@
                })
                &&& final(vram)@ == block_words_written(
                    old(vram)@,
                    view_source_block(submap, map16_x as int, map16_y as int).0,
                    view_source_block(submap, map16_x as int, map16_y as int).1,
                    sub_tiles,
                    4,
                )
            },
        },
{
    let idx = match crate::overworld::source_l1_index_for_view(submap, map16_x, map16_y) {
        Some(i) => i,
        None => return,
    };
    if idx < layer1.len() {
        layer1.set(idx, tile_id);
    }
    let (crop_x, crop_y) = visible_map_crop(submap);
    let src_col = (map16_x * 16 + crop_x) / 16;
    let src_row = (map16_y * 16 + crop_y) / 16;
    assert(src_col < 32 && src_row < 32);
    write_source_l1_block_words(vram, src_col, src_row, sub_tiles);
}

/// `bytes` after words `0 .. n` of `words` are written little-endian at
/// `base + 2 * i`, each only when it fits.
pub open spec fn words_synced(bytes: Seq<u8>, base: int, words: Seq<u16>, n: int) -> Seq<u8>
    decreases n,
{
    if n <= 0 {
        bytes
    } else {
        put_word(words_synced(bytes, base, words, n - 1), base + 2 * (n - 1), words[n - 1])
    }
}

/// `vram` after redrawing the first `n` source blocks of the submap from
/// `layer1` (the submap's blocks start at its offset), each from the
/// character words `char_words[tile_id]` of its tile.
pub open spec fn blocks_synced(
    vram: Seq<u8>,
    layer1: Seq<u8>,
    offset: int,
    char_words: Seq<[u16; 4]>,
    n: int,
) -> Seq<u8>
    decreases n,
{
    if n <= 0 {
        vram
    } else {
        let i = n - 1;
        block_words_written(
            blocks_synced(vram, layer1, offset, char_words, n - 1),
            i % 32,
            i / 32,
            char_words[layer1[offset + i] as int],
            4,
        )
    }
}

/// Number of source blocks the submap has in `layer1`: what follows its
/// offset, at most 32x32.
pub open spec fn synced_block_count(layer1_len: int, submap: u8) -> int {
    let offset = if submap == 0 {
        0int
    } else {
        0x400
    };
    let rest = if layer1_len > offset {
        layer1_len - offset
    } else {
        0
    };
    if rest < 0x400 {
        rest
    } else {
        0x400
    }
}

/// Rewrite VRAM and WRAM from the edit state: every layer 1 source block
/// of the submap is redrawn from the character words of its tile
/// (`char_words`, indexed by tile id), then every layer 2 word is stored
/// in the WRAM layer 2 buffer and the layer 2 VRAM tilemap.
pub fn sync_vram_from_edit_state(
    vram: &mut Vec<u8>,
    wram: &mut Vec<u8>,
    submap: u8,
    layer1_tiles: &Vec<u8>,
    layer2_words: &Vec<u16>,
    char_words: &Vec<[u16; 4]>,
)
    requires
        char_words@.len() == 256,
        WRAM_OW_L2 + 2 * layer2_words@.len() <= usize::MAX,
        VRAM_L2_TILEMAP_BASE + 2 * layer2_words@.len() <= usize::MAX,
    ensures
        ({
            let offset = if submap == 0 {
                0int
            } else {
                0x400
            };
            let l1 = blocks_synced(
                old(vram)@,
                layer1_tiles@,
                offset,
                char_words@,
                synced_block_count(layer1_tiles@.len() as int, submap),
            );
            &&& final(vram)@ == words_synced(
                l1,
                VRAM_L2_TILEMAP_BASE as int,
                layer2_words@,
                layer2_words@.len() as int,
            )
            &&& final(wram)@ == words_synced(
                old(wram)@,
                WRAM_OW_L2 as int,
                layer2_words@,
                layer2_words@.len() as int,
            )
        }),
{
    let offset: usize = if submap == 0 { 0 } else { 0x400 };
    let rest = if layer1_tiles.len() > offset { layer1_tiles.len() - offset } else { 0 };
    let n = if rest < 0x400 { rest } else { 0x400 };
    let mut idx: usize = 0;
    while idx < n
        invariant
            char_words@.len() == 256,
            offset == (if submap == 0 {
                0int
            } else {
                0x400
            }),
            n == synced_block_count(layer1_tiles@.len() as int, submap),
            n == 0 || offset + n <= layer1_tiles@.len(),
            n <= 0x400,
            idx <= n,
            vram@ == blocks_synced(old(vram)@, layer1_tiles@, offset as int, char_words@, idx as int),
        decreases n - idx,
    {
        let col = (idx % 32) as u32;
        let row = (idx / 32) as u32;
        let tile_id = layer1_tiles[offset + idx];
        assert(col < 32 && row < 32);
        write_source_l1_block_words(vram, col, row, char_words[tile_id as usize]);
        idx += 1;
    }
    let ghost l1 = vram@;
    let mut i: usize = 0;
    while i < layer2_words.len()
        invariant
            WRAM_OW_L2 + 2 * layer2_words@.len() <= usize::MAX,
            VRAM_L2_TILEMAP_BASE + 2 * layer2_words@.len() <= usize::MAX,
            i <= layer2_words@.len(),
            vram@ == words_synced(l1, VRAM_L2_TILEMAP_BASE as int, layer2_words@, i as int),
            wram@ == words_synced(old(wram)@, WRAM_OW_L2 as int, layer2_words@, i as int),
        decreases layer2_words@.len() - i,
    {
        let word = layer2_words[i];
        store_word(wram, WRAM_OW_L2 + i * 2, word);
        store_word(vram, VRAM_L2_TILEMAP_BASE + i * 2, word);
        i += 1;
    }
}


/// The visible window `(crop_x, crop_y, width, height)` of a submap in the
/// full tilemap: the whole 512x512 main map, or the submap window.
pub open spec fn view_window(submap: u8) -> (int, int, int, int) {
    if submap == 0 {
        (0, 0, 512, 512)
    } else {
        (SUBMAP_VIEW_X as int, SUBMAP_VIEW_Y as int, SUBMAP_VIEW_W as int, SUBMAP_VIEW_H as int)
    }
}

/// The tilemap word drawn for entry bytes `t0`, `t1`: tile number,
/// palette and flips kept, the priority bit dropped.
pub open spec fn drawn_word(t0: u16, t1: u16) -> u16 {
    (t0 | ((t1 & 3) << 8u16)) | (((t1 >> 2u16) & 7) << 10u16) | ((if t1 & 0x40 != 0 {
        1u16
    } else {
        0u16
    }) << 14u16) | ((if t1 & 0x80 != 0 {
        1u16
    } else {
        0u16
    }) << 15u16)
}

/// The renderer tile of entry `e` (row-major, 64 per row) of the tilemap
/// at `base`, scrolled by `(sx, sy)` and placed in the submap's window;
/// `None` when it lies wholly outside the window. A tile partly off the top
/// or left edge is placed at that edge.
pub open spec fn view_tile(vram: Seq<u8>, base: int, submap: u8, sx: int, sy: int, e: int) -> Option<Seq<u32>> {
    let col = e % 64;
    let row = e / 64;
    let addr = base + tilemap_offset(col, row);
    let (cx, cy, vw, vh) = view_window(submap);
    let px = col * 8 - sx - cx;
    let py = row * 8 - sy - cy;
    if px <= -8 || py <= -8 || px >= vw || py >= vh {
        None
    } else {
        let t = drawn_word(vram[addr] as u16, vram[addr + 1] as u16) as u32;
        Some(
            seq![
                (if px < 0 {
                    0
                } else {
                    px
                }) as u32,
                (if py < 0 {
                    0
                } else {
                    py
                }) as u32,
                t & 0x3FF,
                tile_params((t >> 10u32) & 7, t),
            ],
        )
    }
}

/// The renderer tiles of the first `n` entries, in order.
pub open spec fn view_tiles(vram: Seq<u8>, base: int, submap: u8, sx: int, sy: int, n: int) -> Seq<Seq<u32>>
    decreases n,
{
    if n <= 0 {
        seq![]
    } else {
        view_tiles(vram, base, submap, sx, sy, n - 1) + match view_tile(vram, base, submap, sx, sy, n - 1) {
            Some(t) => seq![t],
            None => seq![],
        }
    }
}

/// The renderer's tile list for the 64x64 tilemap at `tilemap_base`,
/// scrolled by `(scroll_x, scroll_y)`, in row-major order, keeping the
/// tiles that show in the submap's window.
pub fn build_bg_tiles(vram: &[u8], tilemap_base: usize, submap: u8, scroll_x: i32, scroll_y: i32) -> (tiles: Vec<
    [u32; 4],
>)
    requires
        tilemap_base + 8192 <= vram.len(),
        504 - scroll_x <= i32::MAX,
        504 - scroll_y <= i32::MAX,
        0 - scroll_x - map_crop(submap).0 >= i32::MIN,
        0 - scroll_y - map_crop(submap).1 >= i32::MIN,
    ensures
        tiles@.map_values(|a: [u32; 4]| a@) == view_tiles(
            vram@,
            tilemap_base as int,
            submap,
            scroll_x as int,
            scroll_y as int,
            4096,
        ),
{
    let mut tiles: Vec<[u32; 4]> = Vec::new();
    let (crop_x, crop_y, view_w, view_h): (i32, i32, i32, i32) = if submap == 0 {
        (0, 0, 512, 512)
    } else {
        (SUBMAP_VIEW_X as i32, SUBMAP_VIEW_Y as i32, SUBMAP_VIEW_W as i32, SUBMAP_VIEW_H as i32)
    };
    let mut e: u32 = 0;
    while e < 4096
        invariant
            tilemap_base + 8192 <= vram.len(),
            504 - scroll_x <= i32::MAX,
            504 - scroll_y <= i32::MAX,
            0 - scroll_x - crop_x >= i32::MIN,
            0 - scroll_y - crop_y >= i32::MIN,
            (crop_x as int, crop_y as int, view_w as int, view_h as int) == view_window(submap),
            (crop_x as u32, crop_y as u32) == map_crop(submap),
            0 <= crop_x <= 40,
            0 <= crop_y <= 40,
            e <= 4096,
            tiles@.map_values(|a: [u32; 4]| a@) == view_tiles(
                vram@,
                tilemap_base as int,
                submap,
                scroll_x as int,
                scroll_y as int,
                e as int,
            ),
        decreases 4096 - e,
    {
        let col = e % 64;
        let row = e / 64;
        assert(0 <= tilemap_offset(col as int, row as int) <= 8190);
        let addr = tilemap_vram_addr(tilemap_base, col, row);
        let t0 = vram[addr] as u16;
        let t1 = vram[addr + 1] as u16;
        let px = (col * 8) as i32 - scroll_x - crop_x;
        let py = (row * 8) as i32 - scroll_y - crop_y;
        let ghost before = tiles@;
        if !(px <= -8 || py <= -8 || px >= view_w || py >= view_h) {
            let tile_num = t0 | ((t1 & 3) << 8u16);
            let palette = (t1 >> 2u16) & 7;
            let fx: u16 = if (t1 & 0x40) != 0 { 1 } else { 0 };
            let fy: u16 = if (t1 & 0x80) != 0 { 1 } else { 0 };
            let t = tile_num | (palette << 10u16) | (fx << 14u16) | (fy << 15u16);
            let x: u32 = if px < 0 { 0 } else { px as u32 };
            let y: u32 = if py < 0 { 0 } else { py as u32 };
            let tile = ow_tile(x, y, t);
            tiles.push(tile);
            assert(tiles@.map_values(|a: [u32; 4]| a@) =~= before.map_values(|a: [u32; 4]| a@).push(tile@));
        } else {
            assert(tiles@.map_values(|a: [u32; 4]| a@) =~= before.map_values(|a: [u32; 4]| a@) + seq![]);
        }
        e += 1;
    }
    tiles
}

/// The tile-number stream (low bytes) and the attribute stream (high
/// bytes) of the layer 2 words, as saved to the ROM.
pub fn l2_tile_and_attr_streams(words: &Vec<u16>) -> (streams: (Vec<u8>, Vec<u8>))
    ensures
        streams.0@ == words@.map_values(|w: u16| (w % 256) as u8),
        streams.1@ == words@.map_values(|w: u16| (w / 256) as u8),
{
    let mut tile_stream: Vec<u8> = Vec::new();
    let mut attr_stream: Vec<u8> = Vec::new();
    let mut i: usize = 0;
    while i < words.len()
        invariant
            i <= words@.len(),
            tile_stream@ == words@.take(i as int).map_values(|w: u16| (w % 256) as u8),
            attr_stream@ == words@.take(i as int).map_values(|w: u16| (w / 256) as u8),
        decreases words@.len() - i,
    {
        let w = words[i];
        proof {
            lemma_u16_fields();
        }
        tile_stream.push((w & 0x00FF) as u8);
        attr_stream.push((w >> 8u16) as u8);
        proof {
            assert(words@.take(i as int + 1) =~= words@.take(i as int).push(w));
            assert(tile_stream@ =~= words@.take(i as int + 1).map_values(|w: u16| (w % 256) as u8));
            assert(attr_stream@ =~= words@.take(i as int + 1).map_values(|w: u16| (w / 256) as u8));
        }
        i += 1;
    }
    assert(words@.take(words@.len() as int) =~= words@);
    (tile_stream, attr_stream)
}

/// Why a compressed layer 2 stream could not be written back.
#[derive(Clone, Copy, Debug, PartialEq, Eq, Structural)]
pub enum L2StreamError {
    /// The stream's start lies past the end of the ROM.
    StartOutOfBounds,
    /// The new compressed stream is longer than the old one.
    Grew { old_size: usize, new_size: usize },
    /// The old stream's bytes run past the end of the ROM.
    RangeOutOfBounds,
}

/// Write a compressed layer 2 stream over the old one that starts at
/// `start_pc_no_header` (after the copier header, if any) and took
/// `old_size` bytes, padding the rest of the old space with zeros. The new
/// stream must not be longer than the old one.
pub fn write_overworld_l2_stream(
    rom_bytes: &mut Vec<u8>,
    has_smc_header: bool,
    start_pc_no_header: usize,
    old_size: usize,
    compressed: &Vec<u8>,
) -> (res: Result<(), L2StreamError>)
    requires
        start_pc_no_header + 0x200 + old_size <= usize::MAX,
    ensures
        ({
            let start = start_pc_no_header + if has_smc_header {
                0x200int
            } else {
                0
            };
            if start > old(rom_bytes)@.len() {
                res == Err::<(), L2StreamError>(L2StreamError::StartOutOfBounds) && final(rom_bytes)@
                    == old(rom_bytes)@
            } else if compressed@.len() > old_size {
                res == Err::<(), L2StreamError>(
                    L2StreamError::Grew { old_size, new_size: compressed@.len() as usize },
                ) && final(rom_bytes)@ == old(rom_bytes)@
            } else if start + old_size > old(rom_bytes)@.len() {
                res == Err::<(), L2StreamError>(L2StreamError::RangeOutOfBounds) && final(rom_bytes)@
                    == old(rom_bytes)@
            } else {
                &&& res is Ok
                &&& final(rom_bytes)@ == old(rom_bytes)@.subrange(0, start) + compressed@ + Seq::new(
                    (old_size - compressed@.len()) as nat,
                    |i: int| 0u8,
                ) + old(rom_bytes)@.subrange(start + old_size, old(rom_bytes)@.len() as int)
            }
        }),
{
    let header_offset: usize = if has_smc_header { 0x200 } else { 0 };
    let start = start_pc_no_header + header_offset;
    if start > rom_bytes.len() {
        return Err(L2StreamError::StartOutOfBounds);
    }
    if compressed.len() > old_size {
        return Err(L2StreamError::Grew { old_size, new_size: compressed.len() });
    }
    if start + old_size > rom_bytes.len() {
        return Err(L2StreamError::RangeOutOfBounds);
    }
    let ghost before = rom_bytes@;
    let mut i: usize = 0;
    while i < old_size
        invariant
            start + old_size <= before.len(),
            start + old_size <= usize::MAX,
            compressed@.len() <= old_size,
            rom_bytes@.len() == before.len(),
            i <= old_size,
            forall|j: int|
                0 <= j < before.len() ==> #[trigger] rom_bytes@[j] == (if start <= j < start + i {
                    if j - start < compressed@.len() {
                        compressed@[j - start]
                    } else {
                        0u8
                    }
                } else {
                    before[j]
                }),
        decreases old_size - i,
    {
        let b = if i < compressed.len() { compressed[i] } else { 0 };
        rom_bytes.set(start + i, b);
        i += 1;
    }
    assert(rom_bytes@ =~= before.subrange(0, start as int) + compressed@ + Seq::new(
        (old_size - compressed@.len()) as nat,
        |i: int| 0u8,
    ) + before.subrange(start + old_size, before.len() as int));
    Ok(())
}

/// Number of words in the overworld layer 2 WRAM buffer.
pub const OW_L2_WORDS: usize = 0x2000;

/// The little-endian word of bytes `lo`, `hi`.
pub open spec fn le_word(lo: u8, hi: u8) -> u16 {
    (lo + hi * 256) as u16
}

/// The words of the overworld layer 2 buffer in `wram`.
pub open spec fn l2_words_in(wram: Seq<u8>) -> Seq<u16> {
    Seq::new(
        OW_L2_WORDS as nat,
        |i: int| le_word(wram[WRAM_OW_L2 + 2 * i], wram[WRAM_OW_L2 + 2 * i + 1]),
    )
}

/// Read the overworld layer 2 tilemap words out of WRAM.
pub fn read_overworld_l2_words(wram: &[u8]) -> (words: Vec<u16>)
    requires
        wram@.len() >= WRAM_OW_L2 + 2 * OW_L2_WORDS,
    ensures
        words@ == l2_words_in(wram@),
{
    let mut words: Vec<u16> = Vec::new();
    let mut i: usize = 0;
    while i < OW_L2_WORDS
        invariant
            wram@.len() >= WRAM_OW_L2 + 2 * OW_L2_WORDS,
            i <= OW_L2_WORDS,
            words@ =~= l2_words_in(wram@).take(i as int),
        decreases OW_L2_WORDS - i,
    {
        let lo = wram[WRAM_OW_L2 + 2 * i];
        let hi = wram[WRAM_OW_L2 + 2 * i + 1];
        words.push(lo as u16 + hi as u16 * 256);
        i += 1;
    }
    words
}

/// `words_synced` changes only the bytes of the words it writes, each to
/// the word's low and high byte, and keeps the length.
proof fn lemma_words_synced(bytes: Seq<u8>, base: int, words: Seq<u16>, n: int)
    requires
        0 <= base,
        0 <= n <= words.len(),
        base + 2 * n <= bytes.len(),
    ensures
        words_synced(bytes, base, words, n).len() == bytes.len(),
        forall|j: int|
            0 <= j < n ==> #[trigger] words_synced(bytes, base, words, n)[base + 2 * j] == (words[j] % 256) as u8
                && words_synced(bytes, base, words, n)[base + 2 * j + 1] == (words[j] / 256) as u8,
        forall|k: int|
            0 <= k < bytes.len() && (k < base || k >= base + 2 * n) ==> #[trigger] words_synced(
                bytes,
                base,
                words,
                n,
            )[k] == bytes[k],
    decreases n,
{
    if n > 0 {
        lemma_words_synced(bytes, base, words, n - 1);
        let prev = words_synced(bytes, base, words, n - 1);
        let cur = words_synced(bytes, base, words, n);
        assert(cur == put_word(prev, base + 2 * (n - 1), words[n - 1]));
        assert forall|j: int| 0 <= j < n implies #[trigger] cur[base + 2 * j] == (words[j] % 256) as u8
            && cur[base + 2 * j + 1] == (words[j] / 256) as u8 by {
            if j < n - 1 {
                assert(prev[base + 2 * j] == (words[j] % 256) as u8);
                assert(prev[base + 2 * j + 1] == (words[j] / 256) as u8);
            }
        }
    }
}

/// What the layer 2 words synced into WRAM read back as: writing a full
/// buffer of words into WRAM and reading the buffer gives the same words.
pub proof fn lemma_l2_words_read_back(wram: Seq<u8>, words: Seq<u16>)
    requires
        words.len() == OW_L2_WORDS,
        wram.len() >= WRAM_OW_L2 + 2 * OW_L2_WORDS,
    ensures
        l2_words_in(words_synced(wram, WRAM_OW_L2 as int, words, words.len() as int)) == words,
{
    let synced = words_synced(wram, WRAM_OW_L2 as int, words, words.len() as int);
    lemma_words_synced(wram, WRAM_OW_L2 as int, words, words.len() as int);
    assert forall|i: int| 0 <= i < words.len() implies #[trigger] l2_words_in(synced)[i] == words[i] by {
        assert(synced[WRAM_OW_L2 + 2 * i] == (words[i] % 256) as u8);
        assert(synced[WRAM_OW_L2 + 2 * i + 1] == (words[i] / 256) as u8);
    }
    assert(l2_words_in(synced) =~= words);
}

/// First and last WRAM address of the overworld event flags.
pub const OW_EVENT_FLAGS_FIRST: usize = 0x1F02;
pub const OW_EVENT_FLAGS_LAST: usize = 0x1F60;

/// Mark every overworld event as passed: all event flag bytes set to `$FF`.
pub fn activate_all_overworld_events(wram: &mut Vec<u8>)
    requires
        old(wram)@.len() > OW_EVENT_FLAGS_LAST,
    ensures
        final(wram)@.len() == old(wram)@.len(),
        forall|k: int|
            0 <= k < old(wram)@.len() ==> #[trigger] final(wram)@[k] == (if OW_EVENT_FLAGS_FIRST <= k
                <= OW_EVENT_FLAGS_LAST {
                0xFFu8
            } else {
                old(wram)@[k]
            }),
{
    let mut a: usize = OW_EVENT_FLAGS_FIRST;
    while a <= OW_EVENT_FLAGS_LAST
        invariant
            OW_EVENT_FLAGS_FIRST <= a <= OW_EVENT_FLAGS_LAST + 1,
            old(wram)@.len() > OW_EVENT_FLAGS_LAST,
            wram@.len() == old(wram)@.len(),
            forall|k: int|
                0 <= k < old(wram)@.len() ==> #[trigger] wram@[k] == (if OW_EVENT_FLAGS_FIRST <= k < a {
                    0xFFu8
                } else {
                    old(wram)@[k]
                }),
        decreases OW_EVENT_FLAGS_LAST + 1 - a,
    {
        wram.set(a, 0xFF);
        a += 1;
    }
}

/// The layer 1 source tile under visible map block `(map16_x, map16_y)`,
/// if the block lies on the source grid and `layer1` holds it.
pub fn source_l1_tile_at_view(layer1: &Vec<u8>, submap: u8, map16_x: u32, map16_y: u32) -> (tile: Option<u8>)
    requires
        map16_x * 16 + 16 <= u32::MAX,
        map16_y * 16 + 40 <= u32::MAX,
    ensures
        tile == (match source_l1_index(submap, map16_x as int, map16_y as int) {
            Some(i) => if i < layer1@.len() {
                Some(layer1@[i])
            } else {
                None
            },
            None => None,
        }),
{
    match crate::overworld::source_l1_index_for_view(submap, map16_x, map16_y) {
        Some(i) => if i < layer1.len() {
            Some(layer1[i])
        } else {
            None
        },
        None => None,
    }
}

} // verus!
