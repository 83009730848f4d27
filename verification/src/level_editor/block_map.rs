//! Where the level editor's block coordinates live in the WRAM block map,
//! and reading and writing block ids there.
//!
//! Horizontal levels are laid out screen after screen, each 16 blocks wide
//! and 27 high; vertical levels have 32x16-block screens, two per row of
//! screens. The block map holds the low byte of each block id in one table
//! and its ninth bit in a second table.

use vstd::arithmetic::div_mod::lemma_fundamental_div_mod_converse;
use vstd::prelude::*;

verus! {

/// Blocks per screen: 16x32 in vertical levels, 16x27 in horizontal ones.
pub open spec fn screen_blocks(vertical: bool) -> int {
    if vertical {
        512
    } else {
        432
    }
}

/// Block map index of block `(x, y)` before the layer 2 wrap.
pub open spec fn raw_block_index(vertical: bool, x: int, y: int) -> int {
    if vertical {
        let screen = ((y * 16) / 512) * 2 + (x * 16) / 256;
        screen * screen_blocks(vertical) + (y % 32) * 16 + x % 16
    } else {
        (x / 16) * screen_blocks(vertical) + y * 16 + x % 16
    }
}

/// Block map index of block `(x, y)` of the edited layer: a layer 2 that
/// is a background (no layer 2 objects) wraps every two horizontal
/// screens.
pub open spec fn block_index(vertical: bool, has_layer2: bool, edit_layer: u8, x: int, y: int) -> int {
    if edit_layer == 2 && !has_layer2 {
        raw_block_index(vertical, x, y) % 864
    } else {
        raw_block_index(vertical, x, y)
    }
}

/// Index of block `(block_x, block_y)` in the block map of the edited
/// layer.
pub fn block_map_index(
    is_vertical: bool,
    has_layer2: bool,
    edit_layer: u8,
    block_x: u32,
    block_y: u32,
) -> (idx: u32)
    requires
        block_x * 16 <= u32::MAX,
        block_y * 16 <= u32::MAX,
        raw_block_index(is_vertical, block_x as int, block_y as int) <= u32::MAX,
    ensures
        idx == block_index(is_vertical, has_layer2, edit_layer, block_x as int, block_y as int),
{
    let scr_size: u32 = if is_vertical { 16 * 32 } else { 16 * 27 };
    let block_x_px = block_x * 16;
    let block_y_px = block_y * 16;
    let idx: u32 = if is_vertical {
        let sub_y = block_y_px / 512;
        let sub_x = block_x_px / 256;
        let screen = sub_y * 2 + sub_x;
        let col = (block_x_px / 16) % 16;
        let row = (block_y_px / 16) % 32;
        assert(screen * scr_size + (row * 16 + col) == raw_block_index(
            is_vertical,
            block_x as int,
            block_y as int,
        ));
        screen * scr_size + (row * 16 + col)
    } else {
        let screen = block_x / 16;
        let col = block_x % 16;
        let row = block_y;
        screen * scr_size + (row * 16 + col)
    };
    if edit_layer == 2 && !has_layer2 {
        idx % (16 * 27 * 2)
    } else {
        idx
    }
}

proof fn lemma_decode_block(hi1: int, lo1: int, hi2: int, lo2: int, m: int)
    requires
        m > 0,
        0 <= lo1 < m,
        0 <= lo2 < m,
        hi1 * m + lo1 == hi2 * m + lo2,
    ensures
        hi1 == hi2,
        lo1 == lo2,
{
    lemma_fundamental_div_mod_converse(hi1 * m + lo1, m, hi1, lo1);
    lemma_fundamental_div_mod_converse(hi2 * m + lo2, m, hi2, lo2);
}

/// Distinct blocks of a level never share a block map entry: in a
/// vertical level (two 16-block columns of screens, 32 rows each) and in a
/// horizontal level (screens 27 rows high), different blocks inside the
/// level get different indices, so writing one block never overwrites
/// another.
pub proof fn lemma_block_index_injective(vertical: bool, x1: int, y1: int, x2: int, y2: int)
    requires
        0 <= x1,
        0 <= y1,
        0 <= x2,
        0 <= y2,
        vertical ==> x1 < 32 && x2 < 32,
        !vertical ==> y1 < 27 && y2 < 27,
        raw_block_index(vertical, x1, y1) == raw_block_index(vertical, x2, y2),
    ensures
        x1 == x2,
        y1 == y2,
{
    if vertical {
        assert((y1 * 16) / 512 == y1 / 32 && (y2 * 16) / 512 == y2 / 32) by (nonlinear_arith)
            requires
                0 <= y1,
                0 <= y2,
        ;
        assert((x1 * 16) / 256 == x1 / 16 && (x2 * 16) / 256 == x2 / 16) by (nonlinear_arith)
            requires
                0 <= x1,
                0 <= x2,
        ;
        let s1 = (y1 / 32) * 2 + x1 / 16;
        let s2 = (y2 / 32) * 2 + x2 / 16;
        let r1 = (y1 % 32) * 16 + x1 % 16;
        let r2 = (y2 % 32) * 16 + x2 % 16;
        assert(0 <= r1 < 512 && 0 <= r2 < 512);
        lemma_decode_block(s1, r1, s2, r2, 512);
        lemma_decode_block(y1 % 32, x1 % 16, y2 % 32, x2 % 16, 16);
        lemma_decode_block(y1 / 32, x1 / 16, y2 / 32, x2 / 16, 2);
    } else {
        let r1 = y1 * 16 + x1 % 16;
        let r2 = y2 * 16 + x2 % 16;
        assert(0 <= r1 < 432 && 0 <= r2 < 432);
        lemma_decode_block(x1 / 16, r1, x2 / 16, r2, 432);
        lemma_decode_block(y1, x1 % 16, y2, x2 % 16, 16);
    }
}

/// On the edited layer (unless it is a background layer 2, which repeats
/// every two screens), distinct blocks of the level use distinct WRAM
/// slots.
pub proof fn lemma_block_slots_distinct(
    vertical: bool,
    has_layer2: bool,
    edit_layer: u8,
    x1: int,
    y1: int,
    x2: int,
    y2: int,
)
    requires
        !(edit_layer == 2 && !has_layer2),
        0 <= x1,
        0 <= y1,
        0 <= x2,
        0 <= y2,
        vertical ==> x1 < 32 && x2 < 32,
        !vertical ==> y1 < 27 && y2 < 27,
        (x1, y1) != (x2, y2),
    ensures
        block_slots(vertical, has_layer2, edit_layer, x1, y1).0 != block_slots(vertical, has_layer2, edit_layer, x2, y2).0,
        block_slots(vertical, has_layer2, edit_layer, x1, y1).1 != block_slots(vertical, has_layer2, edit_layer, x2, y2).1,
{
    if raw_block_index(vertical, x1, y1) == raw_block_index(vertical, x2, y2) {
        lemma_block_index_injective(vertical, x1, y1, x2, y2);
    }
}

/// The block `(x, y)` at which the level renderer draws entry `idx` of a
/// layer's block map: vertical levels in 16x16-block screens, two per row
/// of screens; horizontal levels in 16x27-block screens side by side.
pub open spec fn rendered_block_pos(vertical: bool, idx: int) -> (int, int) {
    if vertical {
        let screen = idx / 256;
        let sidx = idx % 256;
        (sidx % 16 + (screen % 2) * 16, sidx / 16 + (screen / 2) * 16)
    } else {
        let screen = idx / 432;
        let sidx = idx % 432;
        (sidx % 16 + screen * 16, sidx / 16)
    }
}

/// In a horizontal level, the block the renderer draws from block map
/// entry `idx` maps back to `idx` (to the entry the renderer reads, after
/// the wrap of a background layer 2), so edits land where they are drawn.
pub proof fn lemma_block_index_matches_renderer(has_layer2: bool, edit_layer: u8, idx: int)
    requires
        0 <= idx,
    ensures
        ({
            let (x, y) = rendered_block_pos(false, idx);
            block_index(false, has_layer2, edit_layer, x, y) == if edit_layer == 2 && !has_layer2 {
                idx % 864
            } else {
                idx
            }
        }),
{
    let screen = idx / 432;
    let sidx = idx % 432;
    let col = sidx % 16;
    let row = sidx / 16;
    let x = col + screen * 16;
    lemma_fundamental_div_mod_converse(x, 16, screen, col);
    assert(x / 16 == screen && x % 16 == col);
    assert(row * 16 + col == sidx);
    assert(screen * 432 + sidx == idx);
}

/// WRAM addresses of the low-byte and high-bit tables of the edited
/// layer's block map.
pub open spec fn block_map_bases(edit_layer: u8, has_layer2: bool, vertical: bool) -> (u32, u32) {
    if edit_layer == 2 {
        if has_layer2 {
            let offset: u32 = if vertical {
                (0x0E * 16 * 32) as u32
            } else {
                (0x10 * 16 * 27) as u32
            };
            ((0x7EC800 + offset) as u32, (0x7FC800 + offset) as u32)
        } else {
            (0x7EB900, 0x7EBD00)
        }
    } else {
        (0x7EC800, 0x7FC800)
    }
}

/// WRAM bases `(low bytes, high bits)` of the edited layer's block map.
pub fn block_map_base(edit_layer: u8, has_layer2: bool, is_vertical: bool) -> (bases: (u32, u32))
    ensures
        bases == block_map_bases(edit_layer, has_layer2, is_vertical),
{
    if edit_layer == 2 {
        if has_layer2 {
            let scr_len: u32 = if is_vertical { 0x0E } else { 0x10 };
            let scr_size: u32 = if is_vertical { 16 * 32 } else { 16 * 27 };
            let offset = scr_len * scr_size;
            (0x7EC800 + offset, 0x7FC800 + offset)
        } else {
            (0x7EB900, 0x7EBD00)
        }
    } else {
        (0x7EC800, 0x7FC800)
    }
}

/// Little-endian 16-bit value at `file_off`, or `None` past the end.
pub fn read_u16(rom_bytes: &[u8], file_off: usize) -> (v: Option<u16>)
    requires
        file_off + 2 <= usize::MAX,
    ensures
        v == (if file_off + 2 <= rom_bytes@.len() {
            Some((rom_bytes@[file_off as int] + 256 * rom_bytes@[file_off + 1]) as u16)
        } else {
            None
        }),
{
    if file_off + 2 > rom_bytes.len() {
        return None;
    }
    Some((rom_bytes[file_off] as u16) + 256 * (rom_bytes[file_off + 1] as u16))
}

/// Little-endian 24-bit value at `file_off`, or `None` past the end.
pub fn read_u24(rom_bytes: &[u8], file_off: usize) -> (v: Option<u32>)
    requires
        file_off + 3 <= usize::MAX,
    ensures
        v == (if file_off + 3 <= rom_bytes@.len() {
            Some(
                (rom_bytes@[file_off as int] + 256 * rom_bytes@[file_off + 1] + 65536
                    * rom_bytes@[file_off + 2]) as u32,
            )
        } else {
            None
        }),
{
    if file_off + 3 > rom_bytes.len() {
        return None;
    }
    Some((rom_bytes[file_off] as u32) + 256 * (rom_bytes[file_off + 1] as u32) + 65536 * (
    rom_bytes[file_off + 2] as u32))
}

/// Bus address of the first WRAM byte (`$7E0000`).
pub const WRAM_BUS_BASE: u32 = 0x7E0000;

/// WRAM offsets `(low byte, high bit)` of block `(x, y)` of the edited
/// layer's block map.
pub open spec fn block_slots(vertical: bool, has_layer2: bool, edit_layer: u8, x: int, y: int) -> (int, int) {
    let (lo, hi) = block_map_bases(edit_layer, has_layer2, vertical);
    let i = block_index(vertical, has_layer2, edit_layer, x, y);
    (lo - WRAM_BUS_BASE + i, hi - WRAM_BUS_BASE + i)
}

/// The block id stored at `slots`: the low byte, and bit 0 of the high
/// table as the ninth bit.
pub open spec fn block_id_in(wram: Seq<u8>, slots: (int, int)) -> u16 {
    (wram[slots.0] + (wram[slots.1] % 2) * 256) as u16
}

/// `wram` with block id `id` stored at `slots`: its low byte and its ninth
/// bit.
pub open spec fn block_id_written(wram: Seq<u8>, slots: (int, int), id: u16) -> Seq<u8> {
    wram.update(slots.0, (id % 256) as u8).update(slots.1, ((id / 256) % 2) as u8)
}

/// Block `(x, y)` lies where the block map can be indexed and both of its
/// slots lie inside `wram_len` bytes of WRAM.
pub open spec fn block_in_wram(
    wram_len: int,
    vertical: bool,
    has_layer2: bool,
    edit_layer: u8,
    x: int,
    y: int,
) -> bool {
    &&& 0 <= x && x * 16 <= u32::MAX
    &&& 0 <= y && y * 16 <= u32::MAX
    &&& raw_block_index(vertical, x, y) <= u32::MAX
    &&& block_slots(vertical, has_layer2, edit_layer, x, y).1 < wram_len
}

pub(crate) proof fn lemma_block_slots_ordered(vertical: bool, has_layer2: bool, edit_layer: u8, x: int, y: int)
    requires
        0 <= x,
        0 <= y,
    ensures
        0 <= block_slots(vertical, has_layer2, edit_layer, x, y).0 < block_slots(
            vertical,
            has_layer2,
            edit_layer,
            x,
            y,
        ).1,
{
    assert(raw_block_index(vertical, x, y) >= 0) by (nonlinear_arith)
        requires
            0 <= x,
            0 <= y,
    ;
}

/// WRAM offsets of the slots of block `(block_x, block_y)`.
fn block_slot_offsets(
    wram_len: usize,
    is_vertical: bool,
    has_layer2: bool,
    edit_layer: u8,
    block_x: u32,
    block_y: u32,
) -> (slots: (usize, usize))
    requires
        block_in_wram(wram_len as int, is_vertical, has_layer2, edit_layer, block_x as int, block_y as int),
    ensures
        slots.0 == block_slots(is_vertical, has_layer2, edit_layer, block_x as int, block_y as int).0,
        slots.1 == block_slots(is_vertical, has_layer2, edit_layer, block_x as int, block_y as int).1,
        slots.0 < slots.1 < wram_len,
{
    proof {
        lemma_block_slots_ordered(is_vertical, has_layer2, edit_layer, block_x as int, block_y as int);
    }
    let i = block_map_index(is_vertical, has_layer2, edit_layer, block_x, block_y);
    let (lo_base, hi_base) = block_map_base(edit_layer, has_layer2, is_vertical);
    let lo = (lo_base - WRAM_BUS_BASE) as usize + i as usize;
    let hi = (hi_base - WRAM_BUS_BASE) as usize + i as usize;
    (lo, hi)
}

/// Store `block_id` (its low byte and ninth bit) for block `(block_x,
/// block_y)` of the edited layer in the WRAM block map.
pub fn set_block_id_at(
    wram: &mut Vec<u8>,
    is_vertical: bool,
    has_layer2: bool,
    edit_layer: u8,
    block_x: u32,
    block_y: u32,
    block_id: u16,
)
    requires
        block_in_wram(old(wram)@.len() as int, is_vertical, has_layer2, edit_layer, block_x as int, block_y as int),
    ensures
        final(wram)@ == block_id_written(
            old(wram)@,
            block_slots(is_vertical, has_layer2, edit_layer, block_x as int, block_y as int),
            block_id,
        ),
{
    let (lo, hi) = block_slot_offsets(wram.len(), is_vertical, has_layer2, edit_layer, block_x, block_y);
    wram.set(lo, (block_id % 256) as u8);
    wram.set(hi, ((block_id / 256) % 2) as u8);
}

/// The block id of block `(block_x, block_y)` of the edited layer, read
/// from the WRAM block map.
pub fn block_id_at(
    wram: &[u8],
    is_vertical: bool,
    has_layer2: bool,
    edit_layer: u8,
    block_x: u32,
    block_y: u32,
) -> (id: Option<u16>)
    requires
        block_in_wram(wram@.len() as int, is_vertical, has_layer2, edit_layer, block_x as int, block_y as int),
    ensures
        id == Some(
            block_id_in(wram@, block_slots(is_vertical, has_layer2, edit_layer, block_x as int, block_y as int)),
        ),
{
    let (lo, hi) = block_slot_offsets(wram.len(), is_vertical, has_layer2, edit_layer, block_x, block_y);
    Some(wram[lo] as u16 + (wram[hi] as u16 % 2) * 256)
}

/// Reading a block back after storing it gives the stored id, cut to the
/// nine bits the block map holds.
pub proof fn lemma_block_id_read_back(
    wram: Seq<u8>,
    vertical: bool,
    has_layer2: bool,
    edit_layer: u8,
    x: int,
    y: int,
    id: u16,
)
    requires
        block_in_wram(wram.len() as int, vertical, has_layer2, edit_layer, x, y),
    ensures
        block_id_in(
            block_id_written(wram, block_slots(vertical, has_layer2, edit_layer, x, y), id),
            block_slots(vertical, has_layer2, edit_layer, x, y),
        ) == id % 512,
{
    lemma_block_slots_ordered(vertical, has_layer2, edit_layer, x, y);
}

/// Size of WRAM in bytes.
pub const WRAM_SIZE: usize = 0x20000;

/// Block `(bx, by)` lies in the `w` x `h` rectangle at `(x, y)`.
pub open spec fn in_rect(x: int, y: int, w: int, h: int, bx: int, by: int) -> bool {
    x <= bx < x + w && y <= by < y + h
}

/// Every block of the rectangle lies where the block map can be indexed
/// inside `wram_len` bytes of WRAM.
pub open spec fn rect_in_wram(
    wram_len: int,
    vertical: bool,
    has_layer2: bool,
    edit_layer: u8,
    x: int,
    y: int,
    w: int,
    h: int,
) -> bool {
    forall|bx: int, by: int|
        in_rect(x, y, w, h, bx, by) ==> #[trigger] block_in_wram(wram_len, vertical, has_layer2, edit_layer, bx, by)
}

/// Within WRAM, the low-byte table of a layer lies wholly below its
/// high-bit table: no block's low byte is another block's high bit.
pub(crate) proof fn lemma_slot_tables_apart(
    wram_len: int,
    vertical: bool,
    has_layer2: bool,
    edit_layer: u8,
    x1: int,
    y1: int,
    x2: int,
    y2: int,
)
    requires
        wram_len <= WRAM_SIZE,
        block_in_wram(wram_len, vertical, has_layer2, edit_layer, x1, y1),
        block_in_wram(wram_len, vertical, has_layer2, edit_layer, x2, y2),
    ensures
        block_slots(vertical, has_layer2, edit_layer, x1, y1).0 < block_slots(vertical, has_layer2, edit_layer, x2, y2).1,
        block_slots(vertical, has_layer2, edit_layer, x1, y1).1 - block_slots(vertical, has_layer2, edit_layer, x1, y1).0
            == block_slots(vertical, has_layer2, edit_layer, x2, y2).1 - block_slots(vertical, has_layer2, edit_layer, x2, y2).0,
{
    lemma_block_slots_ordered(vertical, has_layer2, edit_layer, x1, y1);
    lemma_block_slots_ordered(vertical, has_layer2, edit_layer, x2, y2);
    assert(raw_block_index(vertical, x1, y1) >= 0 && raw_block_index(vertical, x2, y2) >= 0) by (nonlinear_arith)
        requires
            0 <= x1,
            0 <= y1,
            0 <= x2,
            0 <= y2,
    ;
}

/// Storing a block keeps the id that another block (or the same block)
/// already reads as, when that id is the one stored.
proof fn lemma_store_keeps_block(
    wram: Seq<u8>,
    vertical: bool,
    has_layer2: bool,
    edit_layer: u8,
    bx: int,
    by: int,
    ex: int,
    ey: int,
    id: u16,
)
    requires
        wram.len() <= WRAM_SIZE,
        block_in_wram(wram.len() as int, vertical, has_layer2, edit_layer, bx, by),
        block_in_wram(wram.len() as int, vertical, has_layer2, edit_layer, ex, ey),
        block_id_in(wram, block_slots(vertical, has_layer2, edit_layer, ex, ey)) == id % 512,
    ensures
        block_id_in(
            block_id_written(wram, block_slots(vertical, has_layer2, edit_layer, bx, by), id),
            block_slots(vertical, has_layer2, edit_layer, ex, ey),
        ) == id % 512,
{
    lemma_slot_tables_apart(wram.len() as int, vertical, has_layer2, edit_layer, bx, by, ex, ey);
    lemma_slot_tables_apart(wram.len() as int, vertical, has_layer2, edit_layer, ex, ey, bx, by);
    lemma_block_slots_ordered(vertical, has_layer2, edit_layer, bx, by);
    lemma_block_id_read_back(wram, vertical, has_layer2, edit_layer, bx, by, id);
}

/// `after` is `before` with `id` stored for every block of the `w` x `h`
/// rectangle at `(x, y)`: each of them reads as `id` (cut to nine bits)
/// and every byte outside their slots is unchanged.
pub open spec fn blocks_filled(
    before: Seq<u8>,
    after: Seq<u8>,
    vertical: bool,
    has_layer2: bool,
    edit_layer: u8,
    x: int,
    y: int,
    w: int,
    h: int,
    id: u16,
) -> bool {
    &&& after.len() == before.len()
    &&& forall|bx: int, by: int|
        in_rect(x, y, w, h, bx, by) ==> block_id_in(
            after,
            #[trigger] block_slots(vertical, has_layer2, edit_layer, bx, by),
        ) == id % 512
    &&& forall|k: int|
        0 <= k < before.len() && (forall|bx: int, by: int|
            in_rect(x, y, w, h, bx, by) ==> k != #[trigger] block_slots(vertical, has_layer2, edit_layer, bx, by).0
                && k != block_slots(vertical, has_layer2, edit_layer, bx, by).1) ==> #[trigger] after[k] == before[k]
}

/// Store `block_id` for every block of the `w` x `h` rectangle at
/// `(x, y)` of the edited layer.
pub fn fill_blocks(
    wram: &mut Vec<u8>,
    is_vertical: bool,
    has_layer2: bool,
    edit_layer: u8,
    x: u32,
    y: u32,
    w: u32,
    h: u32,
    block_id: u16,
)
    requires
        old(wram)@.len() <= WRAM_SIZE,
        rect_in_wram(old(wram)@.len() as int, is_vertical, has_layer2, edit_layer, x as int, y as int, w as int, h as int),
    ensures
        blocks_filled(
            old(wram)@,
            final(wram)@,
            is_vertical,
            has_layer2,
            edit_layer,
            x as int,
            y as int,
            w as int,
            h as int,
            block_id,
        ),
{
    let ghost len = wram@.len() as int;
    let mut dy: u32 = 0;
    while dy < h
        invariant
            wram@.len() == len,
            len == old(wram)@.len(),
            len <= WRAM_SIZE,
            dy <= h,
            rect_in_wram(len, is_vertical, has_layer2, edit_layer, x as int, y as int, w as int, h as int),
            forall|bx: int, by: int|
                in_rect(x as int, y as int, w as int, h as int, bx, by) && by < y + dy ==> block_id_in(
                    wram@,
                    #[trigger] block_slots(is_vertical, has_layer2, edit_layer, bx, by),
                ) == block_id % 512,
            forall|k: int|
                0 <= k < len && (forall|bx: int, by: int|
                    in_rect(x as int, y as int, w as int, h as int, bx, by) ==> k != #[trigger] block_slots(
                        is_vertical,
                        has_layer2,
                        edit_layer,
                        bx,
                        by,
                    ).0 && k != block_slots(is_vertical, has_layer2, edit_layer, bx, by).1) ==> #[trigger] wram@[k]
                    == old(wram)@[k],
        decreases h - dy,
    {
        let mut dx: u32 = 0;
        while dx < w
            invariant
                wram@.len() == len,
                len == old(wram)@.len(),
                len <= WRAM_SIZE,
                dx <= w,
                dy < h,
                rect_in_wram(len, is_vertical, has_layer2, edit_layer, x as int, y as int, w as int, h as int),
                forall|bx: int, by: int|
                    in_rect(x as int, y as int, w as int, h as int, bx, by) && (by < y + dy || (by == y + dy
                        && bx < x + dx)) ==> block_id_in(
                        wram@,
                        #[trigger] block_slots(is_vertical, has_layer2, edit_layer, bx, by),
                    ) == block_id % 512,
                forall|k: int|
                    0 <= k < len && (forall|bx: int, by: int|
                        in_rect(x as int, y as int, w as int, h as int, bx, by) ==> k != #[trigger] block_slots(
                            is_vertical,
                            has_layer2,
                            edit_layer,
                            bx,
                            by,
                        ).0 && k != block_slots(is_vertical, has_layer2, edit_layer, bx, by).1) ==> #[trigger] wram@[k]
                        == old(wram)@[k],
            decreases w - dx,
        {
            proof {
                assert(in_rect(x as int, y as int, w as int, h as int, x + dx, y + dy));
                assert(block_in_wram(len, is_vertical, has_layer2, edit_layer, x + dx, y + dy));
            }
            let bx = x + dx;
            let by = y + dy;
            let ghost before = wram@;
            set_block_id_at(wram, is_vertical, has_layer2, edit_layer, bx, by, block_id);
            proof {
                let sb = block_slots(is_vertical, has_layer2, edit_layer, bx as int, by as int);
                lemma_block_slots_ordered(is_vertical, has_layer2, edit_layer, bx as int, by as int);
                lemma_block_id_read_back(before, is_vertical, has_layer2, edit_layer, bx as int, by as int, block_id);
                assert forall|ex: int, ey: int|
                    in_rect(x as int, y as int, w as int, h as int, ex, ey) && (ey < y + dy || (ey == y + dy && ex
                        < x + dx + 1)) implies block_id_in(
                    wram@,
                    #[trigger] block_slots(is_vertical, has_layer2, edit_layer, ex, ey),
                ) == block_id % 512 by {
                    assert(block_in_wram(len, is_vertical, has_layer2, edit_layer, ex, ey));
                    if !(ex == bx && ey == by) {
                        lemma_store_keeps_block(
                            before,
                            is_vertical,
                            has_layer2,
                            edit_layer,
                            bx as int,
                            by as int,
                            ex,
                            ey,
                            block_id,
                        );
                    }
                }
                assert forall|k: int|
                    0 <= k < len && (forall|ex: int, ey: int|
                        in_rect(x as int, y as int, w as int, h as int, ex, ey) ==> k != #[trigger] block_slots(
                            is_vertical,
                            has_layer2,
                            edit_layer,
                            ex,
                            ey,
                        ).0 && k != block_slots(is_vertical, has_layer2, edit_layer, ex, ey).1) implies #[trigger] wram@[k]
                    == old(wram)@[k] by {
                    assert(k != sb.0 && k != sb.1);
                    assert(wram@[k] == before[k]);
                }
            }
            dx += 1;
        }
        dy += 1;
    }
}

} // verus!
