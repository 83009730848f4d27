//! The Map16 block pickers: a 16-column grid of the 512 layer 1 blocks and
//! of the 256 layer 2 background blocks, each block 16x16 RGBA pixels, and
//! the mapping from texture pixels back to block ids.
//!
//! A block is four 8x8 tiles given by four tilemap words, in the order
//! top-left, bottom-left, top-right, bottom-right.

use crate::snes_gfx::{bg_word_placement, render_sub_tile, tile_drawn};
use vstd::prelude::*;

verus! {

/// Blocks in the layer 1 picker (9-bit block ids).
pub const NUM_BLOCKS: usize = 512;

/// Blocks per picker row.
pub const COLS: usize = 16;

/// Rows of the layer 1 picker.
pub const ROWS: usize = 32;

/// Side of a block in pixels.
pub const BLOCK_PX: usize = 16;

/// Width of both picker textures in pixels.
pub const TEX_W: usize = 256;

/// Height of the layer 1 picker texture in pixels.
pub const TEX_H: usize = 512;

/// Blocks in the background picker.
pub const BG_NUM_BLOCKS: usize = 256;

/// Rows of the background picker.
pub const BG_ROWS: usize = 16;

/// Height of the background picker texture in pixels.
pub const BG_TEX_H: usize = 256;

/// Pixel offset, within its block, of tile `i` (0-3) of a block.
pub open spec fn sub_offset(i: int) -> (int, int) {
    if i == 0 {
        (0, 0)
    } else if i == 1 {
        (0, 8)
    } else if i == 2 {
        (8, 0)
    } else {
        (8, 8)
    }
}

/// `pixels` after drawing the first `k` tiles of block `b` with words
/// `words` in its grid cell of a texture `TEX_W` pixels wide.
pub open spec fn block_tiles_drawn(vram: Seq<u8>, cgram: Seq<u8>, b: int, words: [u16; 4], pixels: Seq<u8>, k: int) -> Seq<
    u8,
>
    decreases k,
{
    if k <= 0 {
        pixels
    } else {
        let (sx, sy) = sub_offset(k - 1);
        tile_drawn(
            vram,
            cgram,
            bg_word_placement(
                words[k - 1],
                (b % 16) * 16 + sx,
                (b / 16) * 16 + sy,
                TEX_W,
            ),
            block_tiles_drawn(vram, cgram, b, words, pixels, k - 1),
            64,
        )
    }
}

/// `pixels` after drawing the first `n` blocks of `blocks`; a block with
/// no tile words (`None`) stays blank.
pub open spec fn blocks_drawn(vram: Seq<u8>, cgram: Seq<u8>, blocks: Seq<Option<[u16; 4]>>, pixels: Seq<u8>, n: int) -> Seq<
    u8,
>
    decreases n,
{
    if n <= 0 {
        pixels
    } else {
        let prev = blocks_drawn(vram, cgram, blocks, pixels, n - 1);
        match blocks[n - 1] {
            Some(words) => block_tiles_drawn(vram, cgram, n - 1, words, prev, 4),
            None => prev,
        }
    }
}

/// A blank RGBA texture of `n` pixels.
fn blank_texture(n: usize) -> (v: Vec<u8>)
    requires
        n * 4 <= usize::MAX,
    ensures
        v@ == Seq::new((n * 4) as nat, |i: int| 0u8),
{
    let mut v: Vec<u8> = Vec::new();
    let mut i: usize = 0;
    while i < n * 4
        invariant
            n * 4 <= usize::MAX,
            i <= n * 4,
            v@ == Seq::new(i as nat, |k: int| 0u8),
        decreases n * 4 - i,
    {
        v.push(0);
        i += 1;
    }
    v
}

/// Clear `pixels` and draw `blocks`, block `b` in grid cell
/// `(b % 16, b / 16)`.
fn draw_blocks(vram: &[u8], cgram: &[u8], blocks: &Vec<Option<[u16; 4]>>, pixels: &mut Vec<u8>, tex_h: usize)
    requires
        blocks@.len() <= NUM_BLOCKS,
        tex_h <= TEX_H,
    ensures
        final(pixels)@ == blocks_drawn(
            vram@,
            cgram@,
            blocks@,
            Seq::new((TEX_W * tex_h * 4) as nat, |i: int| 0u8),
            blocks@.len() as int,
        ),
{
    *pixels = blank_texture(TEX_W * tex_h);
    let ghost blank = pixels@;
    let mut b: usize = 0;
    while b < blocks.len()
        invariant
            blocks@.len() <= NUM_BLOCKS,
            tex_h <= TEX_H,
            b <= blocks@.len(),
            blank == Seq::new((TEX_W * tex_h * 4) as nat, |i: int| 0u8),
            pixels@ == blocks_drawn(vram@, cgram@, blocks@, blank, b as int),
        decreases blocks@.len() - b,
    {
        match blocks[b] {
            Some(words) => {
                let x0 = ((b % COLS) * BLOCK_PX) as u32;
                let y0 = ((b / COLS) * BLOCK_PX) as u32;
                assert(y0 + 15 < TEX_H);
                let mut k: usize = 0;
                while k < 4
                    invariant
                        b < blocks@.len(),
                        blocks@[b as int] == Some(words),
                        x0 == (b % 16) * 16,
                        y0 == (b / 16) * 16,
                        y0 + 15 < TEX_H,
                        k <= 4,
                        pixels@ == block_tiles_drawn(
                            vram@,
                            cgram@,
                            b as int,
                            words,
                            blocks_drawn(vram@, cgram@, blocks@, blank, b as int),
                            k as int,
                        ),
                    decreases 4 - k,
                {
                    let (sx, sy): (u32, u32) = if k == 0 {
                        (0, 0)
                    } else if k == 1 {
                        (0, 8)
                    } else if k == 2 {
                        (8, 0)
                    } else {
                        (8, 8)
                    };
                    render_sub_tile(vram, cgram, words[k], x0 + sx, y0 + sy, pixels, TEX_W);
                    k += 1;
                }
            },
            None => {},
        }
        b += 1;
    }
}

/// The layer 1 block picker texture: `TEX_W` x `TEX_H` RGBA pixels.
#[derive(Clone, Debug)]
pub struct TilePicker {
    pub pixels: Vec<u8>,
    pub dirty: bool,
}

impl TilePicker {
    /// A blank picker, marked for upload.
    pub fn new() -> (picker: Self)
        ensures
            picker.pixels@ == Seq::new((TEX_W * TEX_H * 4) as nat, |i: int| 0u8),
            picker.dirty,
    {
        TilePicker { pixels: blank_texture(TEX_W * TEX_H), dirty: true }
    }

    /// Redraw every block from VRAM and CGRAM: `blocks[b]` holds the four
    /// tile words of block `b`, or `None` for a block without tile data,
    /// which stays blank.
    pub fn rebuild(&mut self, vram: &[u8], cgram: &[u8], blocks: &Vec<Option<[u16; 4]>>)
        requires
            blocks@.len() == NUM_BLOCKS,
        ensures
            final(self).pixels@ == blocks_drawn(
                vram@,
                cgram@,
                blocks@,
                Seq::new((TEX_W * TEX_H * 4) as nat, |i: int| 0u8),
                NUM_BLOCKS as int,
            ),
            final(self).dirty,
    {
        draw_blocks(vram, cgram, blocks, &mut self.pixels, TEX_H);
        self.dirty = true;
    }

    /// The block id under texture pixel `(px, py)`, if it lies on the grid.
    pub fn block_at_pixel(&self, px: usize, py: usize) -> (id: Option<u16>)
        ensures
            id == (if px / 16 < 16 && py / 16 < 32 {
                Some(((py / 16) * 16 + px / 16) as u16)
            } else {
                None
            }),
    {
        let col = px / BLOCK_PX;
        let row = py / BLOCK_PX;
        if col < COLS && row < ROWS {
            let id = (row * COLS + col) as u16;
            if id < NUM_BLOCKS as u16 {
                Some(id)
            } else {
                None
            }
        } else {
            None
        }
    }
}

/// The background block picker texture: `TEX_W` x `BG_TEX_H` RGBA pixels.
#[derive(Clone, Debug)]
pub struct BgTilePicker {
    pub pixels: Vec<u8>,
    pub dirty: bool,
}

impl BgTilePicker {
    /// A blank picker, marked for upload.
    pub fn new() -> (picker: Self)
        ensures
            picker.pixels@ == Seq::new((TEX_W * BG_TEX_H * 4) as nat, |i: int| 0u8),
            picker.dirty,
    {
        BgTilePicker { pixels: blank_texture(TEX_W * BG_TEX_H), dirty: true }
    }

    /// Redraw every background block: `blocks[b]` holds the four tile words
    /// of block `b`.
    pub fn rebuild(&mut self, vram: &[u8], cgram: &[u8], blocks: &Vec<[u16; 4]>)
        requires
            blocks@.len() == BG_NUM_BLOCKS,
        ensures
            final(self).pixels@ == blocks_drawn(
                vram@,
                cgram@,
                blocks@.map_values(|w: [u16; 4]| Some(w)),
                Seq::new((TEX_W * BG_TEX_H * 4) as nat, |i: int| 0u8),
                BG_NUM_BLOCKS as int,
            ),
            final(self).dirty,
    {
        let mut all: Vec<Option<[u16; 4]>> = Vec::new();
        let mut b: usize = 0;
        while b < blocks.len()
            invariant
                b <= blocks@.len(),
                all@ == blocks@.subrange(0, b as int).map_values(|w: [u16; 4]| Some(w)),
            decreases blocks@.len() - b,
        {
            all.push(Some(blocks[b]));
            b += 1;
        }
        assert(blocks@.subrange(0, blocks@.len() as int) =~= blocks@);
        draw_blocks(vram, cgram, &all, &mut self.pixels, BG_TEX_H);
        self.dirty = true;
    }

    /// The background block id under texture pixel `(px, py)`, if it lies
    /// on the grid.
    pub fn block_at_pixel(&self, px: usize, py: usize) -> (id: Option<u16>)
        ensures
            id == bg_block_at(px as int, py as int),
    {
        let col = px / BLOCK_PX;
        let row = py / BLOCK_PX;
        if col < COLS && row < BG_ROWS {
            Some((row * COLS + col) as u16)
        } else {
            None
        }
    }

    /// Grid cell `(column, row)` of background block `block_id`.
    pub fn block_grid_pos(&self, block_id: u8) -> (pos: Option<(usize, usize)>)
        ensures
            pos == Some((bg_grid_pos(block_id).0 as usize, bg_grid_pos(block_id).1 as usize)),
    {
        let idx = block_id as usize;
        if idx < BG_NUM_BLOCKS {
            Some((idx % COLS, idx / COLS))
        } else {
            None
        }
    }
}


/// The background block under texture pixel `(px, py)`, if it lies on the
/// 16x16 grid.
pub open spec fn bg_block_at(px: int, py: int) -> Option<u16> {
    if px / 16 < 16 && py / 16 < 16 {
        Some(((py / 16) * 16 + px / 16) as u16)
    } else {
        None
    }
}

/// Grid cell `(column, row)` of background block `block_id`.
pub open spec fn bg_grid_pos(block_id: u8) -> (int, int) {
    ((block_id % 16) as int, (block_id / 16) as int)
}

/// Every pixel of the cell a background block is shown in picks that
/// block.
pub proof fn lemma_bg_cell_picks_its_block(block_id: u8, dx: int, dy: int)
    requires
        0 <= dx < 16,
        0 <= dy < 16,
    ensures
        bg_block_at(bg_grid_pos(block_id).0 * 16 + dx, bg_grid_pos(block_id).1 * 16 + dy) == Some(
            block_id as u16,
        ),
{
    let (c, r) = bg_grid_pos(block_id);
    assert((c * 16 + dx) / 16 == c);
    assert((r * 16 + dy) / 16 == r);
}

} // verus!
