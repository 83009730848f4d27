//! Rendering SNES tiles into packed 24-bit RGB buffers, as the image dumps
//! of the debugging tools do: pixel `(x, y)` of a buffer `width` pixels
//! wide is bytes `3 * (y * width + x) .. + 3`, and a write that would run
//! past the end of the buffer is skipped.

use crate::bits::lemma_u16_fields;
use crate::rom_expand::smc_offset;
use crate::snes_gfx::{
    bgr555_rgb, ow_l1_addr, ow_l1_offset, read_color, texel, texel_index, tilemap_offset, tilemap_vram_addr,
};
use vstd::prelude::*;

verus! {

/// CGRAM color `idx` as RGB; black when it lies past the end of CGRAM.
pub open spec fn cgram_rgb(cgram: Seq<u8>, idx: int) -> (u8, u8, u8) {
    if idx * 2 + 1 >= cgram.len() {
        (0, 0, 0)
    } else {
        bgr555_rgb(cgram[idx * 2], cgram[idx * 2 + 1])
    }
}

/// Color index of texel `t` (row-major, 0-63) of VRAM tile `tile_id` seen
/// through the flips, or `None` when its tile row runs past the end of
/// VRAM.
pub open spec fn texel_at(vram: Seq<u8>, tile_id: int, flip_x: bool, flip_y: bool, t: int) -> Option<u8> {
    let tx = t % 8;
    let ty = t / 8;
    let px = if flip_x {
        7 - tx
    } else {
        tx
    };
    let py = if flip_y {
        7 - ty
    } else {
        ty
    };
    let row_off = tile_id * 32 + py * 2;
    if row_off + 17 >= vram.len() {
        None
    } else {
        Some(texel_index(vram, row_off, px))
    }
}

/// `pixels` with pixel `(x, y)` set to `c`, when its three bytes lie inside
/// the buffer.
pub open spec fn rgb_put(pixels: Seq<u8>, width: int, x: int, y: int, c: (u8, u8, u8)) -> Seq<u8> {
    let off = (y * width + x) * 3;
    if off + 2 < pixels.len() {
        pixels.update(off, c.0).update(off + 1, c.1).update(off + 2, c.2)
    } else {
        pixels
    }
}

/// `pixels` after drawing the first `n` texels, in row-major order, of VRAM
/// tile `tile_id` in palette row `palette` with its top-left pixel at
/// `(x0, y0)`; color index 0 is transparent.
pub open spec fn rgb_tile_drawn(
    vram: Seq<u8>,
    cgram: Seq<u8>,
    tile_id: int,
    palette: int,
    flip_x: bool,
    flip_y: bool,
    x0: int,
    y0: int,
    width: int,
    pixels: Seq<u8>,
    n: int,
) -> Seq<u8>
    decreases n,
{
    if n <= 0 {
        pixels
    } else {
        let prev = rgb_tile_drawn(vram, cgram, tile_id, palette, flip_x, flip_y, x0, y0, width, pixels, n - 1);
        let t = n - 1;
        match texel_at(vram, tile_id, flip_x, flip_y, t) {
            Some(ci) => if ci == 0 {
                prev
            } else {
                rgb_put(prev, width, x0 + t % 8, y0 + t / 8, cgram_rgb(cgram, palette * 16 + ci))
            },
            None => prev,
        }
    }
}

/// Color index of texel `t` of the tile (flips applied), read from VRAM.
fn texel_of(vram: &[u8], tile_id: usize, flip_x: bool, flip_y: bool, t: u32) -> (ci: Option<u8>)
    requires
        tile_id * 32 + 31 <= usize::MAX,
        t < 64,
    ensures
        ci == texel_at(vram@, tile_id as int, flip_x, flip_y, t as int),
        ci matches Some(c) ==> c < 16,
{
    let tx = t % 8;
    let ty = t / 8;
    let px = if flip_x { 7 - tx } else { tx };
    let py = if flip_y { 7 - ty } else { ty };
    let row_off = tile_id * 32 + (py as usize) * 2;
    if row_off + 17 >= vram.len() {
        None
    } else {
        Some(texel(vram, row_off, px as usize))
    }
}

/// Set pixel `(x, y)` of an RGB buffer `width` pixels wide to `c`, unless
/// it lies past the end.
fn put_rgb(pixels: &mut Vec<u8>, x: u32, y: u32, width: u32, c: [u8; 3])
    requires
        (y * width + x) * 3 <= u32::MAX,
    ensures
        final(pixels)@ == rgb_put(old(pixels)@, width as int, x as int, y as int, (c[0], c[1], c[2])),
{
    let off = ((y * width + x) * 3) as usize;
    if pixels.len() > 2 && off < pixels.len() - 2 {
        pixels.set(off, c[0]);
        pixels.set(off + 1, c[1]);
        pixels.set(off + 2, c[2]);
    }
}

/// CGRAM color `idx` as an RGB triple.
fn color_of(cgram: &[u8], idx: usize) -> (c: [u8; 3])
    requires
        idx * 2 + 1 <= usize::MAX,
    ensures
        (c[0], c[1], c[2]) == cgram_rgb(cgram@, idx as int),
{
    let c = read_color(cgram, idx);
    assert(c@[0] == c[0] && c@[1] == c[1] && c@[2] == c[2]);
    c
}

/// Draw 8x8 VRAM tile `tile_id` in palette row `palette`, flipped as asked,
/// with its top-left pixel at `(x0, y0)`; transparent texels (color 0) and
/// tile rows past the end of VRAM are skipped.
pub fn render_tile(
    vram: &[u8],
    cgram: &[u8],
    tile_id: usize,
    palette: usize,
    flip_x: bool,
    flip_y: bool,
    x0: u32,
    y0: u32,
    width: u32,
    pixels: &mut Vec<u8>,
)
    requires
        tile_id * 32 + 31 <= usize::MAX,
        (palette * 16 + 15) * 2 + 1 <= usize::MAX,
        y0 + 7 <= u32::MAX,
        ((y0 + 7) * width + x0 + 7) * 3 <= u32::MAX,
    ensures
        final(pixels)@ == rgb_tile_drawn(
            vram@,
            cgram@,
            tile_id as int,
            palette as int,
            flip_x,
            flip_y,
            x0 as int,
            y0 as int,
            width as int,
            old(pixels)@,
            64,
        ),
{
    let mut t: u32 = 0;
    while t < 64
        invariant
            tile_id * 32 + 31 <= usize::MAX,
            (palette * 16 + 15) * 2 + 1 <= usize::MAX,
            y0 + 7 <= u32::MAX,
            ((y0 + 7) * width + x0 + 7) * 3 <= u32::MAX,
            t <= 64,
            pixels@ == rgb_tile_drawn(
                vram@,
                cgram@,
                tile_id as int,
                palette as int,
                flip_x,
                flip_y,
                x0 as int,
                y0 as int,
                width as int,
                old(pixels)@,
                t as int,
            ),
        decreases 64 - t,
    {
        match texel_of(vram, tile_id, flip_x, flip_y, t) {
            Some(ci) => {
                if ci != 0 {
                    assert(ci < 16);
                    let c = color_of(cgram, palette * 16 + ci as usize);
                    let tx = t % 8;
                    let ty = t / 8;
                    assert(((y0 + ty) * width + x0 + tx) * 3 <= ((y0 + 7) * width + x0 + 7) * 3
                        && x0 + tx <= u32::MAX) by (nonlinear_arith)
                        requires
                            tx <= 7,
                            ty <= 7,
                            ((y0 + 7) * width + x0 + 7) * 3 <= u32::MAX,
                    ;
                    put_rgb(pixels, x0 + tx, y0 + ty, width, c);
                }
            },
            None => {},
        }
        t += 1;
    }
}


/// Draw the 8x8 layer tile of tilemap word `t` (tile in bits 0-9, palette
/// in bits 10-12, X/Y flip in bits 14/15) at `(x, y)`.
pub fn render_bg_tile(vram: &[u8], cgram: &[u8], x: u32, y: u32, t: u16, width: u32, pixels: &mut Vec<u8>)
    requires
        y + 7 <= u32::MAX,
        ((y + 7) * width + x + 7) * 3 <= u32::MAX,
    ensures
        final(pixels)@ == word_tile_drawn(vram@, cgram@, t, x as int, y as int, width as int, old(pixels)@),
{
    proof {
        lemma_u16_fields();
    }
    let tile = (t & 0x3FF) as usize;
    let pal = ((t >> 10u16) & 0x7) as usize;
    render_tile(vram, cgram, tile, pal, (t & 0x4000) != 0, (t & 0x8000) != 0, x, y, width, pixels);
}

/// Draw the 8x8 sprite tile of OAM word `t` (tile in bits 0-8 from VRAM
/// tile `0x600` on, sprite palette 8-15 from bits 9-11, X/Y flip in bits
/// 14/15) at `(x, y)`.
pub fn render_sp_tile(vram: &[u8], cgram: &[u8], x: u32, y: u32, t: u16, width: u32, pixels: &mut Vec<u8>)
    requires
        y + 7 <= u32::MAX,
        ((y + 7) * width + x + 7) * 3 <= u32::MAX,
    ensures
        final(pixels)@ == rgb_tile_drawn(
            vram@,
            cgram@,
            (t & 0x1FF) + 0x600,
            ((t >> 9u16) & 7) + 8,
            t & 0x4000 != 0,
            t & 0x8000 != 0,
            x as int,
            y as int,
            width as int,
            old(pixels)@,
            64,
        ),
{
    proof {
        lemma_u16_fields();
    }
    let tile = ((t & 0x1FF) + 0x600) as usize;
    let pal = (((t >> 9u16) & 0x7) + 8) as usize;
    render_tile(vram, cgram, tile, pal, (t & 0x4000) != 0, (t & 0x8000) != 0, x, y, width, pixels);
}

/// `pixels` after the first `n` writes of drawing a tile at twice its
/// size: write `k` is texel `k / 4`, sub-pixel `(k % 2, (k % 4) / 2)` of its
/// 2x2 block; color index 0 is drawn dark grey, and tile rows past the end
/// of VRAM are skipped.
pub open spec fn sub2x_drawn(
    vram: Seq<u8>,
    cgram: Seq<u8>,
    tile_id: int,
    palette: int,
    flip_x: bool,
    flip_y: bool,
    x0: int,
    y0: int,
    width: int,
    pixels: Seq<u8>,
    n: int,
) -> Seq<u8>
    decreases n,
{
    if n <= 0 {
        pixels
    } else {
        let prev = sub2x_drawn(vram, cgram, tile_id, palette, flip_x, flip_y, x0, y0, width, pixels, n - 1);
        let k = n - 1;
        let t = k / 4;
        match texel_at(vram, tile_id, flip_x, flip_y, t) {
            Some(ci) => rgb_put(
                prev,
                width,
                x0 + (t % 8) * 2 + k % 2,
                y0 + (t / 8) * 2 + (k % 4) / 2,
                if ci == 0 {
                    (24u8, 24u8, 24u8)
                } else {
                    cgram_rgb(cgram, palette * 16 + ci)
                },
            ),
            None => prev,
        }
    }
}

/// Draw VRAM tile `tile_id` at twice its size (each texel a 2x2 block)
/// with its top-left pixel at `(x0, y0)`, color index 0 in dark grey.
pub fn render_l1_sub_tile_2x(
    vram: &[u8],
    cgram: &[u8],
    tile_id: usize,
    palette: usize,
    flip_x: bool,
    flip_y: bool,
    x0: u32,
    y0: u32,
    width: u32,
    pixels: &mut Vec<u8>,
)
    requires
        tile_id * 32 + 31 <= usize::MAX,
        (palette * 16 + 15) * 2 + 1 <= usize::MAX,
        y0 + 15 <= u32::MAX,
        ((y0 + 15) * width + x0 + 15) * 3 <= u32::MAX,
    ensures
        final(pixels)@ == sub2x_drawn(
            vram@,
            cgram@,
            tile_id as int,
            palette as int,
            flip_x,
            flip_y,
            x0 as int,
            y0 as int,
            width as int,
            old(pixels)@,
            256,
        ),
{
    let mut t: u32 = 0;
    while t < 64
        invariant
            tile_id * 32 + 31 <= usize::MAX,
            (palette * 16 + 15) * 2 + 1 <= usize::MAX,
            y0 + 15 <= u32::MAX,
            ((y0 + 15) * width + x0 + 15) * 3 <= u32::MAX,
            t <= 64,
            pixels@ == sub2x_drawn(
                vram@,
                cgram@,
                tile_id as int,
                palette as int,
                flip_x,
                flip_y,
                x0 as int,
                y0 as int,
                width as int,
                old(pixels)@,
                4 * t,
            ),
        decreases 64 - t,
    {
        let tx = t % 8;
        let ty = t / 8;
        match texel_of(vram, tile_id, flip_x, flip_y, t) {
            Some(ci) => {
                let c: [u8; 3] = if ci == 0 {
                    [24, 24, 24]
                } else {
                    assert(ci < 16);
                    color_of(cgram, palette * 16 + ci as usize)
                };
                let mut d: u32 = 0;
                while d < 4
                    invariant
                        tile_id * 32 + 31 <= usize::MAX,
                        y0 + 15 <= u32::MAX,
                        ((y0 + 15) * width + x0 + 15) * 3 <= u32::MAX,
                        t < 64,
                        tx == t % 8,
                        ty == t / 8,
                        d <= 4,
                        texel_at(vram@, tile_id as int, flip_x, flip_y, t as int) == Some(ci),
                        (c[0], c[1], c[2]) == (if ci == 0 {
                            (24u8, 24u8, 24u8)
                        } else {
                            cgram_rgb(cgram@, palette * 16 + ci)
                        }),
                        pixels@ == sub2x_drawn(
                            vram@,
                            cgram@,
                            tile_id as int,
                            palette as int,
                            flip_x,
                            flip_y,
                            x0 as int,
                            y0 as int,
                            width as int,
                            old(pixels)@,
                            4 * t + d,
                        ),
                    decreases 4 - d,
                {
                    let dx = d % 2;
                    let dy = d / 2;
                    assert(((y0 + ty * 2 + dy) * width + x0 + tx * 2 + dx) * 3 <= ((y0 + 15) * width
                        + x0 + 15) * 3 && x0 + tx * 2 + dx <= u32::MAX) by (nonlinear_arith)
                        requires
                            tx <= 7,
                            ty <= 7,
                            dx <= 1,
                            dy <= 1,
                            ((y0 + 15) * width + x0 + 15) * 3 <= u32::MAX,
                    ;
                    assert((4 * t + d) / 4 == t && (4 * t + d) % 2 == dx && ((4 * t + d) % 4) / 2 == dy);
                    put_rgb(pixels, x0 + tx * 2 + dx, y0 + ty * 2 + dy, width, c);
                    d += 1;
                }
            },
            None => {
                proof {
                    let ghost s = |n: int|
                        sub2x_drawn(
                            vram@,
                            cgram@,
                            tile_id as int,
                            palette as int,
                            flip_x,
                            flip_y,
                            x0 as int,
                            y0 as int,
                            width as int,
                            old(pixels)@,
                            n,
                        );
                    assert((4 * t) / 4 == t && (4 * t + 1) / 4 == t && (4 * t + 2) / 4 == t && (4 * t
                        + 3) / 4 == t);
                    assert(s(4 * t + 1) == s(4 * t));
                    assert(s(4 * t + 2) == s(4 * t + 1));
                    assert(s(4 * t + 3) == s(4 * t + 2));
                    assert(s(4 * t + 4) == s(4 * t + 3));
                }
            },
        }
        t += 1;
    }
}


/// Rows (top to bottom, bit 2 the leftmost pixel) of the 3x5 glyph of hex
/// digit `d`.
pub open spec fn hex_glyph(d: int) -> Seq<u8> {
    if d == 0 {
        seq![7u8, 5, 5, 5, 7]
    } else if d == 1 {
        seq![2u8, 6, 2, 2, 7]
    } else if d == 2 {
        seq![7u8, 1, 7, 4, 7]
    } else if d == 3 {
        seq![7u8, 1, 7, 1, 7]
    } else if d == 4 {
        seq![5u8, 5, 7, 1, 1]
    } else if d == 5 {
        seq![7u8, 4, 7, 1, 7]
    } else if d == 6 {
        seq![7u8, 4, 7, 5, 7]
    } else if d == 7 {
        seq![7u8, 1, 1, 1, 1]
    } else if d == 8 {
        seq![7u8, 5, 7, 5, 7]
    } else if d == 9 {
        seq![7u8, 5, 7, 1, 7]
    } else if d == 10 {
        seq![7u8, 5, 7, 5, 5]
    } else if d == 11 {
        seq![6u8, 5, 6, 5, 6]
    } else if d == 12 {
        seq![7u8, 4, 4, 4, 7]
    } else if d == 13 {
        seq![6u8, 5, 5, 5, 6]
    } else if d == 14 {
        seq![7u8, 4, 7, 4, 7]
    } else {
        seq![7u8, 4, 7, 4, 4]
    }
}

fn glyph(d: u8) -> (rows: [u8; 5])
    requires
        d < 16,
    ensures
        rows@ == hex_glyph(d as int),
{
    let rows: [u8; 5] = match d {
        0 => [0b111, 0b101, 0b101, 0b101, 0b111],
        1 => [0b010, 0b110, 0b010, 0b010, 0b111],
        2 => [0b111, 0b001, 0b111, 0b100, 0b111],
        3 => [0b111, 0b001, 0b111, 0b001, 0b111],
        4 => [0b101, 0b101, 0b111, 0b001, 0b001],
        5 => [0b111, 0b100, 0b111, 0b001, 0b111],
        6 => [0b111, 0b100, 0b111, 0b101, 0b111],
        7 => [0b111, 0b001, 0b001, 0b001, 0b001],
        8 => [0b111, 0b101, 0b111, 0b101, 0b111],
        9 => [0b111, 0b101, 0b111, 0b001, 0b111],
        10 => [0b111, 0b101, 0b111, 0b101, 0b101],
        11 => [0b110, 0b101, 0b110, 0b101, 0b110],
        12 => [0b111, 0b100, 0b100, 0b100, 0b111],
        13 => [0b110, 0b101, 0b101, 0b101, 0b110],
        14 => [0b111, 0b100, 0b111, 0b100, 0b111],
        _ => [0b111, 0b100, 0b111, 0b100, 0b100],
    };
    assert(rows@ =~= hex_glyph(d as int));
    rows
}

/// `pixels` after the first `n` steps of drawing `val` as two hex digits
/// in yellow: step `k` is digit `k / 15` (high nibble first), glyph row
/// `(k % 15) / 3`, column `k % 3`, and sets that pixel when the glyph has
/// it. Each digit cell is 4 pixels wide.
pub open spec fn label_drawn(val: u8, x0: int, y0: int, width: int, pixels: Seq<u8>, n: int) -> Seq<u8>
    decreases n,
{
    if n <= 0 {
        pixels
    } else {
        let prev = label_drawn(val, x0, y0, width, pixels, n - 1);
        let k = n - 1;
        let ci = k / 15;
        let row = (k % 15) / 3;
        let col = k % 3;
        let d = if ci == 0 {
            val / 16
        } else {
            val % 16
        };
        if (hex_glyph(d as int)[row] >> ((2 - col) as u32)) & 1u8 != 0 {
            rgb_put(prev, width, x0 + ci * 4 + col, y0 + row, (255u8, 255u8, 0u8))
        } else {
            prev
        }
    }
}

/// Draw `val` as a two-digit upper-case hex label in a 3x5 pixel font, in
/// yellow, with its top-left pixel at `(x0, y0)`.
pub fn draw_hex_label(val: u8, x0: u32, y0: u32, width: u32, pixels: &mut Vec<u8>)
    requires
        y0 + 4 <= u32::MAX,
        ((y0 + 4) * width + x0 + 7) * 3 <= u32::MAX,
    ensures
        final(pixels)@ == label_drawn(val, x0 as int, y0 as int, width as int, old(pixels)@, 30),
{
    let mut k: u32 = 0;
    while k < 30
        invariant
            y0 + 4 <= u32::MAX,
            ((y0 + 4) * width + x0 + 7) * 3 <= u32::MAX,
            k <= 30,
            pixels@ == label_drawn(val, x0 as int, y0 as int, width as int, old(pixels)@, k as int),
        decreases 30 - k,
    {
        let ci = k / 15;
        let row = (k % 15) / 3;
        let col = k % 3;
        let d = if ci == 0 { val / 16 } else { val % 16 };
        let bits = glyph(d);
        if (bits[row as usize] >> (2 - col)) & 1 != 0 {
            assert(((y0 + row) * width + x0 + ci * 4 + col) * 3 <= ((y0 + 4) * width + x0 + 7) * 3
                && x0 + ci * 4 + col <= u32::MAX) by (nonlinear_arith)
                requires
                    ci <= 1,
                    row <= 4,
                    col <= 2,
                    ((y0 + 4) * width + x0 + 7) * 3 <= u32::MAX,
            ;
            put_rgb(pixels, x0 + ci * 4 + col, y0 + row, width, [255, 255, 0]);
        }
        k += 1;
    }
}

/// `pixels` after the first `n` writes of a 16x16 outline at `(x, y)`:
/// write `k` is step `i = k / 4` of the top edge `(x + i, y)`, the bottom
/// edge `(x + i, y + 15)`, the left edge `(x, y + i)` and the right edge
/// `(x + 15, y + i)`, in turn.
pub open spec fn border_drawn(pixels: Seq<u8>, x: int, y: int, width: int, c: (u8, u8, u8), n: int) -> Seq<
    u8,
>
    decreases n,
{
    if n <= 0 {
        pixels
    } else {
        let prev = border_drawn(pixels, x, y, width, c, n - 1);
        let k = n - 1;
        let i = k / 4;
        let side = k % 4;
        if side == 0 {
            rgb_put(prev, width, x + i, y, c)
        } else if side == 1 {
            rgb_put(prev, width, x + i, y + 15, c)
        } else if side == 2 {
            rgb_put(prev, width, x, y + i, c)
        } else {
            rgb_put(prev, width, x + 15, y + i, c)
        }
    }
}

/// Draw a one-pixel outline of color `color` around the 16x16 block whose
/// top-left pixel is `(x, y)`.
pub fn draw_map16_border(pixels: &mut Vec<u8>, x: u32, y: u32, width: u32, color: [u8; 3])
    requires
        y + 15 <= u32::MAX,
        ((y + 15) * width + x + 15) * 3 <= u32::MAX,
    ensures
        final(pixels)@ == border_drawn(
            old(pixels)@,
            x as int,
            y as int,
            width as int,
            (color[0], color[1], color[2]),
            64,
        ),
{
    let mut k: u32 = 0;
    while k < 64
        invariant
            y + 15 <= u32::MAX,
            ((y + 15) * width + x + 15) * 3 <= u32::MAX,
            k <= 64,
            pixels@ == border_drawn(
                old(pixels)@,
                x as int,
                y as int,
                width as int,
                (color[0], color[1], color[2]),
                k as int,
            ),
        decreases 64 - k,
    {
        let i = k / 4;
        let side = k % 4;
        let (px, py): (u32, u32) = if side == 0 {
            (x, y)
        } else if side == 1 {
            (x, y + 15)
        } else if side == 2 {
            (x, y)
        } else {
            (x + 15, y)
        };
        let (px, py): (u32, u32) = if side <= 1 { (px + i, py) } else { (px, py + i) };
        assert((py * width + px) * 3 <= ((y + 15) * width + x + 15) * 3) by (nonlinear_arith)
            requires
                x <= px <= x + 15,
                y <= py <= y + 15,
        ;
        put_rgb(pixels, px, py, width, color);
        k += 1;
    }
}


/// Columns and rows of an overworld layer tilemap.
pub const OW_L2_COLS: u32 = 64;

/// Rows of an overworld layer tilemap.
pub const OW_L2_ROWS: u32 = 64;

/// `pixels` after drawing the tile of the tilemap entry whose two bytes
/// start at `addr` of `map` (tile in bits 0-9, palette in bits 10-12, X/Y flip in
/// bits 14/15, little-endian) at `(x, y)`.
pub open spec fn entry_drawn(
    map: Seq<u8>,
    vram: Seq<u8>,
    cgram: Seq<u8>,
    addr: int,
    x: int,
    y: int,
    width: int,
    pixels: Seq<u8>,
) -> Seq<u8> {
    let t0 = map[addr] as u16;
    let t1 = map[addr + 1] as u16;
    rgb_tile_drawn(
        vram,
        cgram,
        (t0 | ((t1 & 3) << 8u16)) as int,
        ((t1 >> 2u16) & 7) as int,
        (t1 & 0x40) != 0,
        (t1 & 0x80) != 0,
        x,
        y,
        width,
        pixels,
        64,
    )
}

/// Draw the tilemap entry whose two bytes start at `addr` of `map` at
/// `(x, y)`.
fn draw_entry(
    map: &[u8],
    vram: &[u8],
    cgram: &[u8],
    addr: usize,
    x: u32,
    y: u32,
    width: u32,
    pixels: &mut Vec<u8>,
)
    requires
        addr + 1 < map@.len(),
        y + 7 <= u32::MAX,
        ((y + 7) * width + x + 7) * 3 <= u32::MAX,
    ensures
        final(pixels)@ == entry_drawn(map@, vram@, cgram@, addr as int, x as int, y as int, width as int, old(pixels)@),
{
    let t0 = map[addr] as u16;
    let t1 = map[addr + 1] as u16;
    assert((t0 | ((t1 & 3) << 8u16)) <= 0x3FF && ((t1 >> 2u16) & 7) <= 7) by (bit_vector)
        requires
            t0 <= 0xFF,
            t1 <= 0xFF,
    ;
    render_tile(
        vram,
        cgram,
        (t0 | ((t1 & 3) << 8u16)) as usize,
        ((t1 >> 2u16) & 7) as usize,
        (t1 & 0x40) != 0,
        (t1 & 0x80) != 0,
        x,
        y,
        width,
        pixels,
    );
}

/// `pixels` after the first `n` entries (row-major, 64 per row) of the
/// 64x64 tilemap at `base` are drawn scrolled by `(sx, sy)` into a buffer
/// 512 pixels wide: entries wholly outside the 512x512 view are skipped,
/// and one partly off the top or left edge is drawn at that edge.
pub open spec fn bg_drawn(
    vram: Seq<u8>,
    cgram: Seq<u8>,
    base: int,
    sx: int,
    sy: int,
    pixels: Seq<u8>,
    n: int,
) -> Seq<u8>
    decreases n,
{
    if n <= 0 {
        pixels
    } else {
        let prev = bg_drawn(vram, cgram, base, sx, sy, pixels, n - 1);
        let e = n - 1;
        let x = (e % 64) * 8 - sx;
        let y = (e / 64) * 8 - sy;
        if x <= -8 || y <= -8 || x >= 512 || y >= 512 {
            prev
        } else {
            entry_drawn(
                vram,
                vram,
                cgram,
                base + tilemap_offset(e % 64, e / 64),
                if x < 0 {
                    0
                } else {
                    x
                },
                if y < 0 {
                    0
                } else {
                    y
                },
                512,
                prev,
            )
        }
    }
}

/// Draw the 64x64 tilemap at `tilemap_base` scrolled by
/// `(scroll_x, scroll_y)` into a 512-pixel-wide view. The view width is
/// fixed: `_width` is not read.
pub fn render_bg(
    vram: &[u8],
    tilemap_base: usize,
    scroll_x: i32,
    scroll_y: i32,
    _width: u32,
    cgram: &[u8],
    pixels: &mut Vec<u8>,
)
    requires
        tilemap_base + 8192 <= vram.len(),
        scroll_x >= 504 - i32::MAX,
        scroll_y >= 504 - i32::MAX,
    ensures
        final(pixels)@ == bg_drawn(
            vram@,
            cgram@,
            tilemap_base as int,
            scroll_x as int,
            scroll_y as int,
            old(pixels)@,
            4096,
        ),
{
    let mut e: u32 = 0;
    while e < 4096
        invariant
            tilemap_base + 8192 <= vram.len(),
            scroll_x >= 504 - i32::MAX,
            scroll_y >= 504 - i32::MAX,
            e <= 4096,
            pixels@ == bg_drawn(
                vram@,
                cgram@,
                tilemap_base as int,
                scroll_x as int,
                scroll_y as int,
                old(pixels)@,
                e as int,
            ),
        decreases 4096 - e,
    {
        let col = e % OW_L2_COLS;
        let row = e / OW_L2_COLS;
        assert(0 <= tilemap_offset(col as int, row as int) <= 8190);
        let addr = tilemap_vram_addr(tilemap_base, col, row);
        let x = (col * 8) as i32 - scroll_x;
        let y = (row * 8) as i32 - scroll_y;
        if !(x <= -8 || y <= -8 || x >= 512 || y >= 512) {
            let xc: u32 = if x < 0 { 0 } else { x as u32 };
            let yc: u32 = if y < 0 { 0 } else { y as u32 };
            draw_entry(vram, vram, cgram, addr, xc, yc, 512, pixels);
        }
        e += 1;
    }
}

/// `pixels` after the first `n` entries (row-major, 64 per row) of the
/// 64x64 tilemap at `base` are drawn unscrolled, entry `(col, row)` at
/// `(8 * col, 8 * row)`.
pub open spec fn bg_full_drawn(vram: Seq<u8>, cgram: Seq<u8>, base: int, width: int, pixels: Seq<u8>, n: int) -> Seq<
    u8,
>
    decreases n,
{
    if n <= 0 {
        pixels
    } else {
        let e = n - 1;
        entry_drawn(
            vram,
            vram,
            cgram,
            base + tilemap_offset(e % 64, e / 64),
            (e % 64) * 8,
            (e / 64) * 8,
            width,
            bg_full_drawn(vram, cgram, base, width, pixels, n - 1),
        )
    }
}

/// Draw the whole 64x64 tilemap at `tilemap_base`, unscrolled.
pub fn render_bg_full(vram: &[u8], tilemap_base: usize, width: u32, cgram: &[u8], pixels: &mut Vec<u8>)
    requires
        tilemap_base + 8192 <= vram.len(),
        (511 * width + 511) * 3 <= u32::MAX,
    ensures
        final(pixels)@ == bg_full_drawn(vram@, cgram@, tilemap_base as int, width as int, old(pixels)@, 4096),
{
    let mut e: u32 = 0;
    while e < 4096
        invariant
            tilemap_base + 8192 <= vram.len(),
            (511 * width + 511) * 3 <= u32::MAX,
            e <= 4096,
            pixels@ == bg_full_drawn(vram@, cgram@, tilemap_base as int, width as int, old(pixels)@, e as int),
        decreases 4096 - e,
    {
        let col = e % OW_L2_COLS;
        let row = e / OW_L2_COLS;
        assert(0 <= tilemap_offset(col as int, row as int) <= 8190);
        let addr = tilemap_vram_addr(tilemap_base, col, row);
        assert(((row * 8 + 7) * width + col * 8 + 7) * 3 <= (511 * width + 511) * 3) by (nonlinear_arith)
            requires
                row < 64,
                col < 64,
        ;
        draw_entry(vram, vram, cgram, addr, col * 8, row * 8, width, pixels);
        e += 1;
    }
}


/// A buffer of `n` zero bytes.
fn zero_buffer(n: usize) -> (v: Vec<u8>)
    ensures
        v@ == Seq::new(n as nat, |i: int| 0u8),
{
    let mut v: Vec<u8> = Vec::new();
    let mut i: usize = 0;
    while i < n
        invariant
            i <= n,
            v@ == Seq::new(i as nat, |k: int| 0u8),
        decreases n - i,
    {
        v.push(0);
        i += 1;
    }
    v
}

/// `pixels` after the first `n` entries (row-major, `cols` per row) of the
/// layer 2 tilemap in `wram` are drawn, entry `(col, row)` at
/// `(8 * col, 8 * row)` of a buffer `8 * cols` pixels wide; the tilemap is
/// laid out in 32x32 quadrants, and entries past the end of `wram` are
/// skipped.
pub open spec fn l2_drawn(wram: Seq<u8>, vram: Seq<u8>, cgram: Seq<u8>, cols: int, pixels: Seq<u8>, n: int) -> Seq<
    u8,
>
    decreases n,
{
    if n <= 0 || cols <= 0 {
        pixels
    } else {
        let prev = l2_drawn(wram, vram, cgram, cols, pixels, n - 1);
        let e = n - 1;
        let col = e % cols;
        let row = e / cols;
        let idx = tilemap_offset(col, row);
        if idx + 1 >= wram.len() {
            prev
        } else {
            entry_drawn(wram, vram, cgram, idx, col * 8, row * 8, cols * 8, prev)
        }
    }
}

/// Render the `cols` x `rows` layer 2 tilemap held in `wram` into a new RGB
/// image `8 * cols` by `8 * rows` pixels.
pub fn render_l2(wram: &[u8], cols: u32, rows: u32, vram: &[u8], cgram: &[u8]) -> (pixels: Vec<u8>)
    requires
        cols * 8 <= u32::MAX,
        rows * 8 <= u32::MAX,
        cols * 8 * (rows * 8) * 3 <= u32::MAX,
    ensures
        pixels@ == l2_drawn(
            wram@,
            vram@,
            cgram@,
            cols as int,
            Seq::new((cols * 8 * (rows * 8) * 3) as nat, |i: int| 0u8),
            rows * cols,
        ),
{
    let width_px = cols * 8;
    let height_px = rows * 8;
    let mut pixels = zero_buffer((width_px * height_px * 3) as usize);
    let ghost blank = pixels@;
    assert(rows * cols <= u32::MAX) by (nonlinear_arith)
        requires
            cols * 8 * (rows * 8) * 3 <= u32::MAX,
    ;
    let total = rows * cols;
    let mut e: u32 = 0;
    while e < total
        invariant
            cols * 8 * (rows * 8) * 3 <= u32::MAX,
            width_px == cols * 8,
            total == rows * cols,
            e <= total,
            pixels@ == l2_drawn(wram@, vram@, cgram@, cols as int, blank, e as int),
        decreases total - e,
    {
        assert(cols > 0) by (nonlinear_arith)
            requires
                e < total,
                total == rows * cols,
        ;
        let col = e % cols;
        let row = e / cols;
        assert(row < rows && ((row / 32) * 2 + col / 32) * 2048 <= u32::MAX && ((row * 8 + 7) * width_px
            + col * 8 + 7) * 3 <= u32::MAX) by (nonlinear_arith)
            requires
                e < total,
                total == rows * cols,
                cols > 0,
                col == e % cols,
                row == e / cols,
                width_px == cols * 8,
                cols * 8 * (rows * 8) * 3 <= u32::MAX,
        {
            assert(row * cols + col == e);
            assert(row * cols < rows * cols);
            assert(row < rows);
            assert(row + 1 <= rows);
            assert((row + 1) * cols <= rows * cols);
            assert(row * 64 + col * 64 <= rows * cols * 128);
        }
        let idx = tilemap_vram_addr(0, col, row);
        if idx + 1 < wram.len() {
            draw_entry(wram, vram, cgram, idx, col * 8, row * 8, width_px, &mut pixels);
        }
        e += 1;
    }
    pixels
}


/// `pixels` after drawing the 8x8 tile of layer tilemap word `w` (tile in
/// bits 0-9, palette in bits 10-12, X/Y flip in bits 14/15) at `(x, y)`.
pub open spec fn word_tile_drawn(
    vram: Seq<u8>,
    cgram: Seq<u8>,
    w: u16,
    x: int,
    y: int,
    width: int,
    pixels: Seq<u8>,
) -> Seq<u8> {
    rgb_tile_drawn(
        vram,
        cgram,
        (w & 0x3FF) as int,
        ((w >> 10u16) & 7) as int,
        w & 0x4000 != 0,
        w & 0x8000 != 0,
        x,
        y,
        width,
        pixels,
        64,
    )
}

/// Byte `i` of the ROM image in `raw` (a copier header skipped), or 0 past
/// its end.
pub open spec fn rom_byte_or_zero(raw: Seq<u8>, i: int) -> u8 {
    let j = smc_offset(raw.len() as int) + i;
    if j < raw.len() {
        raw[j]
    } else {
        0
    }
}

/// Little-endian word at byte `i` of the ROM image in `raw`, missing bytes
/// read as 0.
pub open spec fn rom_word_or_zero(raw: Seq<u8>, i: int) -> u16 {
    (rom_byte_or_zero(raw, i) as u16) | ((rom_byte_or_zero(raw, i + 1) as u16) << 8u16)
}

/// ROM offset of the layer 1 character data of overworld tile `tile_id`:
/// its pointer in `m16ptr` (little-endian, 2 bytes per tile) in bank
/// `char_bank`, mapped LoROM; `None` when the pointer lies past the end of
/// `m16ptr`.
pub open spec fn l1_char_offset(m16ptr: Seq<u8>, tile_id: int, char_bank: u32) -> Option<int> {
    let p = tile_id * 2;
    if p + 1 >= m16ptr.len() {
        None
    } else {
        let char_ptr = (m16ptr[p] as u32) | ((m16ptr[p + 1] as u32) << 8u32);
        let snes = char_bank | char_ptr;
        Some((((snes & 0x7F0000) >> 1u32) | (snes & 0x7FFF)) as int)
    }
}

/// `pixels` after drawing layer 1 block `b` (row-major, 32 per row) of the
/// overworld: the nonzero tile id of the block, taken from the submap's
/// half of `l1`, selects four character words in the ROM (top-left,
/// top-right, bottom-left, bottom-right), drawn as a 16x16 block at
/// `(16 * col, 16 * row + y_offset)` of a buffer `8 * cols` pixels wide,
/// with a yellow outline when `wireframe` is set. Blocks that do not fit
/// the `8 * cols` by `8 * rows` image are skipped.
pub open spec fn l1_block_drawn(
    l1: Seq<u8>,
    m16ptr: Seq<u8>,
    submap: u8,
    raw: Seq<u8>,
    vram: Seq<u8>,
    cgram: Seq<u8>,
    cols: int,
    rows: int,
    char_bank: u32,
    wireframe: bool,
    y_offset: int,
    pixels: Seq<u8>,
    b: int,
) -> Seq<u8> {
    let row = b / 32;
    let col = b % 32;
    let idx = (if submap != 0 {
        0x400int
    } else {
        0
    }) + ow_l1_offset(col as u32, row as u32);
    let px = col * 16;
    let py = row * 16 + y_offset;
    let width = cols * 8;
    if idx >= l1.len() || l1[idx] == 0 {
        pixels
    } else {
        match l1_char_offset(m16ptr, l1[idx] as int, char_bank) {
            None => pixels,
            Some(off) => if px + 16 > cols * 8 || py + 16 > rows * 8 {
                pixels
            } else {
                let p1 = word_tile_drawn(vram, cgram, rom_word_or_zero(raw, off), px, py, width, pixels);
                let p2 = word_tile_drawn(vram, cgram, rom_word_or_zero(raw, off + 2), px + 8, py, width, p1);
                let p3 = word_tile_drawn(vram, cgram, rom_word_or_zero(raw, off + 4), px, py + 8, width, p2);
                let p4 = word_tile_drawn(
                    vram,
                    cgram,
                    rom_word_or_zero(raw, off + 6),
                    px + 8,
                    py + 8,
                    width,
                    p3,
                );
                if wireframe {
                    border_drawn(p4, px, py, width, (255u8, 255u8, 0u8), 64)
                } else {
                    p4
                }
            },
        }
    }
}

/// `pixels` after drawing the first `n` layer 1 blocks.
pub open spec fn l1_drawn(
    l1: Seq<u8>,
    m16ptr: Seq<u8>,
    submap: u8,
    raw: Seq<u8>,
    vram: Seq<u8>,
    cgram: Seq<u8>,
    cols: int,
    rows: int,
    char_bank: u32,
    wireframe: bool,
    y_offset: int,
    pixels: Seq<u8>,
    n: int,
) -> Seq<u8>
    decreases n,
{
    if n <= 0 {
        pixels
    } else {
        l1_block_drawn(
            l1,
            m16ptr,
            submap,
            raw,
            vram,
            cgram,
            cols,
            rows,
            char_bank,
            wireframe,
            y_offset,
            l1_drawn(l1, m16ptr, submap, raw, vram, cgram, cols, rows, char_bank, wireframe, y_offset, pixels, n - 1),
            n - 1,
        )
    }
}

/// Byte `i` of the ROM image in `raw`, or 0 past its end.
fn rom_byte(raw: &[u8], header: usize, i: usize) -> (b: u8)
    requires
        header == smc_offset(raw@.len() as int),
        i <= 0x80_0000,
    ensures
        b == rom_byte_or_zero(raw@, i as int),
{
    if header + i < raw.len() {
        raw[header + i]
    } else {
        0
    }
}

/// Draw the 32x32 layer 1 blocks of an overworld submap (the second half
/// of `l1_data` for a submap other than 0) from their character data in
/// the ROM file `raw_rom` into an RGB image `8 * l2_cols` pixels wide. The
/// pointer base `_ptr_base` is not read.
pub fn render_l1_proper(
    l1_data: &[u8],
    m16ptr_data: &[u8],
    submap: u8,
    raw_rom: &[u8],
    vram: &[u8],
    cgram: &[u8],
    pixels: &mut Vec<u8>,
    l2_cols: u32,
    l2_rows: u32,
    _ptr_base: u32,
    char_bank: u32,
    wireframe: bool,
    l1_y_offset: u8,
)
    requires
        l2_cols * 8 <= u32::MAX,
        l2_rows * 8 <= u32::MAX,
        l2_cols * 8 * (l2_rows * 8) * 3 <= u32::MAX,
    ensures
        final(pixels)@ == l1_drawn(
            l1_data@,
            m16ptr_data@,
            submap,
            raw_rom@,
            vram@,
            cgram@,
            l2_cols as int,
            l2_rows as int,
            char_bank,
            wireframe,
            l1_y_offset as int,
            old(pixels)@,
            1024,
        ),
{
    let header: usize = if raw_rom.len() % 0x400 == 0x200 { 0x200 } else { 0 };
    let l1_offset: usize = if submap != 0 { 0x400 } else { 0 };
    let width_px = l2_cols * 8;
    let mut b: u32 = 0;
    while b < 1024
        invariant
            l2_cols * 8 <= u32::MAX,
            l2_rows * 8 <= u32::MAX,
            l2_cols * 8 * (l2_rows * 8) * 3 <= u32::MAX,
            width_px == l2_cols * 8,
            header == smc_offset(raw_rom@.len() as int),
            l1_offset == (if submap != 0 {
                0x400int
            } else {
                0
            }),
            b <= 1024,
            pixels@ == l1_drawn(
                l1_data@,
                m16ptr_data@,
                submap,
                raw_rom@,
                vram@,
                cgram@,
                l2_cols as int,
                l2_rows as int,
                char_bank,
                wireframe,
                l1_y_offset as int,
                old(pixels)@,
                b as int,
            ),
        decreases 1024 - b,
    {
        let row = b / 32;
        let col = b % 32;
        assert(ow_l1_offset(col, row) <= 0x3FF) by (bit_vector)
            requires
                col < 32,
                row < 32,
        ;
        let idx = l1_offset + ow_l1_addr(col, row);
        if idx < l1_data.len() && l1_data[idx] != 0 {
            let ptr_idx = l1_data[idx] as usize * 2;
            if ptr_idx + 1 < m16ptr_data.len() {
                let char_ptr = (m16ptr_data[ptr_idx] as u32) | ((m16ptr_data[ptr_idx + 1] as u32) << 8u32);
                let snes_addr = char_bank | char_ptr;
                let rom_offset = (((snes_addr & 0x7F0000) >> 1u32) | (snes_addr & 0x7FFF)) as usize;
                assert((((snes_addr & 0x7F0000) >> 1u32) | (snes_addr & 0x7FFF)) <= 0x3F_FFFF) by (bit_vector);
                let px = col * 16;
                let py = row * 16 + l1_y_offset as u32;
                if !(px + 16 > width_px || py + 16 > l2_rows * 8) {
                    let w0 = (rom_byte(raw_rom, header, rom_offset) as u16) | ((rom_byte(
                        raw_rom,
                        header,
                        rom_offset + 1,
                    ) as u16) << 8u16);
                    let w1 = (rom_byte(raw_rom, header, rom_offset + 2) as u16) | ((rom_byte(
                        raw_rom,
                        header,
                        rom_offset + 3,
                    ) as u16) << 8u16);
                    let w2 = (rom_byte(raw_rom, header, rom_offset + 4) as u16) | ((rom_byte(
                        raw_rom,
                        header,
                        rom_offset + 5,
                    ) as u16) << 8u16);
                    let w3 = (rom_byte(raw_rom, header, rom_offset + 6) as u16) | ((rom_byte(
                        raw_rom,
                        header,
                        rom_offset + 7,
                    ) as u16) << 8u16);
                    assert(((py + 15) * width_px + px + 15) * 3 <= u32::MAX) by (nonlinear_arith)
                        requires
                            px + 16 <= width_px,
                            py + 16 <= l2_rows * 8,
                            width_px * (l2_rows * 8) * 3 <= u32::MAX,
                    ;
                    assert(((py + 7) * width_px + px + 7) * 3 <= u32::MAX && ((py + 15) * width_px
                        + px + 7) * 3 <= u32::MAX && ((py + 7) * width_px + px + 15) * 3 <= u32::MAX)
                        by (nonlinear_arith)
                        requires
                            ((py + 15) * width_px + px + 15) * 3 <= u32::MAX,
                    ;
                    render_bg_tile(vram, cgram, px, py, w0, width_px, pixels);
                    render_bg_tile(vram, cgram, px + 8, py, w1, width_px, pixels);
                    render_bg_tile(vram, cgram, px, py + 8, w2, width_px, pixels);
                    render_bg_tile(vram, cgram, px + 8, py + 8, w3, width_px, pixels);
                    if wireframe {
                        draw_map16_border(pixels, px, py, width_px, [255, 255, 0]);
                    }
                }
            }
        }
        b += 1;
    }
}

} // verus!
