//! SNES graphics: 4bpp planar tiles in VRAM, BGR555 colors in CGRAM,
//! tilemap addressing, and drawing tiles into RGBA pixel buffers.
//!
//! A 4bpp tile takes 32 bytes: for pixel row `r`, bytes `2r` and `2r + 1`
//! hold bit planes 0 and 1, bytes `16 + 2r` and `17 + 2r` planes 2 and 3;
//! within a plane byte, bit 7 is the leftmost pixel.

use crate::bits::lemma_u16_fields;
use crate::level_editor::gfx_sheet::Tile;
use vstd::arithmetic::div_mod::lemma_fundamental_div_mod_converse;
use vstd::prelude::*;

verus! {

/// Color index (0-15) of pixel column `px` (0-7) of the tile row starting
/// at `row_off`.
pub open spec fn texel_index(vram: Seq<u8>, row_off: int, px: int) -> u8 {
    let bit = (7 - px) as u8;
    ((vram[row_off] >> bit) & 1) | (((vram[row_off + 1] >> bit) & 1) << 1u8) | (((vram[row_off
        + 16] >> bit) & 1) << 2u8) | (((vram[row_off + 17] >> bit) & 1) << 3u8)
}

/// A BGR555 color word as 8-bit RGB (each 5-bit channel shifted up by 3).
pub open spec fn bgr555_rgb(lo: u8, hi: u8) -> (u8, u8, u8) {
    let rgb = (lo as u16) | ((hi as u16) << 8u16);
    (((rgb & 0x1F) << 3u16) as u8, (((rgb >> 5u16) & 0x1F) << 3u16) as u8, (((rgb >> 10u16) & 0x1F)
        << 3u16) as u8)
}

pub(crate) fn texel(vram: &[u8], row_off: usize, px: usize) -> (ci: u8)
    requires
        row_off + 17 < vram@.len(),
        px < 8,
    ensures
        ci == texel_index(vram@, row_off as int, px as int),
        ci < 16,
{
    let bit = (7 - px) as u8;
    let b0 = vram[row_off];
    let b1 = vram[row_off + 1];
    let b2 = vram[row_off + 16];
    let b3 = vram[row_off + 17];
    let ci = ((b0 >> bit) & 1) | (((b1 >> bit) & 1) << 1u8) | (((b2 >> bit) & 1) << 2u8) | (((b3
        >> bit) & 1) << 3u8);
    assert(ci < 16) by (bit_vector)
        requires
            ci == ((b0 >> bit) & 1) | (((b1 >> bit) & 1) << 1u8) | (((b2 >> bit) & 1) << 2u8) | (((b3
                >> bit) & 1) << 3u8),
    ;
    ci
}

/// 8-bit RGB of the BGR555 color in bytes `lo`, `hi`.
pub fn bgr555_to_rgb(lo: u8, hi: u8) -> (c: (u8, u8, u8))
    ensures
        c == bgr555_rgb(lo, hi),
{
    let rgb: u16 = (lo as u16) | ((hi as u16) << 8u16);
    (((rgb & 0x1F) << 3u16) as u8, (((rgb >> 5u16) & 0x1F) << 3u16) as u8, (((rgb >> 10u16) & 0x1F)
        << 3u16) as u8)
}

/// The BGR555 color word of an 8-bit RGB color, each channel scaled down
/// to 5 bits as `c * 31 / 255`.
pub open spec fn rgb_bgr555(r: u8, g: u8, b: u8) -> int {
    (r * 31 / 255) + 32 * (g * 31 / 255) + 1024 * (b * 31 / 255)
}

/// The BGR555 word the palette editor stores for an edited 8-bit RGB color.
pub fn rgb_to_bgr555(r: u8, g: u8, b: u8) -> (w: u16)
    ensures
        w == rgb_bgr555(r, g, b),
{
    let r5 = (r as u16) * 31 / 255;
    let g5 = (g as u16) * 31 / 255;
    let b5 = (b as u16) * 31 / 255;
    r5 + g5 * 32 + b5 * 1024
}

/// Where and how an 8x8 tile is drawn: VRAM tile number, palette row,
/// flips, top-left pixel, and the pixel buffer's width in pixels.
#[derive(Clone, Copy, Debug, PartialEq, Eq, Structural)]
pub struct TilePlacement {
    pub tile_num: usize,
    pub pal: usize,
    pub flip_x: bool,
    pub flip_y: bool,
    pub x0: i64,
    pub y0: i64,
    pub stride: usize,
}

/// Color of texel `t` (row-major, 0-63) of a placed tile, or `None` when
/// it is transparent (index 0) or its tile row or color lies outside VRAM
/// or CGRAM.
pub open spec fn texel_color(vram: Seq<u8>, cgram: Seq<u8>, p: TilePlacement, t: int) -> Option<
    (u8, u8, u8),
> {
    let tx = t % 8;
    let ty = t / 8;
    let px = if p.flip_x {
        7 - tx
    } else {
        tx
    };
    let py = if p.flip_y {
        7 - ty
    } else {
        ty
    };
    let row_off = p.tile_num * 32 + py * 2;
    if row_off + 17 >= vram.len() {
        None
    } else {
        let ci = texel_index(vram, row_off, px);
        if ci == 0 {
            None
        } else {
            let off_color = (p.pal * 16 + ci) * 2;
            if off_color + 1 >= cgram.len() {
                None
            } else {
                Some(bgr555_rgb(cgram[off_color], cgram[off_color + 1]))
            }
        }
    }
}

/// `pixels` after drawing texel `t`: an opaque texel whose screen position
/// is not negative and whose RGBA quad fits in the buffer is written with
/// alpha 255.
pub open spec fn texel_drawn(
    vram: Seq<u8>,
    cgram: Seq<u8>,
    p: TilePlacement,
    pixels: Seq<u8>,
    t: int,
) -> Seq<u8> {
    match texel_color(vram, cgram, p, t) {
        None => pixels,
        Some(c) => {
            let xa = p.x0 + t % 8;
            let ya = p.y0 + t / 8;
            let off = (ya * p.stride + xa) * 4;
            if xa < 0 || ya < 0 || off + 3 >= pixels.len() {
                pixels
            } else {
                pixels.update(off, c.0).update(off + 1, c.1).update(off + 2, c.2).update(off + 3, 255)
            }
        },
    }
}

/// `pixels` after drawing the first `n` texels of the tile, in row-major
/// order.
pub open spec fn tile_drawn(
    vram: Seq<u8>,
    cgram: Seq<u8>,
    p: TilePlacement,
    pixels: Seq<u8>,
    n: int,
) -> Seq<u8>
    decreases n,
{
    if n <= 0 {
        pixels
    } else {
        texel_drawn(vram, cgram, p, tile_drawn(vram, cgram, p, pixels, n - 1), n - 1)
    }
}

/// Drawing a tile changes no buffer length.
pub proof fn lemma_tile_drawn_len(vram: Seq<u8>, cgram: Seq<u8>, p: TilePlacement, pixels: Seq<u8>, n: int)
    ensures
        tile_drawn(vram, cgram, p, pixels, n).len() == pixels.len(),
    decreases n,
{
    if n > 0 {
        lemma_tile_drawn_len(vram, cgram, p, pixels, n - 1);
    }
}

/// The placement's arithmetic fits the machine: tile and color offsets,
/// screen coordinates, and the byte offset of every texel.
pub open spec fn placement_fits(p: TilePlacement) -> bool {
    &&& p.tile_num * 32 + 31 <= usize::MAX
    &&& (p.pal * 16 + 15) * 2 + 1 <= usize::MAX
    &&& i64::MIN <= p.x0 && p.x0 + 7 <= i64::MAX
    &&& i64::MIN <= p.y0 && p.y0 + 7 <= i64::MAX
    &&& p.x0 + 7 <= usize::MAX
    &&& p.y0 + 7 <= usize::MAX
    &&& ((p.y0 + 7) * p.stride + p.x0 + 7) * 4 + 3 <= usize::MAX
}

/// Color of texel `t` of a placed tile (see `texel_color`).
pub fn texel_rgb(vram: &[u8], cgram: &[u8], p: TilePlacement, t: usize) -> (c: Option<(u8, u8, u8)>)
    requires
        placement_fits(p),
        t < 64,
    ensures
        c == texel_color(vram@, cgram@, p, t as int),
{
    let tx = t % 8;
    let ty = t / 8;
    let px = if p.flip_x { 7 - tx } else { tx };
    let py = if p.flip_y { 7 - ty } else { ty };
    let row_off = p.tile_num * 32 + py * 2;
    if row_off + 17 >= vram.len() {
        return None;
    }
    let ci = texel(vram, row_off, px);
    if ci == 0 {
        return None;
    }
    let off_color = (p.pal * 16 + ci as usize) * 2;
    if off_color + 1 >= cgram.len() {
        return None;
    }
    Some(bgr555_to_rgb(cgram[off_color], cgram[off_color + 1]))
}

/// Draw one 8x8 4bpp tile from `vram`, colored from `cgram`, into the RGBA
/// buffer `pixels`.
pub fn draw_tile(vram: &[u8], cgram: &[u8], p: TilePlacement, pixels: &mut Vec<u8>)
    requires
        placement_fits(p),
    ensures
        final(pixels)@ == tile_drawn(vram@, cgram@, p, old(pixels)@, 64),
{
    let mut t: usize = 0;
    while t < 64
        invariant
            placement_fits(p),
            t <= 64,
            pixels@ == tile_drawn(vram@, cgram@, p, old(pixels)@, t as int),
        decreases 64 - t,
    {
        let ghost before = pixels@;
        match texel_rgb(vram, cgram, p, t) {
            Some((r, g, b)) => {
                let xa: i64 = p.x0 + (t % 8) as i64;
                let ya: i64 = p.y0 + (t / 8) as i64;
                if xa >= 0 && ya >= 0 {
                    assert((ya as int) * (p.stride as int) <= (p.y0 + 7) * p.stride) by (nonlinear_arith)
                        requires
                            0 <= ya <= p.y0 + 7,
                    ;
                    assert(0 <= xa <= p.x0 + 7);
                    let off: usize = ((ya as usize) * p.stride + xa as usize) * 4;
                    if off + 3 < pixels.len() {
                        pixels[off] = r;
                        pixels[off + 1] = g;
                        pixels[off + 2] = b;
                        pixels[off + 3] = 255;
                    }
                }
            },
            None => {},
        }
        proof {
            assert(pixels@ =~= texel_drawn(vram@, cgram@, p, before, t as int));
        }
        t += 1;
    }
}

/// Placement of a layer tilemap word: tile number in bits 0-9, palette in
/// bits 10-12, X/Y flip in bits 14/15.
pub open spec fn bg_word_placement(t: u16, x0: int, y0: int, stride: usize) -> TilePlacement {
    TilePlacement {
        tile_num: (t & 0x3FF) as usize,
        pal: ((t >> 10u16) & 7) as usize,
        flip_x: t & 0x4000 != 0,
        flip_y: t & 0x8000 != 0,
        x0: x0 as i64,
        y0: y0 as i64,
        stride,
    }
}

/// Placement of a sprite OAM word: tile number in bits 0-8 (from tile
/// `0x600` of VRAM), sprite palette (8-15) from bits 9-11, X/Y flip in bits
/// 14/15.
pub open spec fn sprite_word_placement(t: u16, x0: int, y0: int, stride: usize) -> TilePlacement {
    TilePlacement {
        tile_num: ((t & 0x1FF) + 0x600) as usize,
        pal: (((t >> 9u16) & 7) + 8) as usize,
        flip_x: t & 0x4000 != 0,
        flip_y: t & 0x8000 != 0,
        x0: x0 as i64,
        y0: y0 as i64,
        stride,
    }
}

/// Draw the 8x8 tile of tilemap word `t` with its top-left pixel at
/// `(x0, y0)` of an RGBA buffer `stride` pixels wide.
pub fn render_sub_tile(
    vram: &[u8],
    cgram: &[u8],
    t: u16,
    x0: u32,
    y0: u32,
    pixels: &mut Vec<u8>,
    stride: usize,
)
    requires
        x0 + 7 <= u32::MAX,
        y0 + 7 <= u32::MAX,
        ((y0 + 7) * stride + x0 + 7) * 4 + 3 <= usize::MAX,
    ensures
        final(pixels)@ == tile_drawn(
            vram@,
            cgram@,
            bg_word_placement(t, x0 as int, y0 as int, stride),
            old(pixels)@,
            64,
        ),
{
    proof {
        lemma_u16_fields();
    }
    assert(t & 0x3FF <= 0x3FF && (t >> 10u16) & 7 <= 7);
    let p = TilePlacement {
        tile_num: (t & 0x3FF) as usize,
        pal: ((t >> 10u16) & 7) as usize,
        flip_x: (t & 0x4000) != 0,
        flip_y: (t & 0x8000) != 0,
        x0: x0 as i64,
        y0: y0 as i64,
        stride,
    };
    draw_tile(vram, cgram, p, pixels);
}

/// Draw the 8x8 sprite tile of OAM word `t` at `(x0, y0)`, which may lie
/// partly off the top or left edge.
pub fn render_signed_sprite_sub_tile(
    vram: &[u8],
    cgram: &[u8],
    t: u16,
    x0: i32,
    y0: i32,
    pixels: &mut Vec<u8>,
    stride: usize,
)
    requires
        x0 + 7 <= i32::MAX,
        y0 + 7 <= i32::MAX,
        ((y0 + 7) * stride + x0 + 7) * 4 + 3 <= usize::MAX,
    ensures
        final(pixels)@ == tile_drawn(
            vram@,
            cgram@,
            sprite_word_placement(t, x0 as int, y0 as int, stride),
            old(pixels)@,
            64,
        ),
{
    proof {
        lemma_u16_fields();
    }
    assert(t & 0x1FF <= 0x1FF && (t >> 9u16) & 7 <= 7);
    let p = TilePlacement {
        tile_num: ((t & 0x1FF) + 0x600) as usize,
        pal: (((t >> 9u16) & 7) + 8) as usize,
        flip_x: (t & 0x4000) != 0,
        flip_y: (t & 0x8000) != 0,
        x0: x0 as i64,
        y0: y0 as i64,
        stride,
    };
    draw_tile(vram, cgram, p, pixels);
}

/// Draw VRAM tile `tile_num` in palette row `pal`, flipped as asked, at
/// `(x0, y0)` of an RGBA buffer `width` pixels wide.
pub fn render_preview_tile(
    vram: &[u8],
    cgram: &[u8],
    tile_num: usize,
    pal: usize,
    flip_x: bool,
    flip_y: bool,
    x0: u32,
    y0: u32,
    width: usize,
    pixels: &mut Vec<u8>,
)
    requires
        tile_num * 32 + 31 <= usize::MAX,
        (pal * 16 + 15) * 2 + 1 <= usize::MAX,
        x0 + 7 <= u32::MAX,
        y0 + 7 <= u32::MAX,
        ((y0 + 7) * width + x0 + 7) * 4 + 3 <= usize::MAX,
    ensures
        final(pixels)@ == tile_drawn(
            vram@,
            cgram@,
            TilePlacement {
                tile_num,
                pal,
                flip_x,
                flip_y,
                x0: x0 as i64,
                y0: y0 as i64,
                stride: width,
            },
            old(pixels)@,
            64,
        ),
{
    let p = TilePlacement {
        tile_num,
        pal,
        flip_x,
        flip_y,
        x0: x0 as i64,
        y0: y0 as i64,
        stride: width,
    };
    draw_tile(vram, cgram, p, pixels);
}

/// Eight one-bit values packed into a byte, the first in bit 7.
pub open spec fn pack8(a0: u8, a1: u8, a2: u8, a3: u8, a4: u8, a5: u8, a6: u8, a7: u8) -> u8 {
    (a0 << 7u8) | (a1 << 6u8) | (a2 << 5u8) | (a3 << 4u8) | (a4 << 3u8) | (a5 << 2u8) | (a6 << 1u8)
        | a7
}

/// Bit `plane` of the color index of pixel `col` of row `row`.
pub open spec fn index_bit(ci: Seq<u8>, row: int, col: int, plane: u8) -> u8 {
    (ci[row * 8 + col] >> plane) & 1
}

/// Bit plane `plane` of pixel row `row` of a tile with color indices `ci`.
pub open spec fn plane_byte(ci: Seq<u8>, row: int, plane: u8) -> u8 {
    pack8(
        index_bit(ci, row, 0, plane),
        index_bit(ci, row, 1, plane),
        index_bit(ci, row, 2, plane),
        index_bit(ci, row, 3, plane),
        index_bit(ci, row, 4, plane),
        index_bit(ci, row, 5, plane),
        index_bit(ci, row, 6, plane),
        index_bit(ci, row, 7, plane),
    )
}

/// The 32 bytes of a tile in 4bpp planar layout.
pub open spec fn tile_4bpp(ci: Seq<u8>) -> Seq<u8> {
    Seq::new(
        32,
        |j: int|
            if j < 16 {
                plane_byte(ci, j / 2, (j % 2) as u8)
            } else {
                plane_byte(ci, (j - 16) / 2, (2 + j % 2) as u8)
            },
    )
}

proof fn lemma_pack8_bits(a0: u8, a1: u8, a2: u8, a3: u8, a4: u8, a5: u8, a6: u8, a7: u8)
    by (bit_vector)
    requires
        a0 <= 1,
        a1 <= 1,
        a2 <= 1,
        a3 <= 1,
        a4 <= 1,
        a5 <= 1,
        a6 <= 1,
        a7 <= 1,
    ensures
        (pack8(a0, a1, a2, a3, a4, a5, a6, a7) >> 7u8) & 1 == a0,
        (pack8(a0, a1, a2, a3, a4, a5, a6, a7) >> 6u8) & 1 == a1,
        (pack8(a0, a1, a2, a3, a4, a5, a6, a7) >> 5u8) & 1 == a2,
        (pack8(a0, a1, a2, a3, a4, a5, a6, a7) >> 4u8) & 1 == a3,
        (pack8(a0, a1, a2, a3, a4, a5, a6, a7) >> 3u8) & 1 == a4,
        (pack8(a0, a1, a2, a3, a4, a5, a6, a7) >> 2u8) & 1 == a5,
        (pack8(a0, a1, a2, a3, a4, a5, a6, a7) >> 1u8) & 1 == a6,
        (pack8(a0, a1, a2, a3, a4, a5, a6, a7) >> 0u8) & 1 == a7,
{
}

proof fn lemma_low_nibble(c: u8)
    by (bit_vector)
    ensures
        ((c >> 0u8) & 1) | (((c >> 1u8) & 1) << 1u8) | (((c >> 2u8) & 1) << 2u8) | (((c >> 3u8) & 1)
            << 3u8) == c & 15,
        (c >> 0u8) & 1 <= 1,
        (c >> 1u8) & 1 <= 1,
        (c >> 2u8) & 1 <= 1,
        (c >> 3u8) & 1 <= 1,
{
}

proof fn lemma_plane_bit(ci: Seq<u8>, row: int, col: int, plane: u8)
    requires
        ci.len() == 64,
        0 <= row < 8,
        0 <= col < 8,
        plane < 4,
    ensures
        (plane_byte(ci, row, plane) >> ((7 - col) as u8)) & 1 == index_bit(ci, row, col, plane),
{
    assert forall|k: int| 0 <= k < 8 implies #[trigger] index_bit(ci, row, k, plane) <= 1 by {
        let c = ci[row * 8 + k];
        assert((c >> plane) & 1 <= 1) by (bit_vector);
    }
    lemma_pack8_bits(
        index_bit(ci, row, 0, plane),
        index_bit(ci, row, 1, plane),
        index_bit(ci, row, 2, plane),
        index_bit(ci, row, 3, plane),
        index_bit(ci, row, 4, plane),
        index_bit(ci, row, 5, plane),
        index_bit(ci, row, 6, plane),
        index_bit(ci, row, 7, plane),
    );
}

/// Decoding pixel `(col, row)` of a 4bpp-encoded tile gives back the low
/// four bits of its color index.
pub proof fn lemma_4bpp_round_trip(ci: Seq<u8>, row: int, col: int)
    requires
        ci.len() == 64,
        0 <= row < 8,
        0 <= col < 8,
    ensures
        texel_index(tile_4bpp(ci), row * 2, col) == ci[row * 8 + col] & 15,
{
    let enc = tile_4bpp(ci);
    assert(enc[row * 2] == plane_byte(ci, row, 0));
    assert(enc[row * 2 + 1] == plane_byte(ci, row, 1));
    assert(enc[row * 2 + 16] == plane_byte(ci, row, 2));
    assert(enc[row * 2 + 17] == plane_byte(ci, row, 3));
    lemma_plane_bit(ci, row, col, 0);
    lemma_plane_bit(ci, row, col, 1);
    lemma_plane_bit(ci, row, col, 2);
    lemma_plane_bit(ci, row, col, 3);
    assert((plane_byte(ci, row, 0) >> ((7 - col) as u8)) & 1 == index_bit(ci, row, col, 0));
    assert((plane_byte(ci, row, 1) >> ((7 - col) as u8)) & 1 == index_bit(ci, row, col, 1));
    assert((plane_byte(ci, row, 2) >> ((7 - col) as u8)) & 1 == index_bit(ci, row, col, 2));
    assert((plane_byte(ci, row, 3) >> ((7 - col) as u8)) & 1 == index_bit(ci, row, col, 3));
    lemma_low_nibble(ci[row * 8 + col]);
}

fn plane_byte_of(ci: &[u8; 64], row: usize, plane: u8) -> (b: u8)
    requires
        row < 8,
        plane < 4,
    ensures
        b == plane_byte(ci@, row as int, plane),
{
    let k = row * 8;
    ((((ci[k] >> plane) & 1) << 7u8) | (((ci[k + 1] >> plane) & 1) << 6u8) | (((ci[k + 2] >> plane)
        & 1) << 5u8) | (((ci[k + 3] >> plane) & 1) << 4u8) | (((ci[k + 4] >> plane) & 1) << 3u8) | (((
    ci[k + 5] >> plane) & 1) << 2u8) | (((ci[k + 6] >> plane) & 1) << 1u8) | ((ci[k + 7] >> plane)
        & 1))
}

/// A tile in 4bpp planar layout (the bits above the low four of each color
/// index are dropped).
pub fn encode_tile_4bpp(tile: &Tile) -> (out: [u8; 32])
    ensures
        out@ == tile_4bpp(tile.color_indices@),
{
    let mut out = [0u8; 32];
    let mut row: usize = 0;
    while row < 8
        invariant
            row <= 8,
            forall|j: int|
                0 <= j < 16 && j / 2 < row || 16 <= j < 32 && (j - 16) / 2 < row ==> out@[j]
                    == tile_4bpp(tile.color_indices@)[j],
        decreases 8 - row,
    {
        out[row * 2] = plane_byte_of(&tile.color_indices, row, 0);
        out[row * 2 + 1] = plane_byte_of(&tile.color_indices, row, 1);
        out[row * 2 + 16] = plane_byte_of(&tile.color_indices, row, 2);
        out[row * 2 + 17] = plane_byte_of(&tile.color_indices, row, 3);
        row += 1;
    }
    assert(out@ =~= tile_4bpp(tile.color_indices@));
    out
}

fn tile_4bpp_byte(ci: &[u8; 64], j: usize) -> (b: u8)
    requires
        j < 32,
    ensures
        b == tile_4bpp(ci@)[j as int],
{
    if j < 16 {
        plane_byte_of(ci, j / 2, (j % 2) as u8)
    } else {
        plane_byte_of(ci, (j - 16) / 2, (2 + j % 2) as u8)
    }
}

/// Byte `i` of VRAM holding GFX files in consecutive 4 KiB slots of 128
/// 4bpp tiles: file `i / 4096`, tile `(i % 4096) / 32`, zero where a file
/// has no such tile.
pub open spec fn gfx_vram_byte(files: Seq<Vec<Tile>>, i: int) -> u8 {
    let slot = i / 4096;
    let t = (i % 4096) / 32;
    if slot < files.len() && t < files[slot]@.len() {
        tile_4bpp(files[slot]@[t].color_indices@)[i % 32]
    } else {
        0
    }
}

/// The 64 KiB of VRAM the sprite map editor shows: every GFX file's first
/// 128 tiles, 4bpp, file `n` at byte `n * 4096` (files from 16 on do not
/// fit).
pub fn build_gfx_vram(files: &Vec<Vec<Tile>>) -> (vram: Vec<u8>)
    ensures
        vram@.len() == 0x10000,
        forall|i: int| 0 <= i < 0x10000 ==> vram@[i] == gfx_vram_byte(files@, i),
{
    let mut vram: Vec<u8> = Vec::new();
    let mut i: usize = 0;
    while i < 0x10000
        invariant
            i <= 0x10000,
            vram@.len() == i,
            forall|k: int| 0 <= k < i ==> vram@[k] == gfx_vram_byte(files@, k),
        decreases 0x10000 - i,
    {
        let slot = i / 4096;
        let t = (i % 4096) / 32;
        let b: u8 = if slot < files.len() && t < files[slot].len() {
            tile_4bpp_byte(&files[slot][t].color_indices, i % 32)
        } else {
            0
        };
        vram.push(b);
        i += 1;
    }
    vram
}

/// CGRAM bytes for 256 BGR555 colors, little-endian.
pub fn build_cgram(colors: &Vec<u16>) -> (cgram: Vec<u8>)
    requires
        colors@.len() == 256,
    ensures
        cgram@.len() == 512,
        forall|i: int|
            0 <= i < 256 ==> cgram@[2 * i] == (colors@[i] & 0xFF) as u8 && cgram@[2 * i + 1] == (
            colors@[i] >> 8u16) as u8,
{
    let mut cgram: Vec<u8> = Vec::new();
    let mut i: usize = 0;
    while i < 256
        invariant
            colors@.len() == 256,
            i <= 256,
            cgram@.len() == 2 * i,
            forall|k: int|
                0 <= k < i ==> cgram@[2 * k] == (colors@[k] & 0xFF) as u8 && cgram@[2 * k + 1] == (
                colors@[k] >> 8u16) as u8,
        decreases 256 - i,
    {
        let c = colors[i];
        cgram.push((c & 0xFF) as u8);
        cgram.push((c >> 8u16) as u8);
        i += 1;
    }
    cgram
}

/// Read color `idx` of `cgram` as RGB; black when it lies past the end.
pub fn read_color(cgram: &[u8], idx: usize) -> (c: [u8; 3])
    requires
        idx * 2 + 1 <= usize::MAX,
    ensures
        idx * 2 + 1 >= cgram@.len() ==> c@ == seq![0u8, 0u8, 0u8],
        idx * 2 + 1 < cgram@.len() ==> c@ == seq![
            bgr555_rgb(cgram@[idx * 2], cgram@[idx * 2 + 1]).0,
            bgr555_rgb(cgram@[idx * 2], cgram@[idx * 2 + 1]).1,
            bgr555_rgb(cgram@[idx * 2], cgram@[idx * 2 + 1]).2,
        ],
{
    let off = idx * 2;
    if off + 1 >= cgram.len() {
        let c = [0u8, 0u8, 0u8];
        assert(c@ =~= seq![0u8, 0u8, 0u8]);
        return c;
    }
    let (r, g, b) = bgr555_to_rgb(cgram[off], cgram[off + 1]);
    let c = [r, g, b];
    assert(c@ =~= seq![r, g, b]);
    c
}

/// `convert_3bpp_to_4bpp` output byte `i`: planes 0-1 copied, plane 2
/// copied into the plane 2/3 pairs, plane 3 zero.
pub open spec fn converted_4bpp_byte(data: Seq<u8>, i: int) -> u8 {
    let tile = i / 32;
    let j = i % 32;
    if j < 16 {
        data[tile * 24 + j]
    } else if j % 2 == 0 {
        data[tile * 24 + 16 + (j - 16) / 2]
    } else {
        0
    }
}

/// Widen whole 3bpp tiles (24 bytes each) to 4bpp (32 bytes each) with an
/// empty fourth bit plane; a trailing partial tile is dropped.
pub fn convert_3bpp_to_4bpp(data_3bpp: &[u8]) -> (out: Vec<u8>)
    requires
        data_3bpp@.len() / 24 * 32 <= usize::MAX,
    ensures
        out@.len() == data_3bpp@.len() / 24 * 32,
        forall|i: int| 0 <= i < out@.len() ==> out@[i] == converted_4bpp_byte(data_3bpp@, i),
{
    let num_tiles = data_3bpp.len() / 24;
    let total = num_tiles * 32;
    let mut out: Vec<u8> = Vec::new();
    let mut i: usize = 0;
    while i < total
        invariant
            num_tiles == data_3bpp@.len() / 24,
            total == num_tiles * 32,
            i <= total,
            out@.len() == i,
            forall|k: int| 0 <= k < i ==> out@[k] == converted_4bpp_byte(data_3bpp@, k),
        decreases total - i,
    {
        let tile = i / 32;
        let j = i % 32;
        assert(tile * 24 + 24 <= data_3bpp@.len()) by (nonlinear_arith)
            requires
                tile == i / 32,
                i < num_tiles * 32,
                num_tiles == data_3bpp@.len() / 24,
        ;
        let b = if j < 16 {
            data_3bpp[tile * 24 + j]
        } else if j % 2 == 0 {
            data_3bpp[tile * 24 + 16 + (j - 16) / 2]
        } else {
            0
        };
        out.push(b);
        i += 1;
    }
    out
}

/// Byte offset, from `base`, of tilemap entry `(col, row)` in a 64x64
/// tilemap stored as four 32x32 quadrants (top-left, top-right,
/// bottom-left, bottom-right) of 2-byte entries.
pub open spec fn tilemap_offset(col: int, row: int) -> int {
    ((row / 32) * 2 + col / 32) * 2048 + ((row % 32) * 32 + col % 32) * 2
}

/// VRAM address of tilemap entry `(col, row)` of the tilemap at `base`.
pub fn tilemap_vram_addr(base: usize, col: u32, row: u32) -> (addr: usize)
    requires
        base + tilemap_offset(col as int, row as int) <= usize::MAX,
        ((row / 32) * 2 + col / 32) * 2048 <= u32::MAX,
    ensures
        addr == base + tilemap_offset(col as int, row as int),
{
    let quadrant = ((row / 32) * 2) + (col / 32);
    let sub_row = row % 32;
    let sub_col = col % 32;
    let quadrant_offset = quadrant * 32 * 32 * 2;
    let idx = quadrant_offset + ((sub_row * 32 + sub_col) * 2);
    base + idx as usize
}

/// Tilemap entries at different positions of a 64x64 tilemap have
/// different addresses.
pub proof fn lemma_tilemap_offsets_distinct(c1: int, r1: int, c2: int, r2: int)
    requires
        0 <= c1 < 64,
        0 <= r1 < 64,
        0 <= c2 < 64,
        0 <= r2 < 64,
        (c1, r1) != (c2, r2),
    ensures
        tilemap_offset(c1, r1) != tilemap_offset(c2, r2),
{
    let k1 = (r1 / 32) * 2 + c1 / 32;
    let k2 = (r2 / 32) * 2 + c2 / 32;
    let e1 = (r1 % 32) * 32 + c1 % 32;
    let e2 = (r2 % 32) * 32 + c2 % 32;
    assert(0 <= e1 < 1024 && 0 <= e2 < 1024);
    if tilemap_offset(c1, r1) == tilemap_offset(c2, r2) {
        assert(k1 * 1024 + e1 == k2 * 1024 + e2);
        lemma_fundamental_div_mod_converse(k1 * 1024 + e1, 1024, k1, e1);
        lemma_fundamental_div_mod_converse(k2 * 1024 + e2, 1024, k2, e2);
        assert(r1 % 32 == r2 % 32 && c1 % 32 == c2 % 32);
        assert(r1 / 32 == r2 / 32 && c1 / 32 == c2 / 32);
        assert(r1 == r2 && c1 == c2);
    }
}

/// Offset of overworld layer 1 tile `(col, row)` (0-31 each) in the 32x32
/// layer 1 buffer, which is split into four 16x16 quadrants.
pub open spec fn ow_l1_offset(col: u32, row: u32) -> int {
    ((col & 0x0F) | ((col & 0x10) << 4u32)) + (((row & 0x0F) << 4u32) | ((row & 0x10) << 5u32))
}

/// Index of overworld layer 1 tile `(col, row)`.
pub fn ow_l1_addr(col: u32, row: u32) -> (addr: usize)
    ensures
        addr == ow_l1_offset(col, row),
{
    let x_part = (col & 0x0F) | ((col & 0x10) << 4u32);
    let y_part = ((row & 0x0F) << 4u32) | ((row & 0x10) << 5u32);
    assert(x_part <= 0x10F && y_part <= 0x2F0) by (bit_vector)
        requires
            x_part == (col & 0x0F) | ((col & 0x10) << 4u32),
            y_part == ((row & 0x0F) << 4u32) | ((row & 0x10) << 5u32),
    ;
    (x_part + y_part) as usize
}

/// Renderer parameters of a tile: scale 8 in bits 0-7, palette in bits
/// 8-11, the flip bits 14/15 of the tilemap word kept in place.
pub open spec fn tile_params(pal: u32, t: u32) -> u32 {
    8 | (pal << 8u32) | (t & 0xC000)
}

/// Renderer tile `[x, y, tile, params]` for layer tilemap word `t`.
pub fn bg_tile(x: u32, y: u32, t: u16) -> (tile: [u32; 4])
    ensures
        tile@ == seq![x, y, (t as u32) & 0x3FF, tile_params(((t as u32) >> 10u32) & 7, t as u32)],
{
    let t = t as u32;
    let tile_num = t & 0x3FF;
    let pal = (t >> 10u32) & 0x7;
    let params = 8 | (pal << 8u32) | (t & 0xC000);
    let out = [x, y, tile_num, params];
    assert(out@ =~= seq![x, y, tile_num, params]);
    out
}

/// Renderer tile for sprite OAM word `t`: tile from `0x600` on, sprite
/// palettes 8-15.
pub fn sp_tile(x: u32, y: u32, t: u16) -> (tile: [u32; 4])
    ensures
        tile@ == seq![
            x,
            y,
            (((t as u32) & 0x1FF) + 0x600) as u32,
            tile_params(((((t as u32) >> 9u32) & 7) + 8) as u32, t as u32),
        ],
{
    let t = t as u32;
    assert(t & 0x1FF <= 0x1FF && (t >> 9u32) & 7 <= 7) by (bit_vector);
    let tile_num = (t & 0x1FF) + 0x600;
    let pal = ((t >> 9u32) & 0x7) + 8;
    let params = 8 | (pal << 8u32) | (t & 0xC000);
    let out = [x, y, tile_num, params];
    assert(out@ =~= seq![x, y, tile_num, params]);
    out
}

/// `params` with its palette field (bits 8-13) replaced by sprite palette
/// `selected + 8`.
pub open spec fn with_sprite_palette(params: u32, selected: u32) -> u32 {
    (params & 0xC0FF) | (((selected + 8) as u32) << 8u32)
}

/// Switch every tile of the sprite map editor's tile palette to sprite
/// palette `selected + 8`.
pub fn update_tile_palette(tiles: &mut Vec<[u32; 4]>, selected: u32)
    requires
        selected + 8 <= u32::MAX,
    ensures
        final(tiles)@.len() == old(tiles)@.len(),
        forall|i: int|
            0 <= i < final(tiles)@.len() ==> final(tiles)@[i]@ == old(tiles)@[i]@.update(
                3,
                with_sprite_palette(old(tiles)@[i]@[3], selected),
            ),
{
    let mut i: usize = 0;
    while i < tiles.len()
        invariant
            selected + 8 <= u32::MAX,
            i <= tiles@.len(),
            tiles@.len() == old(tiles)@.len(),
            forall|k: int|
                0 <= k < i ==> tiles@[k]@ == old(tiles)@[k]@.update(
                    3,
                    with_sprite_palette(old(tiles)@[k]@[3], selected),
                ),
            forall|k: int| i <= k < tiles@.len() ==> tiles@[k] == old(tiles)@[k],
        decreases tiles@.len() - i,
    {
        let mut tile = tiles[i];
        tile[3] = (tile[3] & 0xC0FF) | ((selected + 8) << 8u32);
        assert(tile@ =~= old(tiles)@[i as int]@.update(3, with_sprite_palette(old(tiles)@[i as int]@[3], selected)));
        tiles[i] = tile;
        i += 1;
    }
}

} // verus!
