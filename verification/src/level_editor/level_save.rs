//! Writing an edited level back into the ROM: the primary header encoded
//! from the level properties, and data blocks rewritten in place when they
//! still fit or moved into free space when they grew.

use crate::level_editor::properties::LevelProperties;
use crate::rom_freespace::{find_free_space_in, free_space_result, scan_limit};
use vstd::prelude::*;

verus! {

/// Size of a level's primary header in bytes.
pub const PRIMARY_HEADER_SIZE: usize = 5;

/// `1` for `true`, `0` for `false`.
pub open spec fn bit(b: bool) -> u8 {
    if b {
        1
    } else {
        0
    }
}

/// The five primary header bytes that encode `p`: BG palette and level
/// length; back area color and level mode; layer 3 priority, music and
/// sprite GFX; timer, sprite palette and FG palette; item memory, vertical
/// scroll and FG/BG GFX.
pub open spec fn primary_header(p: LevelProperties) -> Seq<u8> {
    seq![
        (p.palette_bg << 5u8) | p.level_length,
        (p.back_area_color << 5u8) | p.level_mode,
        (bit(p.layer3_priority) << 7u8) | (p.music << 4u8) | (p.sprite_gfx & 0x0F),
        (p.timer << 6u8) | (p.palette_sprite << 3u8) | p.palette_fg,
        (p.item_memory << 6u8) | (p.vertical_scroll << 4u8) | p.fg_bg_gfx,
    ]
}

/// The primary header fields each fit their bits: level length and level
/// mode 5 bits; BG palette, back area color, music, sprite palette and FG
/// palette 3 bits; sprite GFX and FG/BG GFX 4 bits; timer, item memory and
/// vertical scroll 2 bits.
pub open spec fn header_fields_fit(p: LevelProperties) -> bool {
    &&& p.level_length < 32
    &&& p.palette_bg < 8
    &&& p.level_mode < 32
    &&& p.back_area_color < 8
    &&& p.music < 8
    &&& p.sprite_gfx < 16
    &&& p.timer < 4
    &&& p.palette_sprite < 8
    &&& p.palette_fg < 8
    &&& p.item_memory < 4
    &&& p.vertical_scroll < 4
    &&& p.fg_bg_gfx < 16
}

proof fn lemma_header_bits(
    length: u8,
    bg: u8,
    mode: u8,
    back: u8,
    l3: u8,
    music: u8,
    sgfx: u8,
    timer: u8,
    spal: u8,
    fpal: u8,
    mem: u8,
    vs: u8,
    gfx: u8,
)
    by (bit_vector)
    requires
        length < 32,
        bg < 8,
        mode < 32,
        back < 8,
        l3 < 2,
        music < 8,
        sgfx < 16,
        timer < 4,
        spal < 8,
        fpal < 8,
        mem < 4,
        vs < 4,
        gfx < 16,
    ensures
        ((bg << 5u8) | length) & 0x1F == length,
        ((bg << 5u8) | length) >> 5u8 == bg,
        ((back << 5u8) | mode) & 0x1F == mode,
        ((back << 5u8) | mode) >> 5u8 == back,
        ((l3 << 7u8) | (music << 4u8) | (sgfx & 0x0F)) >> 7u8 == l3,
        (((l3 << 7u8) | (music << 4u8) | (sgfx & 0x0F)) >> 4u8) & 7 == music,
        ((l3 << 7u8) | (music << 4u8) | (sgfx & 0x0F)) & 0x0F == sgfx,
        ((timer << 6u8) | (spal << 3u8) | fpal) >> 6u8 == timer,
        (((timer << 6u8) | (spal << 3u8) | fpal) >> 3u8) & 7 == spal,
        ((timer << 6u8) | (spal << 3u8) | fpal) & 7 == fpal,
        ((mem << 6u8) | (vs << 4u8) | gfx) >> 6u8 == mem,
        (((mem << 6u8) | (vs << 4u8) | gfx) >> 4u8) & 3 == vs,
        ((mem << 6u8) | (vs << 4u8) | gfx) & 0x0F == gfx,
{
}

/// The primary header decodes back to the properties it was written
/// from: each field is read back from its bits of its byte, whenever the
/// fields fit their bits.
pub proof fn lemma_primary_header_decodes(p: LevelProperties)
    requires
        header_fields_fit(p),
    ensures
        primary_header(p).len() == PRIMARY_HEADER_SIZE,
        primary_header(p)[0] & 0x1F == p.level_length,
        primary_header(p)[0] >> 5u8 == p.palette_bg,
        primary_header(p)[1] & 0x1F == p.level_mode,
        primary_header(p)[1] >> 5u8 == p.back_area_color,
        primary_header(p)[2] >> 7u8 == bit(p.layer3_priority),
        (primary_header(p)[2] >> 4u8) & 7 == p.music,
        primary_header(p)[2] & 0x0F == p.sprite_gfx,
        primary_header(p)[3] >> 6u8 == p.timer,
        (primary_header(p)[3] >> 3u8) & 7 == p.palette_sprite,
        primary_header(p)[3] & 7 == p.palette_fg,
        primary_header(p)[4] >> 6u8 == p.item_memory,
        (primary_header(p)[4] >> 4u8) & 3 == p.vertical_scroll,
        primary_header(p)[4] & 0x0F == p.fg_bg_gfx,
{
    lemma_header_bits(
        p.level_length,
        p.palette_bg,
        p.level_mode,
        p.back_area_color,
        bit(p.layer3_priority),
        p.music,
        p.sprite_gfx,
        p.timer,
        p.palette_sprite,
        p.palette_fg,
        p.item_memory,
        p.vertical_scroll,
        p.fg_bg_gfx,
    );
}

/// The primary header bytes of a level with properties `p`.
pub fn primary_header_bytes(p: &LevelProperties) -> (bytes: [u8; 5])
    ensures
        bytes@ == primary_header(*p),
{
    let l3: u8 = if p.layer3_priority { 1 } else { 0 };
    let bytes = [
        (p.palette_bg << 5u8) | p.level_length,
        (p.back_area_color << 5u8) | p.level_mode,
        (l3 << 7u8) | (p.music << 4u8) | (p.sprite_gfx & 0x0F),
        (p.timer << 6u8) | (p.palette_sprite << 3u8) | p.palette_fg,
        (p.item_memory << 6u8) | (p.vertical_scroll << 4u8) | p.fg_bg_gfx,
    ];
    assert(bytes@ =~= primary_header(*p));
    bytes
}

/// `s` with the `n` bytes from `start` set to `0xFF` (marked free).
pub open spec fn fill_free(s: Seq<u8>, start: int, n: int) -> Seq<u8> {
    Seq::new(s.len(), |j: int| if start <= j < start + n { 0xFFu8 } else { s[j] })
}

/// `s` with `c` written from `start`.
pub open spec fn put_bytes(s: Seq<u8>, start: int, c: Seq<u8>) -> Seq<u8> {
    Seq::new(s.len(), |j: int| if start <= j < start + c.len() { c[j - start] } else { s[j] })
}

/// Where a rewritten block went.
#[derive(Clone, Copy, Debug, PartialEq, Eq, Structural)]
pub enum BlockPlacement {
    /// Over the old block, whose unused tail was marked free.
    InPlace,
    /// To free space at PC address `pc` (without the copier header); the old
    /// block was marked free and its pointer must be updated.
    Moved { pc: usize },
}

/// No free space of the needed size was found in the searched range.
#[derive(Clone, Copy, Debug, PartialEq, Eq, Structural)]
pub struct NoFreeSpace {
    pub needed: usize,
}

/// Replace the data block of `old_block` bytes at file offset `old_file`
/// with `content`. When `content` fits, it is written over the old block
/// and the rest of the old block is filled with `0xFF`; otherwise the
/// first free run of its size in the PC range `[region_start, region_end)`
/// is looked up, the old block is filled with `0xFF` and `content` is
/// written there. Nothing changes when no such run exists.
pub fn rewrite_block(
    rom_bytes: &mut Vec<u8>,
    old_file: usize,
    old_block: usize,
    content: &Vec<u8>,
    region_start: usize,
    region_end: usize,
    header_offset: usize,
) -> (res: Result<BlockPlacement, NoFreeSpace>)
    requires
        old_file + old_block <= old(rom_bytes)@.len(),
        region_start + header_offset <= usize::MAX,
    ensures
        final(rom_bytes)@.len() == old(rom_bytes)@.len(),
        content@.len() <= old_block ==> res == Ok::<BlockPlacement, NoFreeSpace>(BlockPlacement::InPlace)
            && final(rom_bytes)@ == put_bytes(
            fill_free(old(rom_bytes)@, old_file as int, old_block as int),
            old_file as int,
            content@,
        ),
        content@.len() > old_block ==> match res {
            Ok(BlockPlacement::Moved { pc }) => {
                &&& free_space_result(
                    old(rom_bytes)@,
                    content@.len() as int,
                    region_start as int,
                    region_end as int,
                    header_offset as int,
                    Some(pc),
                )
                &&& final(rom_bytes)@ == put_bytes(
                    fill_free(old(rom_bytes)@, old_file as int, old_block as int),
                    pc + header_offset,
                    content@,
                )
            },
            Ok(BlockPlacement::InPlace) => false,
            Err(e) => {
                &&& e == NoFreeSpace { needed: content@.len() as usize }
                &&& free_space_result(
                    old(rom_bytes)@,
                    content@.len() as int,
                    region_start as int,
                    region_end as int,
                    header_offset as int,
                    None,
                )
                &&& final(rom_bytes)@ == old(rom_bytes)@
            },
        },
{
    let n = content.len();
    let rom_len = rom_bytes.len();
    let dest = if n <= old_block {
        old_file
    } else {
        let found = find_free_space_in(rom_bytes.as_slice(), n, region_start, region_end, header_offset);
        match found {
            Some(pc) => {
                proof {
                    let lim = scan_limit(rom_bytes@.len() as int, region_end as int, header_offset as int);
                    assert(pc + n <= lim);
                    assert(lim <= rom_len - header_offset);
                }
                pc + header_offset
            },
            None => {
                return Err(NoFreeSpace { needed: n });
            },
        }
    };
    let ghost before = rom_bytes@;
    let mut i: usize = 0;
    while i < old_block
        invariant
            old_file + old_block <= before.len(),
            before.len() == rom_len,
            rom_bytes@.len() == before.len(),
            i <= old_block,
            forall|j: int|
                0 <= j < before.len() ==> #[trigger] rom_bytes@[j] == (if old_file <= j < old_file + i {
                    0xFFu8
                } else {
                    before[j]
                }),
        decreases old_block - i,
    {
        rom_bytes.set(old_file + i, 0xFF);
        i += 1;
    }
    assert(rom_bytes@ =~= fill_free(before, old_file as int, old_block as int));
    let ghost filled = rom_bytes@;
    let mut k: usize = 0;
    while k < n
        invariant
            n == content@.len(),
            dest + n <= filled.len(),
            filled.len() == rom_len,
            rom_bytes@.len() == filled.len(),
            k <= n,
            forall|j: int|
                0 <= j < filled.len() ==> #[trigger] rom_bytes@[j] == (if dest <= j < dest + k {
                    content@[j - dest]
                } else {
                    filled[j]
                }),
        decreases n - k,
    {
        rom_bytes.set(dest + k, content[k]);
        k += 1;
    }
    assert(rom_bytes@ =~= put_bytes(filled, dest as int, content@));
    if n <= old_block {
        Ok(BlockPlacement::InPlace)
    } else {
        Ok(BlockPlacement::Moved { pc: dest - header_offset })
    }
}

} // verus!
