//! The decompressed sprite list of a level in WRAM (3-byte records from
//! `$7EC901`, ended by `0xFF`), sprite anchor positions and hit testing.

use vstd::prelude::*;

verus! {

/// Offset in WRAM of the level's sprite list (`$7EC901`).
pub const WRAM_SPRITE_LIST: usize = 0xC901;

/// The 3-byte sprite records in `wram` from byte `WRAM_SPRITE_LIST + off`
/// on: records are read until one starts with `0xFF` or would run past
/// the end of `wram`.
pub open spec fn sprite_records_from(wram: Seq<u8>, off: int) -> Seq<[u8; 3]>
    decreases wram.len() - off,
{
    let p = WRAM_SPRITE_LIST + off;
    if off < 0 || p + 2 >= wram.len() || wram[p] == 0xFF {
        seq![]
    } else {
        seq![[wram[p], wram[p + 1], wram[p + 2]]] + sprite_records_from(wram, off + 3)
    }
}

/// Read the sprite records of the level's sprite list in WRAM.
pub fn read_sprites_from_wram(wram: &[u8]) -> (sprites: Vec<[u8; 3]>)
    ensures
        sprites@ == sprite_records_from(wram@, 0),
{
    let mut sprites: Vec<[u8; 3]> = Vec::new();
    let base = WRAM_SPRITE_LIST;
    let mut off: usize = 0;
    loop
        invariant
            base == WRAM_SPRITE_LIST,
            off <= wram@.len(),
            sprites@ + sprite_records_from(wram@, off as int) == sprite_records_from(wram@, 0),
        ensures
            sprites@ == sprite_records_from(wram@, 0),
        decreases wram@.len() - off,
    {
        if wram.len() <= base + 2 || off >= wram.len() - base - 2 {
            assert(sprites@ + seq![] =~= sprites@);
            break;
        }
        let b0 = wram[base + off];
        if b0 == 0xFF {
            assert(sprites@ + seq![] =~= sprites@);
            break;
        }
        let rec = [b0, wram[base + off + 1], wram[base + off + 2]];
        proof {
            let rest = sprite_records_from(wram@, off as int + 3);
            assert(sprite_records_from(wram@, off as int) == seq![rec] + rest);
            assert(sprites@.push(rec) + rest =~= sprites@ + (seq![rec] + rest));
        }
        sprites.push(rec);
        off += 3;
    }
    sprites
}

/// Byte `j` of the sprite list area after writing `sprites` and the
/// terminator over `wram`.
pub open spec fn written_byte(wram: Seq<u8>, sprites: Seq<[u8; 3]>, j: int) -> u8 {
    let base = WRAM_SPRITE_LIST as int;
    let n = sprites.len() as int;
    if j == base + 3 * n {
        0xFF
    } else if base <= j < base + 3 * n && base + 3 * ((j - base) / 3) + 2 < wram.len() {
        sprites[(j - base) / 3][(j - base) % 3]
    } else {
        wram[j]
    }
}

/// Write `sprites` as the level's sprite list in WRAM, followed by the
/// `0xFF` terminator; records or a terminator that would run past the end
/// of `wram` are not written.
pub fn write_sprites_to_wram(wram: &mut Vec<u8>, sprites: &Vec<[u8; 3]>)
    requires
        WRAM_SPRITE_LIST + 3 * sprites@.len() + 3 <= usize::MAX,
    ensures
        final(wram)@ == wram_after_write(old(wram)@, sprites@),
        final(wram)@.len() == old(wram)@.len(),
        forall|j: int|
            0 <= j < old(wram)@.len() ==> #[trigger] final(wram)@[j] == written_byte(
                old(wram)@,
                sprites@,
                j,
            ),
{
    let base = WRAM_SPRITE_LIST;
    let n = sprites.len();
    let mut i: usize = 0;
    while i < n
        invariant
            base == WRAM_SPRITE_LIST,
            n == sprites@.len(),
            WRAM_SPRITE_LIST + 3 * n + 3 <= usize::MAX,
            i <= n,
            wram@.len() == old(wram)@.len(),
            forall|j: int|
                0 <= j < wram@.len() ==> #[trigger] wram@[j] == (if base <= j < base + 3 * i && base + 3
                    * ((j - base) / 3) + 2 < wram@.len() {
                    sprites@[(j - base) / 3][(j - base) % 3]
                } else {
                    old(wram)@[j]
                }),
        decreases n - i,
    {
        let off = i * 3;
        let raw = sprites[i];
        if base + off + 2 < wram.len() {
            wram.set(base + off, raw[0]);
            wram.set(base + off + 1, raw[1]);
            wram.set(base + off + 2, raw[2]);
        }
        proof {
            assert forall|j: int| 0 <= j < wram@.len() implies #[trigger] wram@[j] == (if base <= j < base
                + 3 * (i + 1) && base + 3 * ((j - base) / 3) + 2 < wram@.len() {
                sprites@[(j - base) / 3][(j - base) % 3]
            } else {
                old(wram)@[j]
            }) by {
                if base + 3 * i <= j < base + 3 * (i + 1) {
                    assert((j - base) / 3 == i);
                }
            }
        }
        i += 1;
    }
    let term_off = n * 3;
    if base + term_off < wram.len() {
        wram.set(base + term_off, 0xFF);
    }
    assert(wram@ =~= wram_after_write(old(wram)@, sprites@));
}

/// Where a sprite record sits: its X and Y tile within the screen and the
/// screen number, as decoded from the record.
#[derive(Clone, Copy, Debug, PartialEq, Eq, Structural)]
pub struct SpriteSpot {
    pub x_tile: u8,
    pub y_tile: u8,
    pub screen: u8,
}

/// Pixel anchor of a sprite: horizontal levels place screens side by side,
/// 256 pixels wide; vertical levels stack pairs of screens, 512 pixels per
/// pair.
pub open spec fn anchor(spot: SpriteSpot, vertical: bool) -> (int, int) {
    if vertical {
        ((spot.screen % 2) * 256 + spot.x_tile * 16, (spot.screen / 2) * 512 + spot.y_tile * 16)
    } else {
        (spot.screen * 256 + spot.x_tile * 16, spot.y_tile * 16)
    }
}

/// The pixel anchor of a sprite.
pub fn sprite_pixel_pos(spot: SpriteSpot, vertical: bool) -> (pos: (u32, u32))
    ensures
        (pos.0 as int, pos.1 as int) == anchor(spot, vertical),
{
    let x_tile = spot.x_tile as u32;
    let y_tile = spot.y_tile as u32;
    let screen = spot.screen as u32;
    if vertical {
        ((screen % 2) * 256 + x_tile * 16, (screen / 2) * 512 + y_tile * 16)
    } else {
        (screen * 256 + x_tile * 16, y_tile * 16)
    }
}

/// Sprite `i` occupies tile `(tx, ty)`: the 16x16 cell of its anchor.
pub open spec fn sprite_hit(spots: Seq<SpriteSpot>, i: int, tx: int, ty: int, vertical: bool) -> bool {
    let (ax, ay) = anchor(spots[i], vertical);
    tx == ax / 16 && ty == ay / 16
}

/// The topmost (last) sprite on tile `(tx, ty)`, if any.
pub fn find_sprite_at(spots: &Vec<SpriteSpot>, tx: u32, ty: u32, vertical: bool) -> (hit: Option<usize>)
    ensures
        match hit {
            Some(i) => i < spots@.len() && sprite_hit(spots@, i as int, tx as int, ty as int, vertical)
                && forall|j: int|
                i < j < spots@.len() ==> !#[trigger] sprite_hit(spots@, j, tx as int, ty as int, vertical),
            None => forall|j: int|
                0 <= j < spots@.len() ==> !#[trigger] sprite_hit(spots@, j, tx as int, ty as int, vertical),
        },
{
    let mut i = spots.len();
    while i > 0
        invariant
            i <= spots@.len(),
            forall|j: int|
                i <= j < spots@.len() ==> !#[trigger] sprite_hit(spots@, j, tx as int, ty as int, vertical),
        decreases i,
    {
        let k = i - 1;
        let (ax, ay) = sprite_pixel_pos(spots[k], vertical);
        if tx >= ax / 16 && tx < (ax / 16) + 1 && ty >= ay / 16 && ty < (ay / 16) + 1 {
            return Some(k);
        }
        i = k;
    }
    None
}

/// The overlay color `(r, g, b, alpha)` of a sprite, spread over the
/// palette by its id.
pub fn sprite_color(id: u8) -> (rgba: [u8; 4])
    requires
        (id * 53) % 256 + 40 <= 255,
        (id * 97) % 256 + 40 <= 255,
        (id * 151) % 256 + 40 <= 255,
    ensures
        rgba@ == seq![
            ((id * 53) % 256 + 40) as u8,
            ((id * 97) % 256 + 40) as u8,
            ((id * 151) % 256 + 40) as u8,
            100u8,
        ],
{
    let r = 40 + id.wrapping_mul(53);
    let g = 40 + id.wrapping_mul(97);
    let b = 40 + id.wrapping_mul(151);
    let c = [r, g, b, 100];
    assert(c@ =~= seq![r, g, b, 100u8]);
    c
}


/// The sprite list area after `write_sprites_to_wram(wram, sprites)`.
pub open spec fn wram_after_write(wram: Seq<u8>, sprites: Seq<[u8; 3]>) -> Seq<u8> {
    Seq::new(wram.len(), |j: int| written_byte(wram, sprites, j))
}

proof fn lemma_records_from_written(wram: Seq<u8>, sprites: Seq<[u8; 3]>, k: int)
    requires
        WRAM_SPRITE_LIST + 3 * sprites.len() < wram.len(),
        forall|i: int| 0 <= i < sprites.len() ==> (#[trigger] sprites[i])[0] != 0xFF,
        0 <= k <= sprites.len(),
    ensures
        sprite_records_from(wram_after_write(wram, sprites), 3 * k).map_values(|a: [u8; 3]| a@) == sprites.subrange(
            k,
            sprites.len() as int,
        ).map_values(|a: [u8; 3]| a@),
    decreases sprites.len() - k,
{
    let w = wram_after_write(wram, sprites);
    let base = WRAM_SPRITE_LIST as int;
    let p = base + 3 * k;
    if k == sprites.len() {
        assert(w[p] == 0xFF);
        assert(sprites.subrange(k, sprites.len() as int).map_values(|a: [u8; 3]| a@) =~= seq![]);
        assert(sprite_records_from(w, 3 * k).map_values(|a: [u8; 3]| a@) =~= seq![]);
    } else {
        lemma_records_from_written(wram, sprites, k + 1);
        assert((p - base) / 3 == k && (p + 1 - base) / 3 == k && (p + 2 - base) / 3 == k);
        assert((p - base) % 3 == 0 && (p + 1 - base) % 3 == 1 && (p + 2 - base) % 3 == 2);
        let spr = sprites[k];
        assert(w[p] == spr[0] && w[p + 1] == spr[1] && w[p + 2] == spr[2]);
        let rec = [w[p], w[p + 1], w[p + 2]];
        assert(rec@ =~= spr@);
        let rest = sprite_records_from(w, 3 * k + 3);
        assert(3 * (k + 1) == 3 * k + 3);
        assert(sprite_records_from(w, 3 * k) == seq![rec] + rest);
        assert(sprites.subrange(k, sprites.len() as int) =~= seq![spr] + sprites.subrange(
            k + 1,
            sprites.len() as int,
        ));
        assert((seq![rec] + rest).map_values(|a: [u8; 3]| a@) =~= seq![rec@] + rest.map_values(
            |a: [u8; 3]| a@,
        ));
        assert((seq![spr] + sprites.subrange(k + 1, sprites.len() as int)).map_values(|a: [u8; 3]| a@)
            =~= seq![spr@] + sprites.subrange(k + 1, sprites.len() as int).map_values(|a: [u8; 3]| a@));
    }
}

/// Reading the sprite list back after writing it gives the written
/// records, when the list and its terminator fit in WRAM and no record
/// starts with the terminator byte `0xFF`.
pub proof fn lemma_sprite_list_round_trip(wram: Seq<u8>, sprites: Seq<[u8; 3]>)
    requires
        WRAM_SPRITE_LIST + 3 * sprites.len() < wram.len(),
        forall|i: int| 0 <= i < sprites.len() ==> (#[trigger] sprites[i])[0] != 0xFF,
    ensures
        sprite_records_from(wram_after_write(wram, sprites), 0).map_values(|a: [u8; 3]| a@)
            == sprites.map_values(|a: [u8; 3]| a@),
{
    lemma_records_from_written(wram, sprites, 0);
    assert(sprites.subrange(0, sprites.len() as int) =~= sprites);
}

} // verus!
