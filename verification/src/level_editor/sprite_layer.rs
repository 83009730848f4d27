//! The editable sprite layer: absolute sprite positions, the packed ROM
//! sprite format written on save, and the lossless undo snapshot format.

use vstd::prelude::*;

use crate::bytes::{from_le32, le32, lemma_le32_roundtrip, push_le32, read_le32};

verus! {

/// One placed sprite, at absolute tile coordinates in the level.
#[derive(Clone, Copy, Debug, Default, PartialEq, Eq, Structural)]
pub struct EditableSprite {
    pub x: u32,
    pub y: u32,
    pub sprite_id: u8,
    pub extra_bits: u8,
}

/// The sprites of one level.
#[derive(Clone, Debug, Default)]
pub struct EditableSpriteLayer {
    pub sprites: Vec<EditableSprite>,
}

/// A sprite whose position needs a screen number above 255, which the
/// packed ROM format cannot hold.
#[derive(Clone, Copy, Debug, PartialEq, Eq, Structural)]
pub enum SpritePositionError {
    ScreenOutOfRange,
}

/// Screen number holding a sprite: horizontal levels count screens along X
/// (16 tiles each); vertical levels have two 16-tile screens per 32-tile
/// row of screens.
pub open spec fn sprite_screen(spr: EditableSprite, vertical_level: bool) -> int {
    if vertical_level {
        (spr.y / 32) * 2 + spr.x / 16
    } else {
        (spr.x / 16) as int
    }
}

/// The sprite's position within its screen.
pub open spec fn sprite_local(spr: EditableSprite) -> (int, int) {
    ((spr.x % 16) as int, (spr.y % 32) as int)
}

/// The absolute position of a sprite stored at `(x_tile, y_tile)` on
/// `screen`.
pub open spec fn absolute_position(screen: int, x_tile: int, y_tile: int, vertical_level: bool) -> (int, int) {
    if vertical_level {
        ((screen % 2) * 16 + x_tile, (screen / 2) * 32 + y_tile)
    } else {
        (screen * 16 + x_tile, y_tile)
    }
}

/// The 3 bytes of the packed ROM record of a sprite whose screen fits a byte.
pub open spec fn packed_record(spr: EditableSprite, vertical_level: bool) -> Seq<u8> {
    let screen = sprite_screen(spr, vertical_level);
    let (x_tile, y_tile) = sprite_local(spr);
    seq![
        (16 * (y_tile % 16) + 4 * (spr.extra_bits % 4) + 2 * ((screen / 16) % 2) + y_tile / 16) as u8,
        (16 * x_tile + screen % 16) as u8,
        spr.sprite_id,
    ]
}

/// Packed records of all sprites, in order (without the terminator).
pub open spec fn packed_records(sprites: Seq<EditableSprite>, vertical_level: bool) -> Seq<u8>
    decreases sprites.len(),
{
    if sprites.len() == 0 {
        seq![]
    } else {
        packed_records(sprites.drop_last(), vertical_level) + packed_record(sprites.last(), vertical_level)
    }
}

/// Every sprite's screen fits the packed format.
pub open spec fn all_screens_fit(sprites: Seq<EditableSprite>, vertical_level: bool) -> bool {
    forall|i: int| 0 <= i < sprites.len() ==> #[trigger] sprite_screen(sprites[i], vertical_level) <= 255
}

/// Bytes per sprite in an undo snapshot.
pub const UNDO_SPRITE_STRIDE: usize = 10;

/// Undo snapshot record of one sprite: id, extra bits, X and Y as
/// little-endian 32-bit values.
pub open spec fn undo_record(spr: EditableSprite) -> Seq<u8> {
    seq![spr.sprite_id, spr.extra_bits] + le32(spr.x) + le32(spr.y)
}

/// Undo snapshot of a sprite list.
pub open spec fn undo_encode(sprites: Seq<EditableSprite>) -> Seq<u8>
    decreases sprites.len(),
{
    if sprites.len() == 0 {
        seq![]
    } else {
        undo_encode(sprites.drop_last()) + undo_record(sprites.last())
    }
}

/// The sprite read back from a 10-byte undo record.
pub open spec fn undo_decode_record(c: Seq<u8>) -> EditableSprite {
    EditableSprite {
        sprite_id: c[0],
        extra_bits: c[1],
        x: from_le32(c, 2),
        y: from_le32(c, 6),
    }
}

/// Sprites read back from an undo snapshot: one per whole 10-byte chunk,
/// trailing bytes ignored.
pub open spec fn undo_decode(bytes: Seq<u8>) -> Seq<EditableSprite> {
    Seq::new(
        (bytes.len() / 10) as nat,
        |i: int| undo_decode_record(bytes.subrange(10 * i, 10 * i + 10)),
    )
}

proof fn lemma_undo_encode_len(s: Seq<EditableSprite>)
    ensures
        undo_encode(s).len() == 10 * s.len(),
    decreases s.len(),
{
    if s.len() > 0 {
        lemma_undo_encode_len(s.drop_last());
    }
}

proof fn lemma_undo_encode_chunk(s: Seq<EditableSprite>, i: int)
    requires
        0 <= i < s.len(),
    ensures
        undo_encode(s).subrange(10 * i, 10 * i + 10) == undo_record(s[i]),
    decreases s.len(),
{
    lemma_undo_encode_len(s);
    lemma_undo_encode_len(s.drop_last());
    let prefix = undo_encode(s.drop_last());
    if i < s.len() - 1 {
        lemma_undo_encode_chunk(s.drop_last(), i);
        assert(undo_encode(s).subrange(10 * i, 10 * i + 10) =~= prefix.subrange(10 * i, 10 * i + 10));
    } else {
        assert(undo_encode(s).subrange(10 * i, 10 * i + 10) =~= undo_record(s.last()));
    }
}

/// Restoring an undo snapshot gives back exactly the sprites it was taken
/// from, on vertical and horizontal levels alike; a snapshot takes 10
/// bytes per sprite, and any byte string restores to one sprite per whole
/// 10 bytes (a trailing partial record is dropped).
pub proof fn lemma_undo_roundtrip(sprites: Seq<EditableSprite>)
    ensures
        undo_decode(undo_encode(sprites)) == sprites,
        undo_encode(sprites).len() == UNDO_SPRITE_STRIDE * sprites.len(),
        forall|b: Seq<u8>| #[trigger] undo_decode(b).len() == b.len() / (UNDO_SPRITE_STRIDE as nat),
{
    lemma_undo_encode_len(sprites);
    let d = undo_decode(undo_encode(sprites));
    assert forall|i: int| 0 <= i < sprites.len() implies #[trigger] d[i] == sprites[i] by {
        lemma_undo_encode_chunk(sprites, i);
        let r = undo_record(sprites[i]);
        lemma_le32_roundtrip(sprites[i].x);
        lemma_le32_roundtrip(sprites[i].y);
        assert(from_le32(r, 2) == from_le32(le32(sprites[i].x), 0));
        assert(from_le32(r, 6) == from_le32(le32(sprites[i].y), 0));
    }
    assert(d =~= sprites);
}

/// A sprite loaded from a ROM record is saved back at the same screen and
/// in-screen position, whenever that position is one a record can hold.
pub proof fn lemma_rom_position_roundtrip(screen: u8, x_tile: u8, y_tile: u8, vertical_level: bool)
    requires
        x_tile < 16,
        y_tile < 32,
    ensures
        ({
            let (x, y) = absolute_position(screen as int, x_tile as int, y_tile as int, vertical_level);
            let spr = EditableSprite { x: x as u32, y: y as u32, sprite_id: 0, extra_bits: 0 };
            &&& sprite_screen(spr, vertical_level) == screen
            &&& sprite_local(spr) == (x_tile as int, y_tile as int)
        }),
{
}

/// The sprite a 3-byte packed record reads as: the screen's high bit is
/// bit 1 of the first byte and its low nibble the second byte's low
/// nibble, the in-screen X the second byte's high nibble, the in-screen Y
/// the first byte's high nibble plus bit 0 as its fifth bit, the extra bits
/// bits 2-3 of the first byte, and the id the third byte.
pub open spec fn record_sprite(r: Seq<u8>, vertical_level: bool) -> EditableSprite {
    let b0 = r[0] as int;
    let b1 = r[1] as int;
    let screen = ((b0 / 2) % 2) * 16 + b1 % 16;
    let (x, y) = absolute_position(screen, b1 / 16, (b0 % 2) * 16 + b0 / 16, vertical_level);
    EditableSprite { x: x as u32, y: y as u32, sprite_id: r[2], extra_bits: ((b0 / 4) % 4) as u8 }
}

/// A sprite position a packed record can hold: its screen below 32 and its
/// Y inside a screen row (horizontal levels) or its X inside the two
/// screen columns (vertical levels).
pub open spec fn record_holds(spr: EditableSprite, vertical_level: bool) -> bool {
    if vertical_level {
        spr.x < 32 && spr.y < 512
    } else {
        spr.x < 512 && spr.y < 32
    }
}

proof fn lemma_packed_records_at(sprites: Seq<EditableSprite>, vertical_level: bool, i: int)
    requires
        0 <= i < sprites.len(),
    ensures
        packed_records(sprites, vertical_level).len() == 3 * sprites.len(),
        packed_records(sprites, vertical_level).subrange(3 * i, 3 * i + 3) == packed_record(sprites[i], vertical_level),
    decreases sprites.len(),
{
    lemma_packed_records_len(sprites, vertical_level);
    let p = packed_records(sprites, vertical_level);
    let q = packed_records(sprites.drop_last(), vertical_level);
    lemma_packed_records_len(sprites.drop_last(), vertical_level);
    if i < sprites.len() - 1 {
        lemma_packed_records_at(sprites.drop_last(), vertical_level, i);
        assert(p.subrange(3 * i, 3 * i + 3) =~= q.subrange(3 * i, 3 * i + 3));
    } else {
        assert(p.subrange(3 * i, 3 * i + 3) =~= packed_record(sprites.last(), vertical_level));
    }
}

proof fn lemma_packed_records_len(sprites: Seq<EditableSprite>, vertical_level: bool)
    ensures
        packed_records(sprites, vertical_level).len() == 3 * sprites.len(),
    decreases sprites.len(),
{
    if sprites.len() > 0 {
        lemma_packed_records_len(sprites.drop_last(), vertical_level);
    }
}

proof fn lemma_record_decodes(spr: EditableSprite, vertical_level: bool)
    requires
        record_holds(spr, vertical_level),
    ensures
        record_sprite(packed_record(spr, vertical_level), vertical_level) == (EditableSprite {
            extra_bits: spr.extra_bits % 4,
            ..spr
        }),
{
    let screen = sprite_screen(spr, vertical_level);
    let (xt, yt) = sprite_local(spr);
    let a = yt % 16;
    let e = (spr.extra_bits % 4) as int;
    let sh = (screen / 16) % 2;
    let h = yt / 16;
    let b0 = 16 * a + 4 * e + 2 * sh + h;
    let b1 = 16 * xt + screen % 16;
    assert(0 <= screen < 32);
    assert(0 <= b0 < 256 && 0 <= b1 < 256);
    assert(b0 / 16 == a && (b0 / 2) % 2 == sh && b0 % 2 == h && (b0 / 4) % 4 == e) by (nonlinear_arith)
        requires
            b0 == 16 * a + 4 * e + 2 * sh + h,
            0 <= a < 16,
            0 <= e < 4,
            0 <= sh < 2,
            0 <= h < 2,
    ;
    assert(b1 / 16 == xt && b1 % 16 == screen % 16) by (nonlinear_arith)
        requires
            b1 == 16 * xt + screen % 16,
            0 <= xt < 16,
            0 <= screen,
    ;
    assert(sh * 16 + screen % 16 == screen);
    assert(h * 16 + a == yt);
}

/// Each record of the packed sprite data that `serialize_bytes` writes
/// decodes back to its sprite: the same position, id and extra bits (of
/// which the record keeps the low two), whenever the position is one a
/// record can hold.
pub proof fn lemma_sprite_record_decodes(sprites: Seq<EditableSprite>, vertical_level: bool, i: int)
    requires
        0 <= i < sprites.len(),
        record_holds(sprites[i], vertical_level),
    ensures
        record_sprite(packed_records(sprites, vertical_level).subrange(3 * i, 3 * i + 3), vertical_level)
            == (EditableSprite { extra_bits: sprites[i].extra_bits % 4, ..sprites[i] }),
{
    lemma_packed_records_at(sprites, vertical_level, i);
    lemma_record_decodes(sprites[i], vertical_level);
}

impl EditableSprite {
    /// A sprite read from a ROM record: `screen`, the position within it,
    /// the sprite id and extra bits.
    pub fn from_rom_fields(
        screen: u8,
        x_tile: u8,
        y_tile: u8,
        sprite_id: u8,
        extra_bits: u8,
        vertical_level: bool,
    ) -> (spr: EditableSprite)
        ensures
            (spr.x as int, spr.y as int) == absolute_position(
                screen as int,
                x_tile as int,
                y_tile as int,
                vertical_level,
            ),
            spr.sprite_id == sprite_id,
            spr.extra_bits == extra_bits,
    {
        let screen = screen as u32;
        let (x, y) = if vertical_level {
            let sx = screen % 2;
            let sy = screen / 2;
            (sx * 16 + x_tile as u32, sy * 32 + y_tile as u32)
        } else {
            (screen * 16 + x_tile as u32, y_tile as u32)
        };
        EditableSprite { x, y, sprite_id, extra_bits }
    }
}

/// The screen and in-screen position of a sprite, or an error when the
/// screen does not fit a byte.
pub fn sprite_screen_and_local(spr: EditableSprite, vertical_level: bool) -> (res: Result<
    (u8, u8, u8),
    SpritePositionError,
>)
    ensures
        res is Ok <==> sprite_screen(spr, vertical_level) <= 255,
        res matches Ok((screen, x, y)) ==> screen == sprite_screen(spr, vertical_level) && (x as int, y as int)
            == sprite_local(spr),
        res matches Err(e) ==> e == SpritePositionError::ScreenOutOfRange,
{
    let screen: u32 = if vertical_level {
        let sub_x = spr.x / 16;
        let sub_y = spr.y / 32;
        sub_y * 2 + sub_x
    } else {
        spr.x / 16
    };
    if screen > 255 {
        return Err(SpritePositionError::ScreenOutOfRange);
    }
    Ok((screen as u8, (spr.x % 16) as u8, (spr.y % 32) as u8))
}

impl EditableSpriteLayer {
    /// The packed ROM sprite data: 3 bytes per sprite and a `0xFF`
    /// terminator. Fails when a sprite's screen does not fit a byte.
    pub fn serialize_bytes(&self, vertical_level: bool) -> (res: Result<Vec<u8>, SpritePositionError>)
        ensures
            res is Ok <==> all_screens_fit(self.sprites@, vertical_level),
            res matches Ok(bytes) ==> bytes@ == packed_records(self.sprites@, vertical_level).push(0xFF),
            res matches Err(e) ==> e == SpritePositionError::ScreenOutOfRange,
    {
        let mut out: Vec<u8> = Vec::new();
        let mut i: usize = 0;
        while i < self.sprites.len()
            invariant
                i <= self.sprites@.len(),
                all_screens_fit(self.sprites@.subrange(0, i as int), vertical_level),
                out@ == packed_records(self.sprites@.subrange(0, i as int), vertical_level),
            decreases self.sprites@.len() - i,
        {
            let spr = self.sprites[i];
            let (screen, x_tile, y_tile) = match sprite_screen_and_local(spr, vertical_level) {
                Ok(t) => t,
                Err(e) => {
                    assert(!all_screens_fit(self.sprites@, vertical_level)) by {
                        assert(self.sprites@[i as int] == spr);
                    }
                    return Err(e);
                },
            };
            let y_low = (y_tile & 0x0F) << 4u8;
            let y_high = (y_tile >> 4u8) & 0x01;
            let screen_high = ((screen >> 4u8) & 0x01) << 1u8;
            let eb = spr.extra_bits;
            let b0 = y_low | screen_high | ((eb & 0x03) << 2u8) | y_high;
            let b1 = ((x_tile & 0x0F) << 4u8) | (screen & 0x0F);
            assert(((y_tile & 0x0F) << 4u8) | (((screen >> 4u8) & 0x01) << 1u8) | ((eb & 0x03) << 2u8) | ((
            y_tile >> 4u8) & 0x01) == 16 * (y_tile % 16) + 4 * (eb % 4) + 2 * ((screen / 16) % 2) + (y_tile
                / 16) % 2) by (bit_vector);
            assert(((x_tile & 0x0F) << 4u8) | (screen & 0x0F) == 16 * (x_tile % 16) + screen % 16)
                by (bit_vector);
            let ghost before = out@;
            out.push(b0);
            out.push(b1);
            out.push(spr.sprite_id);
            proof {
                let s = self.sprites@.subrange(0, i as int + 1);
                assert(s.drop_last() =~= self.sprites@.subrange(0, i as int));
                assert(s.last() == spr);
                assert(out@ =~= before + packed_record(spr, vertical_level));
                assert forall|j: int| 0 <= j < s.len() implies #[trigger] sprite_screen(s[j], vertical_level)
                    <= 255 by {
                    if j < i {
                        assert(s[j] == self.sprites@.subrange(0, i as int)[j]);
                    }
                }
            }
            i += 1;
        }
        assert(self.sprites@.subrange(0, i as int) =~= self.sprites@);
        out.push(0xFF);
        Ok(out)
    }

    /// Number of bytes of the undo snapshot.
    pub fn size_bytes(&self) -> (n: usize)
        requires
            self.sprites@.len() * UNDO_SPRITE_STRIDE <= usize::MAX,
        ensures
            n == self.sprites@.len() * UNDO_SPRITE_STRIDE,
    {
        self.sprites.len() * UNDO_SPRITE_STRIDE
    }
}

impl EditableSpriteLayer {
    /// Undo snapshot of the layer.
    pub fn to_bytes(&self) -> (bytes: Vec<u8>)
        ensures
            bytes@ == undo_encode(self.sprites@),
            bytes@.len() == UNDO_SPRITE_STRIDE * self.sprites@.len(),
    {
        let mut out: Vec<u8> = Vec::new();
        let mut i: usize = 0;
        while i < self.sprites.len()
            invariant
                i <= self.sprites@.len(),
                out@ == undo_encode(self.sprites@.subrange(0, i as int)),
            decreases self.sprites@.len() - i,
        {
            let spr = self.sprites[i];
            let ghost before = out@;
            out.push(spr.sprite_id);
            out.push(spr.extra_bits);
            push_le32(&mut out, spr.x);
            push_le32(&mut out, spr.y);
            proof {
                let s = self.sprites@.subrange(0, i as int + 1);
                assert(s.drop_last() =~= self.sprites@.subrange(0, i as int));
                assert(out@ =~= before + undo_record(spr));
            }
            i += 1;
        }
        assert(self.sprites@.subrange(0, i as int) =~= self.sprites@);
        proof {
            lemma_undo_encode_len(self.sprites@);
        }
        out
    }

    /// The layer an undo snapshot describes.
    pub fn from_bytes(bytes: Vec<u8>) -> (layer: Self)
        ensures
            layer.sprites@ == undo_decode(bytes@),
            layer.sprites@.len() == bytes@.len() / (UNDO_SPRITE_STRIDE as nat),
    {
        let mut sprites: Vec<EditableSprite> = Vec::new();
        let len = bytes.len();
        let n = len / UNDO_SPRITE_STRIDE;
        let mut i: usize = 0;
        while i < n
            invariant
                len == bytes@.len(),
                n == bytes@.len() / 10,
                i <= n,
                sprites@ =~= undo_decode(bytes@).subrange(0, i as int),
            decreases n - i,
        {
            assert(i * 10 + 10 <= len) by (nonlinear_arith)
                requires
                    i < n,
                    n == len / 10,
            ;
            let off = i * UNDO_SPRITE_STRIDE;
            let sprite_id = bytes[off];
            let extra_bits = bytes[off + 1];
            let x = read_le32(bytes.as_slice(), off + 2);
            let y = read_le32(bytes.as_slice(), off + 6);
            sprites.push(EditableSprite { x, y, sprite_id, extra_bits });
            i += 1;
        }
        EditableSpriteLayer { sprites }
    }
}


/// One sprite record of a level's ROM sprite data, decoded: the screen,
/// the position within it, the sprite id and the extra bits.
#[derive(Clone, Copy, Debug, PartialEq, Eq, Structural)]
pub struct RomSpriteFields {
    pub screen: u8,
    pub x_tile: u8,
    pub y_tile: u8,
    pub sprite_id: u8,
    pub extra_bits: u8,
}

/// The editable sprite a decoded ROM sprite record becomes.
pub open spec fn sprite_from_fields(f: RomSpriteFields, vertical_level: bool) -> EditableSprite {
    let (x, y) = absolute_position(f.screen as int, f.x_tile as int, f.y_tile as int, vertical_level);
    EditableSprite { x: x as u32, y: y as u32, sprite_id: f.sprite_id, extra_bits: f.extra_bits }
}

impl EditableSpriteLayer {
    /// The editable layer of a level's decoded ROM sprite records, in order.
    pub fn from_rom_sprite_layer(sprites: &Vec<RomSpriteFields>, vertical_level: bool) -> (layer: Self)
        ensures
            layer.sprites@ == sprites@.map_values(|f: RomSpriteFields| sprite_from_fields(f, vertical_level)),
    {
        let mut out: Vec<EditableSprite> = Vec::new();
        let mut i: usize = 0;
        while i < sprites.len()
            invariant
                i <= sprites@.len(),
                out@ == sprites@.take(i as int).map_values(
                    |f: RomSpriteFields| sprite_from_fields(f, vertical_level),
                ),
            decreases sprites@.len() - i,
        {
            let f = sprites[i];
            let spr = EditableSprite::from_rom_fields(
                f.screen,
                f.x_tile,
                f.y_tile,
                f.sprite_id,
                f.extra_bits,
                vertical_level,
            );
            out.push(spr);
            proof {
                assert(sprites@.take(i as int + 1) =~= sprites@.take(i as int).push(f));
                assert(out@ =~= sprites@.take(i as int + 1).map_values(
                    |f: RomSpriteFields| sprite_from_fields(f, vertical_level),
                ));
            }
            i += 1;
        }
        assert(sprites@.take(sprites@.len() as int) =~= sprites@);
        EditableSpriteLayer { sprites: out }
    }
}

} // verus!
