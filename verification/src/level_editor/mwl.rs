//! The level-data conversions of Lunar Magic `.mwl` export and import:
//! layer 2 background tilemaps between the ROM's two-block layout and the
//! file's 16-bit tiles, secondary entrances of the exported level and their
//! retargeting on import, and the layer 2 representation check.

use crate::bits::{lemma_u16_fields, lemma_u8_fields};
use crate::level_editor::secondary_entrance::{
    bg_initial_pos, destination_level, fg_initial_pos, screen, x_pos, y_pos,
};
use crate::text::{hex_padded, push_hex};
use vstd::prelude::*;

verus! {

/// The file's 16-bit tiles of a ROM background tilemap: the first half of
/// `ids` holds the low bytes, the second half the high bytes (a trailing
/// odd byte is dropped).
pub open spec fn bg_tiles_of(ids: Seq<u8>) -> Seq<u16> {
    let half = ids.len() / 2;
    Seq::new(half as nat, |i: int| (ids[i] + 256 * ids[half + i]) as u16)
}

/// The ROM layout of 16-bit tiles: all low bytes, then all high bytes.
pub open spec fn bg_ids_of(tiles: Seq<u16>) -> Seq<u8> {
    let n = tiles.len() as int;
    Seq::new(
        (2 * n) as nat,
        |i: int|
            if i < n {
                (tiles[i] % 256) as u8
            } else {
                (tiles[i - n] / 256) as u8
            },
    )
}

/// Interleave a ROM background tilemap into 16-bit tiles.
pub fn bg_tilemap_from_ids(ids: &Vec<u8>) -> (tiles: Vec<u16>)
    ensures
        tiles@ == bg_tiles_of(ids@),
{
    let n = ids.len();
    let half = n / 2;
    let mut tiles: Vec<u16> = Vec::new();
    let mut i: usize = 0;
    while i < half
        invariant
            n == ids@.len(),
            half == n / 2,
            i <= half,
            tiles@ == bg_tiles_of(ids@).take(i as int),
        decreases half - i,
    {
        let hi: u16 = if half + i < n { ids[half + i] as u16 } else { 0 };
        tiles.push((ids[i] as u16) + 256 * hi);
        proof {
            assert(bg_tiles_of(ids@).take(i as int + 1) =~= bg_tiles_of(ids@).take(i as int).push(
                bg_tiles_of(ids@)[i as int],
            ));
        }
        i += 1;
    }
    assert(bg_tiles_of(ids@).take(i as int) =~= bg_tiles_of(ids@));
    tiles
}

/// Split 16-bit tiles back into the ROM's low-bytes-then-high-bytes
/// layout.
pub fn bg_ids_from_tilemap(tiles: &Vec<u16>) -> (ids: Vec<u8>)
    requires
        2 * tiles@.len() <= usize::MAX,
    ensures
        ids@ == bg_ids_of(tiles@),
{
    let n = tiles.len();
    let mut ids: Vec<u8> = Vec::new();
    let mut i: usize = 0;
    while i < 2 * n
        invariant
            n == tiles@.len(),
            2 * n <= usize::MAX,
            i <= 2 * n,
            ids@ == bg_ids_of(tiles@).take(i as int),
        decreases 2 * n - i,
    {
        let b: u8 = if i < n { (tiles[i] & 0xFF) as u8 } else { (tiles[i - n] >> 8u16) as u8 };
        proof {
            lemma_u16_fields();
            if i < n {
                let t = tiles@[i as int];
                assert(t & 0xFF == t % 256);
            } else {
                let t = tiles@[i - n];
                assert(t >> 8u16 == t / 256);
            }
        }
        ids.push(b);
        proof {
            assert(bg_ids_of(tiles@).take(i as int + 1) =~= bg_ids_of(tiles@).take(i as int).push(
                bg_ids_of(tiles@)[i as int],
            ));
        }
        i += 1;
    }
    assert(bg_ids_of(tiles@).take(i as int) =~= bg_ids_of(tiles@));
    ids
}

/// Splitting tiles into the ROM layout and interleaving them again gives
/// the same tiles; interleaving an even-length ROM tilemap and splitting it
/// again gives the same bytes.
pub proof fn lemma_bg_tilemap_round_trip(tiles: Seq<u16>, ids: Seq<u8>)
    ensures
        bg_tiles_of(bg_ids_of(tiles)) =~= tiles,
        ids.len() % 2 == 0 ==> bg_ids_of(bg_tiles_of(ids)) =~= ids,
{
    assert forall|i: int| 0 <= i < tiles.len() implies bg_tiles_of(bg_ids_of(tiles))[i]
        == tiles[i] by {
        let n = tiles.len() as int;
        assert(bg_ids_of(tiles)[i] == (tiles[i] % 256) as u8);
        assert(bg_ids_of(tiles)[n + i] == (tiles[i] / 256) as u8);
    }
    if ids.len() % 2 == 0 {
        let half = ids.len() / 2;
        assert forall|i: int| 0 <= i < ids.len() implies bg_ids_of(bg_tiles_of(ids))[i]
            == ids[i] by {
            if i < half {
                assert(bg_tiles_of(ids)[i] == (ids[i] + 256 * ids[half + i]) as u16);
            } else {
                assert(bg_tiles_of(ids)[i - half] == (ids[i - half] + 256 * ids[i]) as u16);
            }
        }
    }
}

/// Bytes 1-3 of a secondary-entrance record, as the `.mwl` stores them.
pub open spec fn entrance_payload(b: [u8; 4]) -> [u8; 3] {
    [b@[1], b@[2], b@[3]]
}

/// The entrances among the first `k` records whose destination is `level`,
/// with their index.
pub open spec fn entrances_for(data: Seq<[u8; 4]>, level: u16, k: int) -> Seq<(u16, [u8; 3])>
    decreases k,
{
    if k <= 0 {
        seq![]
    } else {
        entrances_for(data, level, k - 1) + if destination_level(data[k - 1]@) == level {
            seq![((k - 1) as u16, entrance_payload(data[k - 1]))]
        } else {
            seq![]
        }
    }
}

/// The secondary entrances that lead to `level`, with their index, for
/// the `.mwl` export.
pub fn entrances_to_level(data: &Vec<[u8; 4]>, level: u16) -> (ents: Vec<(u16, [u8; 3])>)
    requires
        data@.len() <= 0x10000,
    ensures
        ents@ == entrances_for(data@, level, data@.len() as int),
{
    let mut out: Vec<(u16, [u8; 3])> = Vec::new();
    let mut i: usize = 0;
    while i < data.len()
        invariant
            data@.len() <= 0x10000,
            i <= data@.len(),
            out@ == entrances_for(data@, level, i as int),
        decreases data@.len() - i,
    {
        let b = data[i];
        let b3 = b[3];
        let dest: u16 = (b[0] as u16) + 256 * (((b3 >> 3u8) & 1) as u16);
        proof {
            lemma_u8_fields();
        }
        assert(((b3 >> 3u8) & 1) as int == (b3 / 8) % 2);
        if dest == level {
            let payload = [b[1], b[2], b[3]];
            assert(payload@ =~= entrance_payload(b)@);
            out.push((i as u16, payload));
        }
        proof {
            assert(out@ =~= entrances_for(data@, level, i as int + 1));
        }
        i += 1;
    }
    out
}

/// A record leading to `level` with the other fields from a `.mwl`
/// payload: the destination's ninth bit replaces bit 3 of the last byte.
pub open spec fn retargeted(level: u16, p: [u8; 3]) -> Seq<u8> {
    seq![(level % 256) as u8, p@[0], p@[1], ((p@[2] & 0xF7) | ((((level / 256) % 2) as u8) << 3u8)) as u8]
}

/// The records after importing the first `k` entrances into `level`:
/// each entrance replaces the record at its index, when there is one.
pub open spec fn imported(data: Seq<[u8; 4]>, ents: Seq<(u16, [u8; 3])>, level: u16, k: int) -> Seq<
    Seq<u8>,
>
    decreases k,
{
    if k <= 0 {
        data.map_values(|b: [u8; 4]| b@)
    } else {
        let prev = imported(data, ents, level, k - 1);
        let (id, p) = ents[k - 1];
        if (id as int) < prev.len() {
            prev.update(id as int, retargeted(level, p))
        } else {
            prev
        }
    }
}

/// Import a `.mwl`'s secondary entrances, retargeting each at `level`.
pub fn import_entrances(data: &mut Vec<[u8; 4]>, entrances: &Vec<(u16, [u8; 3])>, level: u16)
    ensures
        final(data)@.map_values(|b: [u8; 4]| b@) == imported(
            old(data)@,
            entrances@,
            level,
            entrances@.len() as int,
        ),
{
    let ghost d0 = data@;
    let mut k: usize = 0;
    while k < entrances.len()
        invariant
            k <= entrances@.len(),
            data@.len() == d0.len(),
            data@.map_values(|b: [u8; 4]| b@) == imported(d0, entrances@, level, k as int),
        decreases entrances@.len() - k,
    {
        let (id, bytes) = entrances[k];
        let ghost before = data@;
        if (id as usize) < data.len() {
            let hi: u8 = (((level >> 8u16) as u8) & 1) << 3u8;
            let rec = [(level & 0xFF) as u8, bytes[0], bytes[1], (bytes[2] & 0xF7) | hi];
            proof {
                lemma_u16_fields();
                assert(level & 0xFF == level % 256);
                assert((((level >> 8u16) as u8) & 1) << 3u8 == (((level / 256) % 2) as u8) << 3u8)
                    by (bit_vector);
                assert(rec@ =~= retargeted(level, bytes));
            }
            data.set(id as usize, rec);
        }
        proof {
            assert(data@.map_values(|b: [u8; 4]| b@) =~= imported(d0, entrances@, level, k as int + 1));
        }
        k += 1;
    }
}

/// A retargeted record leads to `level` (its low nine bits) and keeps the
/// screen, position and initial-position fields of the exported record;
/// retargeting an entrance exported from `level` back at `level` gives the
/// record unchanged.
pub proof fn lemma_retarget_keeps_fields(level: u16, b: [u8; 4])
    ensures
        destination_level(retargeted(level, entrance_payload(b))) == level % 512,
        screen(retargeted(level, entrance_payload(b))) == screen(b@),
        x_pos(retargeted(level, entrance_payload(b))) == x_pos(b@),
        y_pos(retargeted(level, entrance_payload(b))) == y_pos(b@),
        fg_initial_pos(retargeted(level, entrance_payload(b))) == fg_initial_pos(b@),
        bg_initial_pos(retargeted(level, entrance_payload(b))) == bg_initial_pos(b@),
        destination_level(b@) == level ==> retargeted(level, entrance_payload(b)) =~= b@,
{
    let b3 = b@[3];
    let hb: u8 = ((level / 256) % 2) as u8;
    let r3 = ((b3 & 0xF7) | (hb << 3u8)) as u8;
    assert(hb <= 1);
    assert(r3 / 8 % 2 == hb as int) by (bit_vector)
        requires
            hb <= 1,
            r3 == ((b3 & 0xF7) | (hb << 3u8)) as u8,
    ;
    assert((level % 256) + 256 * (hb as int) == level % 512) by (nonlinear_arith)
        requires
            hb as int == (level / 256) % 2,
    ;
    if destination_level(b@) == level {
        assert((b3 / 8) % 2 == hb as int);
        assert(r3 == b3) by (bit_vector)
            requires
                hb <= 1,
                r3 == ((b3 & 0xF7) | (hb << 3u8)) as u8,
                (b3 / 8) % 2 == hb as int,
        ;
    }
}

/// How a level's layer 2 is stored.
#[derive(Clone, Copy, Debug, PartialEq, Eq, Structural)]
pub enum Layer2Kind {
    Objects,
    Background,
}

/// Why a `.mwl`'s layer 2 cannot replace the ROM level's layer 2, which
/// must keep its representation.
pub open spec fn layer2_mismatch(rom: Layer2Kind, file: Layer2Kind, level: u16) -> Option<Seq<char>> {
    match (rom, file) {
        (Layer2Kind::Objects, Layer2Kind::Background) => Some(
            "this .mwl uses a layer 2 background tilemap, but level "@ + hex_padded(level as nat, 3)
                + " in the ROM uses layer 2 objects; import it over a background-tilemap level instead"@,
        ),
        (Layer2Kind::Background, Layer2Kind::Objects) => Some(
            "this .mwl uses layer 2 objects, but level "@ + hex_padded(level as nat, 3)
                + " in the ROM uses a background tilemap; import it over a layer-2-objects level instead"@,
        ),
        _ => None,
    }
}

/// Refuse a `.mwl` whose layer 2 is stored differently from the ROM
/// level's.
pub fn check_layer2_kind(rom: Layer2Kind, file: Layer2Kind, level: u16) -> (res: Result<(), String>)
    ensures
        res is Ok <==> layer2_mismatch(rom, file, level) is None,
        res matches Err(msg) ==> layer2_mismatch(rom, file, level) == Some(msg@),
{
    match (rom, file) {
        (Layer2Kind::Objects, Layer2Kind::Background) => {
            let mut msg = String::new();
            msg.append("this .mwl uses a layer 2 background tilemap, but level ");
            push_hex(&mut msg, level as u64, 3);
            msg.append(" in the ROM uses layer 2 objects; import it over a background-tilemap level instead");
            Err(msg)
        },
        (Layer2Kind::Background, Layer2Kind::Objects) => {
            let mut msg = String::new();
            msg.append("this .mwl uses layer 2 objects, but level ");
            push_hex(&mut msg, level as u64, 3);
            msg.append(" in the ROM uses a background tilemap; import it over a layer-2-objects level instead");
            Err(msg)
        },
        _ => Ok(()),
    }
}

/// What the checks of a `.mwl` import read from the file: the lengths of
/// its sections and the object and sprite parsers' answers (an error
/// message when the parser refused the data).
pub struct MwlImport {
    /// Bytes of the layer 1 section: the 5-byte primary header and the
    /// object data.
    pub layer1_len: usize,
    pub layer1_parse: Result<(), String>,
    /// How the file stores layer 2.
    pub layer2: Layer2Kind,
    /// Bytes of the layer 2 object section (header and objects); read only
    /// when layer 2 is objects.
    pub layer2_len: usize,
    pub layer2_parse: Result<(), String>,
    /// Bytes of the sprite section: the sprite header and the sprite data.
    pub sprites_len: usize,
    pub sprites_parse: Result<(), String>,
}

/// Which check refuses a `.mwl` import.
#[derive(Clone, Copy, Debug, PartialEq, Eq, Structural)]
pub enum MwlFault {
    Layer1TooShort,
    BadLayer1,
    Layer2TooShort,
    BadLayer2,
    LevelOutOfRange,
    Layer2Mismatch,
    SpritesMissing,
    BadSprites,
}

/// Why a `.mwl` import was refused, with the parser's or the layer 2
/// check's message where there is one.
#[derive(Debug)]
pub enum MwlError {
    Layer1TooShort,
    BadLayer1(String),
    Layer2TooShort,
    BadLayer2(String),
    LevelOutOfRange,
    Layer2Mismatch(String),
    SpritesMissing,
    BadSprites(String),
}

/// The check an error comes from.
pub open spec fn fault_of(e: MwlError) -> MwlFault {
    match e {
        MwlError::Layer1TooShort => MwlFault::Layer1TooShort,
        MwlError::BadLayer1(_) => MwlFault::BadLayer1,
        MwlError::Layer2TooShort => MwlFault::Layer2TooShort,
        MwlError::BadLayer2(_) => MwlFault::BadLayer2,
        MwlError::LevelOutOfRange => MwlFault::LevelOutOfRange,
        MwlError::Layer2Mismatch(_) => MwlFault::Layer2Mismatch,
        MwlError::SpritesMissing => MwlFault::SpritesMissing,
        MwlError::BadSprites(_) => MwlFault::BadSprites,
    }
}

/// The first check, in the import's order, that refuses `m` for `level`,
/// whose ROM layer 2 is stored as `rom_layer2` (`None` when the ROM has no
/// such level): layer 1 must hold a header and at least one byte and parse;
/// layer 2 objects likewise; the level must exist and keep its layer 2
/// representation; the sprite section must hold its header and parse.
pub open spec fn mwl_fault(m: MwlImport, rom_layer2: Option<Layer2Kind>, level: u16) -> Option<MwlFault> {
    if m.layer1_len < 6 {
        Some(MwlFault::Layer1TooShort)
    } else if m.layer1_parse is Err {
        Some(MwlFault::BadLayer1)
    } else if m.layer2 == Layer2Kind::Objects && m.layer2_len < 6 {
        Some(MwlFault::Layer2TooShort)
    } else if m.layer2 == Layer2Kind::Objects && m.layer2_parse is Err {
        Some(MwlFault::BadLayer2)
    } else if rom_layer2 is None {
        Some(MwlFault::LevelOutOfRange)
    } else if layer2_mismatch(rom_layer2->0, m.layer2, level) is Some {
        Some(MwlFault::Layer2Mismatch)
    } else if m.sprites_len == 0 {
        Some(MwlFault::SpritesMissing)
    } else if m.sprites_parse is Err {
        Some(MwlFault::BadSprites)
    } else {
        None
    }
}

/// Run every check of a `.mwl` import, in order, before anything changes.
pub fn validate_mwl(m: &MwlImport, rom_layer2: Option<Layer2Kind>, level: u16) -> (res: Result<(), MwlError>)
    ensures
        res is Ok <==> mwl_fault(*m, rom_layer2, level) is None,
        res matches Err(e) ==> {
            &&& mwl_fault(*m, rom_layer2, level) == Some(fault_of(e))
            &&& e matches MwlError::BadLayer1(msg) ==> m.layer1_parse == Err::<(), String>(msg)
            &&& e matches MwlError::BadLayer2(msg) ==> m.layer2_parse == Err::<(), String>(msg)
            &&& e matches MwlError::BadSprites(msg) ==> m.sprites_parse == Err::<(), String>(msg)
            &&& e matches MwlError::Layer2Mismatch(msg) ==> layer2_mismatch(rom_layer2->0, m.layer2, level)
                == Some(msg@)
        },
{
    if m.layer1_len < 6 {
        return Err(MwlError::Layer1TooShort);
    }
    if let Err(msg) = &m.layer1_parse {
        return Err(MwlError::BadLayer1(msg.clone()));
    }
    if m.layer2 == Layer2Kind::Objects {
        if m.layer2_len < 6 {
            return Err(MwlError::Layer2TooShort);
        }
        if let Err(msg) = &m.layer2_parse {
            return Err(MwlError::BadLayer2(msg.clone()));
        }
    }
    let rom = match rom_layer2 {
        Some(k) => k,
        None => return Err(MwlError::LevelOutOfRange),
    };
    if let Err(msg) = check_layer2_kind(rom, m.layer2, level) {
        return Err(MwlError::Layer2Mismatch(msg));
    }
    if m.sprites_len == 0 {
        return Err(MwlError::SpritesMissing);
    }
    if let Err(msg) = &m.sprites_parse {
        return Err(MwlError::BadSprites(msg.clone()));
    }
    Ok(())
}

/// Import a `.mwl` over `level`: all checks run first, and a refused import
/// leaves the secondary entrance records untouched; an accepted one
/// imports the file's entrances, retargeted at `level` (the caller then
/// takes the file's level data).
pub fn apply_mwl(
    data: &mut Vec<[u8; 4]>,
    m: &MwlImport,
    rom_layer2: Option<Layer2Kind>,
    level: u16,
    entrances: &Vec<(u16, [u8; 3])>,
) -> (res: Result<(), MwlError>)
    ensures
        res is Ok <==> mwl_fault(*m, rom_layer2, level) is None,
        res matches Err(e) ==> mwl_fault(*m, rom_layer2, level) == Some(fault_of(e)) && final(data)@ == old(data)@,
        res is Ok ==> final(data)@.map_values(|b: [u8; 4]| b@) == imported(
            old(data)@,
            entrances@,
            level,
            entrances@.len() as int,
        ),
{
    match validate_mwl(m, rom_layer2, level) {
        Err(e) => Err(e),
        Ok(()) => {
            import_entrances(data, entrances, level);
            Ok(())
        },
    }
}

} // verus!
