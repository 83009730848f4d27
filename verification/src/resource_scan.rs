//! Resource usage of levels ("Analyze Resources in Levels"): per-level
//! summaries of music, sprites, Map16 tiles, GFX/ExGFX files and custom
//! palettes, and the inverted view that answers "which levels use resource
//! X?" for each resource class.

use std::collections::BTreeSet;

use vstd::prelude::*;

use crate::text::{hex_padded, push_hex};

verus! {

/// Which resource classes a scan collects. Defaults to everything.
#[derive(Debug, Clone, Copy, PartialEq, Eq, Structural)]
pub struct ScanOptions {
    /// Sprite IDs placed per level.
    pub sprites: bool,
    /// Map16 tiles in each level's Layer 1 block map.
    pub map16: bool,
    /// Per-level GFX slot file numbers (FG1-3/BG1/SP1-4, bypass applied).
    pub gfx: bool,
    /// Per-level music track and per-submap overworld music.
    pub music: bool,
    /// Per-level custom-palette enable flag.
    pub palettes: bool,
}

impl ScanOptions {
    pub fn all() -> (o: Self)
        ensures
            o == (ScanOptions { sprites: true, map16: true, gfx: true, music: true, palettes: true }),
    {
        ScanOptions { sprites: true, map16: true, gfx: true, music: true, palettes: true }
    }
}

impl Default for ScanOptions {
    fn default() -> (o: Self)
        ensures
            o == (ScanOptions { sprites: true, map16: true, gfx: true, music: true, palettes: true }),
    {
        Self::all()
    }
}

/// Resource usage summary for one level.
#[derive(Debug, Clone)]
pub struct LevelResources {
    /// Translevel (`0x000`-`0x1FF`).
    pub level: u16,
    /// `false` when the level failed to parse at all.
    pub scanned: bool,
    /// Level-header music value.
    pub music: u8,
    /// Sprite IDs placed in the level.
    pub sprites: BTreeSet<u8>,
    /// Distinct Map16 tile IDs in the Layer 1 block map (tile `$0000`
    /// excluded).
    pub map16: BTreeSet<u16>,
    /// `false` when the block-map walk failed for this level.
    pub map16_ok: bool,
    /// FG/BG tileset from the header.
    pub fg_tileset: u8,
    /// Sprite tileset from the header.
    pub sp_tileset: u8,
    /// Resolved FG1/FG2/FG3/BG1 file numbers.
    pub fg_files: [u16; 4],
    /// Resolved SP1/SP2/SP3/SP4 file numbers.
    pub sp_files: [u16; 4],
    /// Whether a custom palette is enabled for the level.
    pub custom_palette: bool,
}

impl Default for LevelResources {
    fn default() -> (r: Self)
        ensures
            r.level == 0,
            !r.scanned,
            r.music == 0,
            r.sprites@ == Set::<u8>::empty(),
            r.map16@ == Set::<u16>::empty(),
            !r.map16_ok,
            r.fg_tileset == 0,
            r.sp_tileset == 0,
            r.fg_files@ == seq![0u16, 0, 0, 0],
            r.sp_files@ == seq![0u16, 0, 0, 0],
            !r.custom_palette,
    {
        let r = LevelResources {
            level: 0,
            scanned: false,
            music: 0,
            sprites: BTreeSet::new(),
            map16: BTreeSet::new(),
            map16_ok: false,
            fg_tileset: 0,
            sp_tileset: 0,
            fg_files: [0u16; 4],
            sp_files: [0u16; 4],
            custom_palette: false,
        };
        assert(r.fg_files@ =~= seq![0u16, 0, 0, 0]);
        assert(r.sp_files@ =~= seq![0u16, 0, 0, 0]);
        r
    }
}

/// The 8 slot file numbers of a level, FG1-3/BG1 then SP1-4.
pub open spec fn slot_files(r: LevelResources) -> Seq<u16> {
    r.fg_files@ + r.sp_files@
}

impl LevelResources {
    /// All 8 resolved GFX slot file numbers, FG1-3/BG1 then SP1-4.
    pub fn all_slot_files(&self) -> (files: [u16; 8])
        ensures
            files@ == slot_files(*self),
    {
        let files = [
            self.fg_files[0],
            self.fg_files[1],
            self.fg_files[2],
            self.fg_files[3],
            self.sp_files[0],
            self.sp_files[1],
            self.sp_files[2],
            self.sp_files[3],
        ];
        assert(files@ =~= slot_files(*self));
        files
    }
}

/// Number of overworld submaps with their own music.
pub const SUBMAP_MUSIC_LEN: usize = 7;

/// Full result of scanning the ROM's levels.
#[derive(Debug)]
pub struct ResourceReport {
    /// Per-level summaries, indexed by level number.
    pub per_level: Vec<LevelResources>,
    /// Levels successfully parsed.
    pub levels_scanned: u32,
    /// Levels skipped because their data failed to parse.
    pub levels_skipped: u32,
    /// SPC track per overworld submap (`None` when the tables couldn't be
    /// read).
    pub submap_music: Option<[u8; 7]>,
    /// Installed ExGFX file indices found in the ROM.
    pub exgfx_installed: Vec<u16>,
    /// The options this report was built with (classes that were off read
    /// as empty, never as "unused").
    pub options: ScanOptions,
}

/// A resource a level can use.
#[derive(Debug, Clone, Copy, PartialEq, Eq, Structural)]
pub enum ResourceQuery {
    Music(u8),
    Sprite(u8),
    Map16(u16),
    GfxFile(u16),
    CustomPalette,
}

/// A scanned level uses the resource.
pub open spec fn level_uses(r: LevelResources, q: ResourceQuery) -> bool {
    &&& r.scanned
    &&& match q {
        ResourceQuery::Music(t) => r.music == t,
        ResourceQuery::Sprite(s) => r.sprites@.contains(s),
        ResourceQuery::Map16(t) => r.map16@.contains(t),
        ResourceQuery::GfxFile(f) => slot_files(r).contains(f),
        ResourceQuery::CustomPalette => r.custom_palette,
    }
}

/// Level numbers of the summaries using the resource, in summary order.
pub open spec fn levels_matching(s: Seq<LevelResources>, q: ResourceQuery) -> Seq<u16>
    decreases s.len(),
{
    if s.len() == 0 {
        seq![]
    } else {
        levels_matching(s.drop_last(), q) + if level_uses(s.last(), q) {
            seq![s.last().level]
        } else {
            seq![]
        }
    }
}

/// Music tracks of the scanned levels.
pub open spec fn used_music_set(s: Seq<LevelResources>) -> Set<u8> {
    Set::new(|t: u8| exists|i: int| 0 <= i < s.len() && s[i].scanned && #[trigger] s[i].music == t)
}

/// Sprites placed in the scanned levels.
pub open spec fn used_sprite_set(s: Seq<LevelResources>) -> Set<u8> {
    Set::new(|x: u8| exists|i: int| 0 <= i < s.len() && s[i].scanned && #[trigger] s[i].sprites@.contains(x))
}

/// Map16 tiles in the scanned levels' block maps.
pub open spec fn used_map16_set(s: Seq<LevelResources>) -> Set<u16> {
    Set::new(|x: u16| exists|i: int| 0 <= i < s.len() && s[i].scanned && #[trigger] s[i].map16@.contains(x))
}

/// GFX/ExGFX files in the scanned levels' slots.
pub open spec fn used_gfx_set(s: Seq<LevelResources>) -> Set<u16> {
    Set::new(|x: u16| exists|i: int| 0 <= i < s.len() && s[i].scanned && #[trigger] slot_files(s[i]).contains(x))
}

/// Installed ExGFX files that no scanned level's slots reference, in
/// installed order; none when GFX scanning was off (a class that was not
/// scanned reads as empty, never as unused).
pub open spec fn unused_exgfx(gfx: bool, installed: Seq<u16>, s: Seq<LevelResources>) -> Seq<u16> {
    if gfx {
        installed.filter(|f: u16| !used_gfx_set(s).contains(f))
    } else {
        seq![]
    }
}

fn uses(r: &LevelResources, q: ResourceQuery) -> (b: bool)
    ensures
        b == level_uses(*r, q),
{
    if !r.scanned {
        return false;
    }
    match q {
        ResourceQuery::Music(t) => r.music == t,
        ResourceQuery::Sprite(s) => {
            let b = r.sprites.contains(&s);
            assert(b == r.sprites@.contains(s));
            b
        },
        ResourceQuery::Map16(t) => {
            let b = r.map16.contains(&t);
            assert(b == r.map16@.contains(t));
            b
        },
        ResourceQuery::GfxFile(f) => {
            let files = r.all_slot_files();
            let mut k: usize = 0;
            while k < 8
                invariant
                    files@ == slot_files(*r),
                    r.scanned,
                    q == ResourceQuery::GfxFile(f),
                    k <= 8,
                    forall|j: int| 0 <= j < k ==> files@[j] != f,
                decreases 8 - k,
            {
                if files[k] == f {
                    assert(slot_files(*r)[k as int] == f);
                    assert(slot_files(*r).contains(f));
                    return true;
                }
                k += 1;
            }
            assert(!slot_files(*r).contains(f)) by {
                if slot_files(*r).contains(f) {
                    let j = choose|j: int| 0 <= j < 8 && slot_files(*r)[j] == f;
                    assert(files@[j] == f);
                }
            }
            false
        },
        ResourceQuery::CustomPalette => r.custom_palette,
    }
}

fn insert_all_u8(dst: &mut BTreeSet<u8>, src: &BTreeSet<u8>)
    ensures
        final(dst)@ == old(dst)@.union(src@),
{
    let ghost d0 = dst@;
    for x in it: src.iter()
        invariant
            it.seq().unref().to_set() == src@,
            dst@ == d0.union(it.seq().unref().take(it.index() as int).to_set()),
            it.index() == it.seq().len() ==> dst@ == d0.union(src@),
    {
        let ghost before = dst@;
        dst.insert(*x);
        proof {
            broadcast use vstd::seq_lib::group_seq_properties;

            assert(it.seq().unref().take(it.index() as int + 1) =~= it.seq().unref().take(it.index() as int).push(
                *x,
            ));
            assert(d0.union(it.seq().unref().take(it.index() as int + 1).to_set()) =~= before.insert(*x));
            assert(it.index() + 1 == it.seq().len() ==> it.seq().unref().take(it.index() as int + 1)
                =~= it.seq().unref());
        }
    }
}

fn insert_all_u16(dst: &mut BTreeSet<u16>, src: &BTreeSet<u16>)
    ensures
        final(dst)@ == old(dst)@.union(src@),
{
    let ghost d0 = dst@;
    for x in it: src.iter()
        invariant
            it.seq().unref().to_set() == src@,
            dst@ == d0.union(it.seq().unref().take(it.index() as int).to_set()),
            it.index() == it.seq().len() ==> dst@ == d0.union(src@),
    {
        let ghost before = dst@;
        dst.insert(*x);
        proof {
            broadcast use vstd::seq_lib::group_seq_properties;

            assert(it.seq().unref().take(it.index() as int + 1) =~= it.seq().unref().take(it.index() as int).push(
                *x,
            ));
            assert(d0.union(it.seq().unref().take(it.index() as int + 1).to_set()) =~= before.insert(*x));
            assert(it.index() + 1 == it.seq().len() ==> it.seq().unref().take(it.index() as int + 1)
                =~= it.seq().unref());
        }
    }
}

impl ResourceReport {
    /// Levels using the given music track value.
    pub fn levels_using_music(&self, track: u8) -> (levels: Vec<u16>)
        ensures
            levels@ == levels_matching(self.per_level@, ResourceQuery::Music(track)),
    {
        self.matching(ResourceQuery::Music(track))
    }

    /// Levels with the given sprite placed.
    pub fn levels_using_sprite(&self, sprite_id: u8) -> (levels: Vec<u16>)
        ensures
            levels@ == levels_matching(self.per_level@, ResourceQuery::Sprite(sprite_id)),
    {
        self.matching(ResourceQuery::Sprite(sprite_id))
    }

    /// Levels whose Layer 1 block map contains the given Map16 tile.
    pub fn levels_using_map16(&self, tile: u16) -> (levels: Vec<u16>)
        ensures
            levels@ == levels_matching(self.per_level@, ResourceQuery::Map16(tile)),
    {
        self.matching(ResourceQuery::Map16(tile))
    }

    /// Levels with the given GFX/ExGFX file in any of the 8 slots.
    pub fn levels_using_gfx_file(&self, file: u16) -> (levels: Vec<u16>)
        ensures
            levels@ == levels_matching(self.per_level@, ResourceQuery::GfxFile(file)),
    {
        self.matching(ResourceQuery::GfxFile(file))
    }

    /// Levels with a custom palette enabled.
    pub fn levels_with_custom_palette(&self) -> (levels: Vec<u16>)
        ensures
            levels@ == levels_matching(self.per_level@, ResourceQuery::CustomPalette),
    {
        self.matching(ResourceQuery::CustomPalette)
    }

    /// Music track values used by at least one scanned level.
    pub fn used_music_tracks(&self) -> (tracks: BTreeSet<u8>)
        ensures
            tracks@ == used_music_set(self.per_level@),
    {
        let mut out: BTreeSet<u8> = BTreeSet::new();
        let mut i: usize = 0;
        while i < self.per_level.len()
            invariant
                i <= self.per_level@.len(),
                out@ == used_music_set(self.per_level@.subrange(0, i as int)),
            decreases self.per_level@.len() - i,
        {
            let r = &self.per_level[i];
            let ghost before = out@;
            if r.scanned {
                out.insert(r.music);
            }
            proof {
                let s0 = self.per_level@.subrange(0, i as int);
                let s1 = self.per_level@.subrange(0, i as int + 1);
                assert(s1[i as int] == *r);
                assert forall|t: u8| #[trigger] out@.contains(t) == used_music_set(s1).contains(t) by {
                    if used_music_set(s1).contains(t) {
                        let j = choose|j: int| 0 <= j < s1.len() && s1[j].scanned && #[trigger] s1[j].music == t;
                        if j < i {
                            assert(s0[j] == s1[j]);
                        }
                    }
                    if before.contains(t) {
                        let j = choose|j: int| 0 <= j < s0.len() && s0[j].scanned && #[trigger] s0[j].music == t;
                        assert(s1[j] == s0[j]);
                    }
                }
                assert(out@ =~= used_music_set(s1));
            }
            i += 1;
        }
        assert(self.per_level@.subrange(0, i as int) =~= self.per_level@);
        out
    }

    /// Sprite IDs placed in at least one scanned level.
    pub fn used_sprites(&self) -> (sprites: BTreeSet<u8>)
        ensures
            sprites@ == used_sprite_set(self.per_level@),
    {
        let mut out: BTreeSet<u8> = BTreeSet::new();
        let mut i: usize = 0;
        while i < self.per_level.len()
            invariant
                i <= self.per_level@.len(),
                out@ == used_sprite_set(self.per_level@.subrange(0, i as int)),
            decreases self.per_level@.len() - i,
        {
            let r = &self.per_level[i];
            let ghost before = out@;
            if r.scanned {
                insert_all_u8(&mut out, &r.sprites);
            }
            proof {
                let s0 = self.per_level@.subrange(0, i as int);
                let s1 = self.per_level@.subrange(0, i as int + 1);
                assert(s1[i as int] == *r);
                assert forall|t: u8| #[trigger] out@.contains(t) == used_sprite_set(s1).contains(t) by {
                    if used_sprite_set(s1).contains(t) {
                        let j = choose|j: int|
                            0 <= j < s1.len() && s1[j].scanned && #[trigger] s1[j].sprites@.contains(t);
                        if j < i {
                            assert(s0[j] == s1[j]);
                        }
                    }
                    if before.contains(t) {
                        let j = choose|j: int|
                            0 <= j < s0.len() && s0[j].scanned && #[trigger] s0[j].sprites@.contains(t);
                        assert(s1[j] == s0[j]);
                    }
                }
                assert(out@ =~= used_sprite_set(s1));
            }
            i += 1;
        }
        assert(self.per_level@.subrange(0, i as int) =~= self.per_level@);
        out
    }

    /// Map16 tiles present in at least one scanned level's block map.
    pub fn used_map16_tiles(&self) -> (tiles: BTreeSet<u16>)
        ensures
            tiles@ == used_map16_set(self.per_level@),
    {
        let mut out: BTreeSet<u16> = BTreeSet::new();
        let mut i: usize = 0;
        while i < self.per_level.len()
            invariant
                i <= self.per_level@.len(),
                out@ == used_map16_set(self.per_level@.subrange(0, i as int)),
            decreases self.per_level@.len() - i,
        {
            let r = &self.per_level[i];
            let ghost before = out@;
            if r.scanned {
                insert_all_u16(&mut out, &r.map16);
            }
            proof {
                let s0 = self.per_level@.subrange(0, i as int);
                let s1 = self.per_level@.subrange(0, i as int + 1);
                assert(s1[i as int] == *r);
                assert forall|t: u16| #[trigger] out@.contains(t) == used_map16_set(s1).contains(t) by {
                    if used_map16_set(s1).contains(t) {
                        let j = choose|j: int|
                            0 <= j < s1.len() && s1[j].scanned && #[trigger] s1[j].map16@.contains(t);
                        if j < i {
                            assert(s0[j] == s1[j]);
                        }
                    }
                    if before.contains(t) {
                        let j = choose|j: int|
                            0 <= j < s0.len() && s0[j].scanned && #[trigger] s0[j].map16@.contains(t);
                        assert(s1[j] == s0[j]);
                    }
                }
                assert(out@ =~= used_map16_set(s1));
            }
            i += 1;
        }
        assert(self.per_level@.subrange(0, i as int) =~= self.per_level@);
        out
    }

    /// GFX/ExGFX file numbers referenced by at least one scanned level's
    /// slots.
    pub fn used_gfx_files(&self) -> (files: BTreeSet<u16>)
        ensures
            files@ == used_gfx_set(self.per_level@),
    {
        let mut out: BTreeSet<u16> = BTreeSet::new();
        let mut i: usize = 0;
        while i < self.per_level.len()
            invariant
                i <= self.per_level@.len(),
                out@ == used_gfx_set(self.per_level@.subrange(0, i as int)),
            decreases self.per_level@.len() - i,
        {
            let r = &self.per_level[i];
            let ghost before = out@;
            if r.scanned {
                let files = r.all_slot_files();
                let mut k: usize = 0;
                while k < 8
                    invariant
                        files@ == slot_files(*r),
                        k <= 8,
                        out@ == before.union(files@.take(k as int).to_set()),
                    decreases 8 - k,
                {
                    let ghost b2 = out@;
                    out.insert(files[k]);
                    proof {
                        broadcast use vstd::seq_lib::group_seq_properties;

                        assert(files@.take(k as int + 1) =~= files@.take(k as int).push(files@[k as int]));
                        assert(before.union(files@.take(k as int + 1).to_set()) =~= b2.insert(files@[k as int]));
                    }
                    k += 1;
                }
                assert(files@.take(8) =~= files@);
            }
            proof {
                broadcast use vstd::seq_lib::group_seq_properties;

                let s0 = self.per_level@.subrange(0, i as int);
                let s1 = self.per_level@.subrange(0, i as int + 1);
                assert(s1[i as int] == *r);
                assert forall|t: u16| #[trigger] out@.contains(t) == used_gfx_set(s1).contains(t) by {
                    if used_gfx_set(s1).contains(t) {
                        let j = choose|j: int|
                            0 <= j < s1.len() && s1[j].scanned && #[trigger] slot_files(s1[j]).contains(t);
                        if j < i {
                            assert(s0[j] == s1[j]);
                        }
                    }
                    if before.contains(t) {
                        let j = choose|j: int|
                            0 <= j < s0.len() && s0[j].scanned && #[trigger] slot_files(s0[j]).contains(t);
                        assert(s1[j] == s0[j]);
                    }
                }
                assert(out@ =~= used_gfx_set(s1));
            }
            i += 1;
        }
        assert(self.per_level@.subrange(0, i as int) =~= self.per_level@);
        out
    }

    /// Installed ExGFX files no level references; none when the scan left
    /// GFX out.
    pub fn unused_exgfx_files(&self) -> (files: Vec<u16>)
        ensures
            files@ == unused_exgfx(self.options.gfx, self.exgfx_installed@, self.per_level@),
    {
        if !self.options.gfx {
            return Vec::new();
        }
        let used = self.used_gfx_files();
        let mut out: Vec<u16> = Vec::new();
        let mut i: usize = 0;
        while i < self.exgfx_installed.len()
            invariant
                i <= self.exgfx_installed@.len(),
                used@ == used_gfx_set(self.per_level@),
                out@ == self.exgfx_installed@.take(i as int).filter(
                    |f: u16| !used_gfx_set(self.per_level@).contains(f),
                ),
            decreases self.exgfx_installed@.len() - i,
        {
            let f = self.exgfx_installed[i];
            proof {
                reveal_with_fuel(Seq::<_>::filter, 1);
                assert(self.exgfx_installed@.take(i as int + 1).drop_last() =~= self.exgfx_installed@.take(
                    i as int,
                ));
            }
            if !used.contains(&f) {
                out.push(f);
            }
            i += 1;
        }
        assert(self.exgfx_installed@.take(i as int) =~= self.exgfx_installed@);
        out
    }

    fn matching(&self, q: ResourceQuery) -> (levels: Vec<u16>)
        ensures
            levels@ == levels_matching(self.per_level@, q),
    {
        let mut out: Vec<u16> = Vec::new();
        let mut i: usize = 0;
        while i < self.per_level.len()
            invariant
                i <= self.per_level@.len(),
                out@ == levels_matching(self.per_level@.subrange(0, i as int), q),
            decreases self.per_level@.len() - i,
        {
            let r = &self.per_level[i];
            proof {
                let s1 = self.per_level@.subrange(0, i as int + 1);
                assert(s1.drop_last() =~= self.per_level@.subrange(0, i as int));
            }
            if uses(r, q) {
                out.push(r.level);
            }
            proof {
                let s1 = self.per_level@.subrange(0, i as int + 1);
                assert(out@ =~= levels_matching(s1, q));
            }
            i += 1;
        }
        assert(self.per_level@.subrange(0, i as int) =~= self.per_level@);
        out
    }
}

/// A level number is listed for a resource exactly when some summary of
/// that level uses the resource; the list is empty exactly when no summary
/// uses it.
pub proof fn lemma_levels_matching(s: Seq<LevelResources>, q: ResourceQuery)
    ensures
        forall|lv: u16|
            #![trigger levels_matching(s, q).contains(lv)]
            levels_matching(s, q).contains(lv) <==> exists|i: int|
                0 <= i < s.len() && level_uses(s[i], q) && #[trigger] s[i].level == lv,
        levels_matching(s, q).len() > 0 <==> exists|i: int| 0 <= i < s.len() && #[trigger] level_uses(s[i], q),
    decreases s.len(),
{
    if s.len() > 0 {
        let p = s.drop_last();
        lemma_levels_matching(p, q);
        let tail = if level_uses(s.last(), q) { seq![s.last().level] } else { seq![] };
        assert forall|lv: u16| #![trigger levels_matching(s, q).contains(lv)]
            levels_matching(s, q).contains(lv) <==> exists|i: int|
                0 <= i < s.len() && level_uses(s[i], q) && #[trigger] s[i].level == lv by {
            if levels_matching(s, q).contains(lv) {
                let k = choose|k: int| 0 <= k < levels_matching(s, q).len() && levels_matching(s, q)[k] == lv;
                if k < levels_matching(p, q).len() {
                    assert(levels_matching(p, q)[k] == lv);
                    assert(levels_matching(p, q).contains(lv));
                    let i = choose|i: int| 0 <= i < p.len() && level_uses(p[i], q) && #[trigger] p[i].level == lv;
                    assert(s[i] == p[i]);
                } else {
                    assert(s[s.len() - 1].level == lv);
                }
            }
            if exists|i: int| 0 <= i < s.len() && level_uses(s[i], q) && #[trigger] s[i].level == lv {
                let i = choose|i: int| 0 <= i < s.len() && level_uses(s[i], q) && #[trigger] s[i].level == lv;
                if i < s.len() - 1 {
                    assert(p[i] == s[i]);
                    assert(levels_matching(p, q).contains(lv));
                    let k = choose|k: int| 0 <= k < levels_matching(p, q).len() && levels_matching(p, q)[k] == lv;
                    assert(levels_matching(s, q)[k] == lv);
                } else {
                    assert(levels_matching(s, q)[levels_matching(p, q).len() as int] == lv);
                }
            }
        }
        if exists|i: int| 0 <= i < s.len() && #[trigger] level_uses(s[i], q) {
            let i = choose|i: int| 0 <= i < s.len() && #[trigger] level_uses(s[i], q);
            if i < s.len() - 1 {
                assert(p[i] == s[i]);
            }
        }
        if levels_matching(s, q).len() > 0 && !level_uses(s.last(), q) {
            let i = choose|i: int| 0 <= i < p.len() && #[trigger] level_uses(p[i], q);
            assert(s[i] == p[i]);
        }
    }
}

/// The "used" sets are the inverted view of the per-level summaries: a
/// resource is in a used set exactly when the list of levels using it is
/// not empty, and an installed ExGFX file is reported unused exactly when
/// GFX was scanned and no level uses it.
pub proof fn lemma_used_sets_invert(s: Seq<LevelResources>, installed: Seq<u16>, gfx: bool)
    ensures
        forall|t: u8| #[trigger] used_music_set(s).contains(t) <==> levels_matching(s, ResourceQuery::Music(t)).len() > 0,
        forall|x: u8| #[trigger] used_sprite_set(s).contains(x) <==> levels_matching(s, ResourceQuery::Sprite(x)).len() > 0,
        forall|x: u16| #[trigger] used_map16_set(s).contains(x) <==> levels_matching(s, ResourceQuery::Map16(x)).len() > 0,
        forall|x: u16| #[trigger] used_gfx_set(s).contains(x) <==> levels_matching(s, ResourceQuery::GfxFile(x)).len() > 0,
        forall|f: u16|
            #[trigger] unused_exgfx(gfx, installed, s).contains(f) <==> gfx && installed.contains(f)
                && levels_matching(s, ResourceQuery::GfxFile(f)).len() == 0,
{
    assert forall|t: u8| #[trigger] used_music_set(s).contains(t) <==> levels_matching(s, ResourceQuery::Music(t)).len() > 0 by {
        lemma_levels_matching(s, ResourceQuery::Music(t));
        if used_music_set(s).contains(t) {
            let i = choose|i: int| 0 <= i < s.len() && s[i].scanned && #[trigger] s[i].music == t;
            assert(level_uses(s[i], ResourceQuery::Music(t)));
        }
    }
    assert forall|x: u8| #[trigger] used_sprite_set(s).contains(x) <==> levels_matching(s, ResourceQuery::Sprite(x)).len() > 0 by {
        lemma_levels_matching(s, ResourceQuery::Sprite(x));
        if used_sprite_set(s).contains(x) {
            let i = choose|i: int| 0 <= i < s.len() && s[i].scanned && #[trigger] s[i].sprites@.contains(x);
            assert(level_uses(s[i], ResourceQuery::Sprite(x)));
        }
    }
    assert forall|x: u16| #[trigger] used_map16_set(s).contains(x) <==> levels_matching(s, ResourceQuery::Map16(x)).len() > 0 by {
        lemma_levels_matching(s, ResourceQuery::Map16(x));
        if used_map16_set(s).contains(x) {
            let i = choose|i: int| 0 <= i < s.len() && s[i].scanned && #[trigger] s[i].map16@.contains(x);
            assert(level_uses(s[i], ResourceQuery::Map16(x)));
        }
    }
    assert forall|x: u16| #[trigger] used_gfx_set(s).contains(x) <==> levels_matching(s, ResourceQuery::GfxFile(x)).len() > 0 by {
        lemma_levels_matching(s, ResourceQuery::GfxFile(x));
        if used_gfx_set(s).contains(x) {
            let i = choose|i: int| 0 <= i < s.len() && s[i].scanned && #[trigger] slot_files(s[i]).contains(x);
            assert(level_uses(s[i], ResourceQuery::GfxFile(x)));
        }
    }
    assert forall|f: u16|
        #[trigger] unused_exgfx(gfx, installed, s).contains(f) <==> gfx && installed.contains(f)
            && levels_matching(s, ResourceQuery::GfxFile(f)).len() == 0 by {
        broadcast use vstd::seq_lib::group_filter_ensures;
        let pred = |f: u16| !used_gfx_set(s).contains(f);
        assert(used_gfx_set(s).contains(f) <==> levels_matching(s, ResourceQuery::GfxFile(f)).len() > 0);
        if gfx && unused_exgfx(gfx, installed, s).contains(f) {
            installed.lemma_filter_contains_rev(pred, f);
            let k = choose|k: int| 0 <= k < installed.filter(pred).len() && installed.filter(pred)[k] == f;
            assert(pred(installed.filter(pred)[k]));
        }
        if gfx && installed.contains(f) && levels_matching(s, ResourceQuery::GfxFile(f)).len() == 0 {
            let k = choose|k: int| 0 <= k < installed.len() && installed[k] == f;
            installed.lemma_filter_contains(pred, k);
        }
    }
}

/// Short names of the 8 GFX slots, FG1-3/BG1 then SP1-4.
pub open spec fn slot_name_text(slot: int) -> Seq<char> {
    if slot == 0 {
        "FG1"@
    } else if slot == 1 {
        "FG2"@
    } else if slot == 2 {
        "FG3"@
    } else if slot == 3 {
        "BG1"@
    } else if slot == 4 {
        "SP1"@
    } else if slot == 5 {
        "SP2"@
    } else if slot == 6 {
        "SP3"@
    } else {
        "SP4"@
    }
}

/// Short label for a GFX slot index, e.g. `"FG1"`.
pub fn slot_name(slot: usize) -> (name: &'static str)
    requires
        slot < 8,
    ensures
        name@ == slot_name_text(slot as int),
{
    match slot {
        0 => "FG1",
        1 => "FG2",
        2 => "FG3",
        3 => "BG1",
        4 => "SP1",
        5 => "SP2",
        6 => "SP3",
        _ => "SP4",
    }
}

/// Label of a GFX/ExGFX file number: ExGFX files (`0x80` and up) with three
/// hex digits, GFX files with two.
pub open spec fn gfx_file_label_text(file: u16) -> Seq<char> {
    if file >= 0x80 {
        "ExGFX file $"@ + hex_padded(file as nat, 3)
    } else {
        "GFX file $"@ + hex_padded(file as nat, 2)
    }
}

/// Label a GFX/ExGFX file number the way the Level GFX Slots browser does.
pub fn gfx_file_label(file: u16) -> (label: String)
    ensures
        label@ == gfx_file_label_text(file),
{
    let mut out = String::new();
    if file >= 0x80 {
        out.append("ExGFX file $");
        push_hex(&mut out, file as u64, 3);
    } else {
        out.append("GFX file $");
        push_hex(&mut out, file as u64, 2);
    }
    out
}

/// Levels as `$XXX` separated by `", "`.
pub open spec fn level_list_text(levels: Seq<u16>) -> Seq<char>
    decreases levels.len(),
{
    if levels.len() == 0 {
        seq![]
    } else if levels.len() == 1 {
        "$"@ + hex_padded(levels[0] as nat, 3)
    } else {
        level_list_text(levels.drop_last()) + ", $"@ + hex_padded(levels.last() as nat, 3)
    }
}

/// Format a list of levels for the text report, e.g. `"$105, $106"`.
pub fn level_list(levels: &[u16]) -> (text: String)
    ensures
        text@ == level_list_text(levels@),
{
    let mut out = String::new();
    let mut i: usize = 0;
    while i < levels.len()
        invariant
            i <= levels@.len(),
            out@ == level_list_text(levels@.take(i as int)),
        decreases levels@.len() - i,
    {
        proof {
            assert(levels@.take(i as int + 1).drop_last() =~= levels@.take(i as int));
        }
        if i == 0 {
            out.append("$");
        } else {
            out.append(", $");
        }
        push_hex(&mut out, levels[i] as u64, 3);
        proof {
            if i == 0 {
                assert(levels@.take(1) =~= seq![levels@[0]]);
            }
        }
        i += 1;
    }
    assert(levels@.take(i as int) =~= levels@);
    out
}


/// The distinct Map16 tiles among the block ids of a level's layer 1 block
/// map, tile `0` (empty space) excluded.
pub fn map16_tiles_of_level(block_ids: &Vec<u16>) -> (tiles: BTreeSet<u16>)
    ensures
        forall|t: u16| #[trigger] tiles@.contains(t) <==> t != 0 && block_ids@.contains(t),
{
    let mut tiles: BTreeSet<u16> = BTreeSet::new();
    let mut i: usize = 0;
    while i < block_ids.len()
        invariant
            i <= block_ids@.len(),
            forall|t: u16| #[trigger] tiles@.contains(t) <==> t != 0 && block_ids@.take(i as int).contains(t),
        decreases block_ids@.len() - i,
    {
        let id = block_ids[i];
        if id != 0 {
            tiles.insert(id);
        }
        proof {
            assert(block_ids@.take(i as int + 1) =~= block_ids@.take(i as int).push(id));
            assert forall|t: u16| #[trigger] tiles@.contains(t) <==> t != 0 && block_ids@.take(i as int
                + 1).contains(t) by {
                if block_ids@.take(i as int + 1).contains(t) && t != id {
                    let j = choose|j: int| 0 <= j < i + 1 && #[trigger] block_ids@.take(i as int + 1)[j] == t;
                    assert(j < i);
                    assert(block_ids@.take(i as int)[j] == t);
                }
                if block_ids@.take(i as int).contains(t) {
                    let j = choose|j: int| 0 <= j < i && #[trigger] block_ids@.take(i as int)[j] == t;
                    assert(block_ids@.take(i as int + 1)[j] == t);
                }
                if t == id {
                    assert(block_ids@.take(i as int + 1)[i as int] == t);
                }
            }
        }
        i += 1;
    }
    assert(block_ids@.take(block_ids@.len() as int) =~= block_ids@);
    tiles
}


/// Number of rows of the object and sprite tileset tables; header tileset
/// values above the last row are clamped to it.
pub const TILESET_ROWS: u8 = 26;

/// What the ROM holds for one parsed level, as the scan reads it.
#[derive(Debug, Clone)]
pub struct LevelScanInputs {
    /// Level-header music value.
    pub music: u8,
    /// IDs of the sprites placed in the level.
    pub sprite_ids: Vec<u8>,
    /// FG/BG tileset value from the header.
    pub fg_bg_gfx: u8,
    /// Sprite tileset value from the header.
    pub sprite_gfx: u8,
    /// The FG1-3/BG1 files of each object tileset row, when the table
    /// parsed.
    pub object_tileset_files: Option<Vec<[u8; 4]>>,
    /// The SP1-4 files of each sprite tileset row, when the table parsed.
    pub sprite_tileset_files: Option<Vec<[u8; 4]>>,
    /// The level's bypass value for each of the 8 slots, when it has one.
    pub bypass: [Option<u16>; 8],
    /// The bypass value that means "no bypass".
    pub bypass_default: u16,
    /// Whether the level has a custom palette.
    pub custom_palette: bool,
    /// The block ids of the level's layer 1 block map, or `None` when the
    /// walk over it failed.
    pub map16_blocks: Option<Vec<u16>>,
}

/// A header tileset value clamped to the last table row.
pub open spec fn clamp_tileset(v: u8) -> u8 {
    if v < TILESET_ROWS - 1 {
        v
    } else {
        (TILESET_ROWS - 1) as u8
    }
}

/// File of slot `i`: the level's bypass value for the slot unless it is
/// the default, the tileset table's file otherwise.
pub open spec fn resolved_file(bypass: Option<u16>, bypass_default: u16, file: u8) -> u16 {
    match bypass {
        Some(v) => if v != bypass_default {
            v
        } else {
            file as u16
        },
        None => file as u16,
    }
}

/// The resolved files of a slot group (object slots from `first` 0, sprite
/// slots from 4), or all zero when the table did not parse.
pub open spec fn group_files(
    table: Option<Vec<[u8; 4]>>,
    row: u8,
    bypass: [Option<u16>; 8],
    bypass_default: u16,
    first: int,
) -> Seq<u16> {
    match table {
        Some(t) => Seq::new(
            4,
            |i: int| resolved_file(bypass@[first + i], bypass_default, t@[row as int]@[i]),
        ),
        None => seq![0u16, 0, 0, 0],
    }
}

/// `r` is the summary of parsed level `level` read from `inputs` under
/// `options`: each class the options ask for is filled in (tilesets
/// clamped to the tables, slot files resolved through the bypass), the
/// others are left empty.
pub open spec fn summarizes_level(r: LevelResources, level: u16, options: ScanOptions, inputs: LevelScanInputs) -> bool {
    &&& r.level == level
    &&& r.scanned
    &&& r.music == (if options.music {
        inputs.music
    } else {
        0
    })
    &&& forall|s: u8| #[trigger] r.sprites@.contains(s) <==> options.sprites && inputs.sprite_ids@.contains(s)
    &&& r.fg_tileset == (if options.gfx {
        clamp_tileset(inputs.fg_bg_gfx)
    } else {
        0
    })
    &&& r.sp_tileset == (if options.gfx {
        clamp_tileset(inputs.sprite_gfx)
    } else {
        0
    })
    &&& r.fg_files@ == (if options.gfx {
        group_files(
            inputs.object_tileset_files,
            clamp_tileset(inputs.fg_bg_gfx),
            inputs.bypass,
            inputs.bypass_default,
            0,
        )
    } else {
        seq![0u16, 0, 0, 0]
    })
    &&& r.sp_files@ == (if options.gfx {
        group_files(
            inputs.sprite_tileset_files,
            clamp_tileset(inputs.sprite_gfx),
            inputs.bypass,
            inputs.bypass_default,
            4,
        )
    } else {
        seq![0u16, 0, 0, 0]
    })
    &&& r.custom_palette == (options.palettes && inputs.custom_palette)
    &&& r.map16_ok == (options.map16 && inputs.map16_blocks is Some)
    &&& forall|t: u16| #[trigger] r.map16@.contains(t) <==> options.map16 && match inputs.map16_blocks {
        Some(ids) => t != 0 && ids@.contains(t),
        None => false
    }
}

/// The summary of one parsed level.
pub fn level_resources(level: u16, options: ScanOptions, inputs: &LevelScanInputs) -> (r: LevelResources)
    requires
        inputs.object_tileset_files matches Some(t) ==> t@.len() >= TILESET_ROWS,
        inputs.sprite_tileset_files matches Some(t) ==> t@.len() >= TILESET_ROWS,
    ensures
        summarizes_level(r, level, options, *inputs),
{
    let mut sprites: BTreeSet<u8> = BTreeSet::new();
    if options.sprites {
        let mut i: usize = 0;
        while i < inputs.sprite_ids.len()
            invariant
                i <= inputs.sprite_ids@.len(),
                forall|s: u8| #[trigger] sprites@.contains(s) <==> inputs.sprite_ids@.take(i as int).contains(s),
            decreases inputs.sprite_ids@.len() - i,
        {
            let id = inputs.sprite_ids[i];
            sprites.insert(id);
            proof {
                let ids = inputs.sprite_ids@;
                assert(ids.take(i as int + 1) =~= ids.take(i as int).push(id));
                assert forall|s: u8| #[trigger] sprites@.contains(s) <==> ids.take(i as int + 1).contains(s) by {
                    if ids.take(i as int + 1).contains(s) && s != id {
                        let j = choose|j: int| 0 <= j < i + 1 && #[trigger] ids.take(i as int + 1)[j] == s;
                        assert(ids.take(i as int)[j] == s);
                    }
                    if ids.take(i as int).contains(s) {
                        let j = choose|j: int| 0 <= j < i && #[trigger] ids.take(i as int)[j] == s;
                        assert(ids.take(i as int + 1)[j] == s);
                    }
                    if s == id {
                        assert(ids.take(i as int + 1)[i as int] == s);
                    }
                }
            }
            i += 1;
        }
        assert(inputs.sprite_ids@.take(inputs.sprite_ids@.len() as int) =~= inputs.sprite_ids@);
    }
    let mut fg_tileset: u8 = 0;
    let mut sp_tileset: u8 = 0;
    let mut fg_files: [u16; 4] = [0; 4];
    let mut sp_files: [u16; 4] = [0; 4];
    assert(fg_files@ =~= seq![0u16, 0, 0, 0]);
    assert(sp_files@ =~= seq![0u16, 0, 0, 0]);
    if options.gfx {
        fg_tileset = if inputs.fg_bg_gfx < TILESET_ROWS - 1 { inputs.fg_bg_gfx } else { TILESET_ROWS - 1 };
        sp_tileset = if inputs.sprite_gfx < TILESET_ROWS - 1 { inputs.sprite_gfx } else { TILESET_ROWS - 1 };
        match &inputs.object_tileset_files {
            Some(t) => {
                let files = t[fg_tileset as usize];
                let mut k: usize = 0;
                while k < 4
                    invariant
                        k <= 4,
                        forall|i: int|
                            0 <= i < 4 ==> #[trigger] fg_files@[i] == if i < k {
                                resolved_file(inputs.bypass@[i], inputs.bypass_default, files@[i])
                            } else {
                                0u16
                            },
                    decreases 4 - k,
                {
                    let v = match inputs.bypass[k] {
                        Some(b) => if b != inputs.bypass_default { b } else { files[k] as u16 },
                        None => files[k] as u16,
                    };
                    fg_files[k] = v;
                    k += 1;
                }
                assert(fg_files@ =~= group_files(
                    inputs.object_tileset_files,
                    fg_tileset,
                    inputs.bypass,
                    inputs.bypass_default,
                    0,
                ));
            },
            None => {},
        }
        match &inputs.sprite_tileset_files {
            Some(t) => {
                let files = t[sp_tileset as usize];
                let mut k: usize = 0;
                while k < 4
                    invariant
                        k <= 4,
                        forall|i: int|
                            0 <= i < 4 ==> #[trigger] sp_files@[i] == if i < k {
                                resolved_file(inputs.bypass@[4 + i], inputs.bypass_default, files@[i])
                            } else {
                                0u16
                            },
                    decreases 4 - k,
                {
                    let v = match inputs.bypass[4 + k] {
                        Some(b) => if b != inputs.bypass_default { b } else { files[k] as u16 },
                        None => files[k] as u16,
                    };
                    sp_files[k] = v;
                    k += 1;
                }
                assert(sp_files@ =~= group_files(
                    inputs.sprite_tileset_files,
                    sp_tileset,
                    inputs.bypass,
                    inputs.bypass_default,
                    4,
                ));
            },
            None => {},
        }
    }
    let mut map16: BTreeSet<u16> = BTreeSet::new();
    let mut map16_ok = false;
    if options.map16 {
        match &inputs.map16_blocks {
            Some(ids) => {
                map16 = map16_tiles_of_level(ids);
                map16_ok = true;
            },
            None => {},
        }
    }
    LevelResources {
        level,
        scanned: true,
        music: if options.music { inputs.music } else { 0 },
        sprites,
        map16,
        map16_ok,
        fg_tileset,
        sp_tileset,
        fg_files,
        sp_files,
        custom_palette: options.palettes && inputs.custom_palette,
    }
}

/// The summary recorded for a level whose data failed to parse: the level
/// number and nothing else.
pub open spec fn skipped_level(r: LevelResources, level: u16) -> bool {
    &&& r.level == level
    &&& !r.scanned
    &&& r.music == 0
    &&& r.sprites@ == Set::<u8>::empty()
    &&& r.map16@ == Set::<u16>::empty()
    &&& !r.map16_ok
    &&& r.fg_tileset == 0
    &&& r.sp_tileset == 0
    &&& r.fg_files@ == seq![0u16, 0, 0, 0]
    &&& r.sp_files@ == seq![0u16, 0, 0, 0]
    &&& !r.custom_palette
}

/// Number of levels a scan walks, `0x000` to `0x1FF`.
pub const SCANNED_LEVELS: usize = 0x200;

/// Every recorded level is counted once, as scanned or as skipped.
pub open spec fn counts_match(r: ResourceReport) -> bool {
    r.levels_scanned + r.levels_skipped == r.per_level@.len()
}

impl ResourceReport {
    /// A report with no level recorded yet, for a scan with `options`; the
    /// submap music read from the ROM is kept only when music is scanned.
    pub fn begin_scan(options: ScanOptions, submap_music: Option<[u8; 7]>, exgfx_installed: Vec<u16>) -> (r: Self)
        ensures
            r.per_level@.len() == 0,
            r.levels_scanned == 0,
            r.levels_skipped == 0,
            r.submap_music == (if options.music {
                submap_music
            } else {
                None
            }),
            r.exgfx_installed@ == exgfx_installed@,
            r.options == options,
            counts_match(r),
    {
        ResourceReport {
            per_level: Vec::new(),
            levels_scanned: 0,
            levels_skipped: 0,
            submap_music: if options.music { submap_music } else { None },
            exgfx_installed,
            options,
        }
    }

    /// Record the next level (numbered by how many are recorded) as parsed,
    /// summarized from `inputs`.
    pub fn record_scanned(&mut self, inputs: &LevelScanInputs)
        requires
            old(self).per_level@.len() < SCANNED_LEVELS,
            old(self).levels_scanned < u32::MAX,
            inputs.object_tileset_files matches Some(t) ==> t@.len() >= TILESET_ROWS,
            inputs.sprite_tileset_files matches Some(t) ==> t@.len() >= TILESET_ROWS,
        ensures
            final(self).per_level@.len() == old(self).per_level@.len() + 1,
            final(self).per_level@.take(old(self).per_level@.len() as int) == old(self).per_level@,
            summarizes_level(
                final(self).per_level@.last(),
                old(self).per_level@.len() as u16,
                old(self).options,
                *inputs,
            ),
            final(self).levels_scanned == old(self).levels_scanned + 1,
            final(self).levels_skipped == old(self).levels_skipped,
            counts_match(*old(self)) ==> counts_match(*final(self)),
            final(self).submap_music == old(self).submap_music,
            final(self).exgfx_installed@ == old(self).exgfx_installed@,
            final(self).options == old(self).options,
    {
        let level = self.per_level.len() as u16;
        let r = level_resources(level, self.options, inputs);
        self.per_level.push(r);
        self.levels_scanned = self.levels_scanned + 1;
        proof {
            assert(self.per_level@.take(old(self).per_level@.len() as int) =~= old(self).per_level@);
        }
    }

    /// Record the next level as skipped: its data failed to parse.
    pub fn record_skipped(&mut self)
        requires
            old(self).per_level@.len() < SCANNED_LEVELS,
            old(self).levels_skipped < u32::MAX,
        ensures
            final(self).per_level@.len() == old(self).per_level@.len() + 1,
            final(self).per_level@.take(old(self).per_level@.len() as int) == old(self).per_level@,
            skipped_level(final(self).per_level@.last(), old(self).per_level@.len() as u16),
            final(self).levels_scanned == old(self).levels_scanned,
            final(self).levels_skipped == old(self).levels_skipped + 1,
            counts_match(*old(self)) ==> counts_match(*final(self)),
            final(self).submap_music == old(self).submap_music,
            final(self).exgfx_installed@ == old(self).exgfx_installed@,
            final(self).options == old(self).options,
    {
        let level = self.per_level.len() as u16;
        let mut r = LevelResources::default();
        r.level = level;
        self.per_level.push(r);
        self.levels_skipped = self.levels_skipped + 1;
        proof {
            assert(self.per_level@.take(old(self).per_level@.len() as int) =~= old(self).per_level@);
        }
    }
}

/// What the walk over the levels does after one step.
#[derive(Clone, Copy, Debug, PartialEq, Eq, Structural)]
pub enum ScanStep {
    /// Go on with the next level.
    NextLevel,
    /// Every level is recorded: the report is complete.
    Finished,
    /// The progress callback asked to stop: the scan fails as cancelled.
    Cancelled,
}

impl ResourceReport {
    /// The value handed to the progress callback once the next level is
    /// recorded: the number of levels done by then.
    pub fn next_progress(&self) -> (n: u32)
        requires
            self.per_level@.len() < SCANNED_LEVELS,
        ensures
            n == self.per_level@.len() + 1,
    {
        (self.per_level.len() + 1) as u32
    }

    /// One step of the walk over the levels: record the next level from
    /// its parse result (`None` when its data failed to parse), then act
    /// on `keep_going`, the progress callback's answer for
    /// `next_progress()`: `false` cancels the scan, otherwise the walk goes
    /// on until all levels are recorded.
    pub fn scan_step(&mut self, parsed: Option<&LevelScanInputs>, keep_going: bool) -> (step: ScanStep)
        requires
            old(self).per_level@.len() < SCANNED_LEVELS,
            old(self).levels_scanned < u32::MAX,
            old(self).levels_skipped < u32::MAX,
            parsed matches Some(inputs) ==> (inputs.object_tileset_files matches Some(t) ==> t@.len()
                >= TILESET_ROWS),
            parsed matches Some(inputs) ==> (inputs.sprite_tileset_files matches Some(t) ==> t@.len()
                >= TILESET_ROWS),
        ensures
            final(self).per_level@.len() == old(self).per_level@.len() + 1,
            final(self).per_level@.take(old(self).per_level@.len() as int) == old(self).per_level@,
            recorded_as(
                final(self).per_level@.last(),
                old(self).per_level@.len() as int,
                old(self).options,
                match parsed {
                    Some(inputs) => Some(*inputs),
                    None => None,
                },
            ),
            match parsed {
                Some(inputs) => {
                    &&& final(self).levels_scanned == old(self).levels_scanned + 1
                    &&& final(self).levels_skipped == old(self).levels_skipped
                },
                None => {
                    &&& final(self).levels_scanned == old(self).levels_scanned
                    &&& final(self).levels_skipped == old(self).levels_skipped + 1
                },
            },
            final(self).submap_music == old(self).submap_music,
            final(self).exgfx_installed@ == old(self).exgfx_installed@,
            final(self).options == old(self).options,
            counts_match(*old(self)) ==> counts_match(*final(self)),
            step == (if !keep_going {
                ScanStep::Cancelled
            } else if final(self).per_level@.len() == SCANNED_LEVELS {
                ScanStep::Finished
            } else {
                ScanStep::NextLevel
            }),
    {
        match parsed {
            Some(inputs) => self.record_scanned(inputs),
            None => self.record_skipped(),
        }
        if !keep_going {
            ScanStep::Cancelled
        } else if self.per_level.len() == SCANNED_LEVELS {
            ScanStep::Finished
        } else {
            ScanStep::NextLevel
        }
    }
}

/// Levels among the first `n` parse results that parsed.
pub open spec fn parsed_count(parsed: Seq<Option<LevelScanInputs>>, n: int) -> int
    decreases n,
{
    if n <= 0 {
        0
    } else {
        parsed_count(parsed, n - 1) + if parsed[n - 1] is Some {
            1int
        } else {
            0
        }
    }
}

/// Every parsed level's tileset tables have a row for each tileset.
pub open spec fn tables_complete(parsed: Seq<Option<LevelScanInputs>>) -> bool {
    forall|i: int|
        0 <= i < parsed.len() ==> match #[trigger] parsed[i] {
            Some(inputs) => {
                &&& (inputs.object_tileset_files matches Some(t) ==> t@.len() >= TILESET_ROWS)
                &&& (inputs.sprite_tileset_files matches Some(t) ==> t@.len() >= TILESET_ROWS)
            },
            None => true,
        }
}

/// Record `summary` of level `i` from its parse result: its summary when
/// it parsed, a skipped level otherwise.
pub open spec fn recorded_as(summary: LevelResources, i: int, options: ScanOptions, parsed: Option<LevelScanInputs>) -> bool {
    match parsed {
        Some(inputs) => summarizes_level(summary, i as u16, options, inputs),
        None => skipped_level(summary, i as u16),
    }
}

/// `r` is the report of a scan of all levels from their parse results
/// `parsed`: every level recorded in order from its own parse result, the
/// scanned and skipped counts, and the scan's settings.
pub open spec fn scan_report(
    r: ResourceReport,
    options: ScanOptions,
    submap_music: Option<[u8; 7]>,
    exgfx_installed: Seq<u16>,
    parsed: Seq<Option<LevelScanInputs>>,
) -> bool {
    &&& r.per_level@.len() == SCANNED_LEVELS
    &&& forall|i: int| 0 <= i < SCANNED_LEVELS ==> recorded_as(#[trigger] r.per_level@[i], i, options, parsed[i])
    &&& r.levels_scanned == parsed_count(parsed, SCANNED_LEVELS as int)
    &&& r.levels_skipped == SCANNED_LEVELS - parsed_count(parsed, SCANNED_LEVELS as int)
    &&& r.submap_music == (if options.music {
        submap_music
    } else {
        None
    })
    &&& r.exgfx_installed@ == exgfx_installed
    &&& r.options == options
}

/// The report of a scan that nobody cancels: the walk over all levels,
/// each recorded from its parse result (`None` when its data failed to
/// parse), in level order.
pub fn scan_levels(
    options: ScanOptions,
    submap_music: Option<[u8; 7]>,
    exgfx_installed: Vec<u16>,
    parsed: &Vec<Option<LevelScanInputs>>,
) -> (r: ResourceReport)
    requires
        parsed@.len() == SCANNED_LEVELS,
        tables_complete(parsed@),
    ensures
        scan_report(r, options, submap_music, exgfx_installed@, parsed@),
{
    let ghost ex = exgfx_installed@;
    let mut r = ResourceReport::begin_scan(options, submap_music, exgfx_installed);
    let mut k: usize = 0;
    while k < parsed.len()
        invariant
            parsed@.len() == SCANNED_LEVELS,
            tables_complete(parsed@),
            k <= SCANNED_LEVELS,
            r.per_level@.len() == k,
            forall|i: int| 0 <= i < k ==> recorded_as(#[trigger] r.per_level@[i], i, options, parsed@[i]),
            r.levels_scanned == parsed_count(parsed@, k as int),
            r.levels_skipped == k - parsed_count(parsed@, k as int),
            0 <= parsed_count(parsed@, k as int) <= k,
            r.submap_music == (if options.music {
                submap_music
            } else {
                None
            }),
            r.exgfx_installed@ == ex,
            r.options == options,
        decreases SCANNED_LEVELS - k,
    {
        let ghost before = r.per_level@;
        assert(tables_complete(parsed@) ==> match parsed@[k as int] {
            Some(inputs) => {
                &&& (inputs.object_tileset_files matches Some(t) ==> t@.len() >= TILESET_ROWS)
                &&& (inputs.sprite_tileset_files matches Some(t) ==> t@.len() >= TILESET_ROWS)
            },
            None => true,
        });
        match &parsed[k] {
            Some(inputs) => {
                r.scan_step(Some(inputs), true);
            },
            None => {
                r.scan_step(None, true);
            },
        }
        proof {
            assert forall|i: int| 0 <= i < k + 1 implies recorded_as(
                #[trigger] r.per_level@[i],
                i,
                options,
                parsed@[i],
            ) by {
                if i < k {
                    assert(r.per_level@[i] == r.per_level@.take(k as int)[i]);
                    assert(before[i] == r.per_level@[i]);
                }
            }
        }
        k += 1;
    }
    r
}

/// A scan stopped by its progress callback.
#[derive(Clone, Copy, Debug, PartialEq, Eq, Structural)]
pub struct ScanCancelled;

/// The scan with progress reports: after each level is recorded the
/// callback is told how many levels are done and answers whether to go on
/// (`answers[k]` for level `k`). It is cancelled at the first `false`
/// answer; when every answer is `true` it gives the same report as the scan
/// nobody cancels (`scan_levels`).
pub fn scan_with_progress(
    options: ScanOptions,
    submap_music: Option<[u8; 7]>,
    exgfx_installed: Vec<u16>,
    parsed: &Vec<Option<LevelScanInputs>>,
    answers: &Vec<bool>,
) -> (res: Result<ResourceReport, ScanCancelled>)
    requires
        parsed@.len() == SCANNED_LEVELS,
        answers@.len() == SCANNED_LEVELS,
        tables_complete(parsed@),
    ensures
        res is Err <==> exists|k: int| 0 <= k < SCANNED_LEVELS && !#[trigger] answers@[k],
        res matches Ok(r) ==> scan_report(r, options, submap_music, exgfx_installed@, parsed@),
{
    let ghost ex = exgfx_installed@;
    let mut r = ResourceReport::begin_scan(options, submap_music, exgfx_installed);
    let mut k: usize = 0;
    while k < parsed.len()
        invariant
            parsed@.len() == SCANNED_LEVELS,
            answers@.len() == SCANNED_LEVELS,
            tables_complete(parsed@),
            k <= SCANNED_LEVELS,
            r.per_level@.len() == k,
            forall|j: int| 0 <= j < k ==> #[trigger] answers@[j],
            forall|i: int| 0 <= i < k ==> recorded_as(#[trigger] r.per_level@[i], i, options, parsed@[i]),
            r.levels_scanned == parsed_count(parsed@, k as int),
            r.levels_skipped == k - parsed_count(parsed@, k as int),
            0 <= parsed_count(parsed@, k as int) <= k,
            r.submap_music == (if options.music {
                submap_music
            } else {
                None
            }),
            r.exgfx_installed@ == ex,
            r.options == options,
        decreases SCANNED_LEVELS - k,
    {
        let ghost before = r.per_level@;
        assert(tables_complete(parsed@) ==> match parsed@[k as int] {
            Some(inputs) => {
                &&& (inputs.object_tileset_files matches Some(t) ==> t@.len() >= TILESET_ROWS)
                &&& (inputs.sprite_tileset_files matches Some(t) ==> t@.len() >= TILESET_ROWS)
            },
            None => true,
        });
        let step = match &parsed[k] {
            Some(inputs) => r.scan_step(Some(inputs), answers[k]),
            None => r.scan_step(None, answers[k]),
        };
        if step == ScanStep::Cancelled {
            assert(!answers@[k as int]);
            return Err(ScanCancelled);
        }
        proof {
            assert forall|i: int| 0 <= i < k + 1 implies recorded_as(
                #[trigger] r.per_level@[i],
                i,
                options,
                parsed@[i],
            ) by {
                if i < k {
                    assert(r.per_level@[i] == r.per_level@.take(k as int)[i]);
                    assert(before[i] == r.per_level@[i]);
                }
            }
        }
        k += 1;
    }
    Ok(r)
}

/// Two level summaries agree in everything a report shows.
pub open spec fn same_summary(a: LevelResources, b: LevelResources) -> bool {
    &&& a.level == b.level
    &&& a.scanned == b.scanned
    &&& a.music == b.music
    &&& a.sprites@ == b.sprites@
    &&& a.map16@ == b.map16@
    &&& a.map16_ok == b.map16_ok
    &&& a.fg_tileset == b.fg_tileset
    &&& a.sp_tileset == b.sp_tileset
    &&& a.fg_files@ == b.fg_files@
    &&& a.sp_files@ == b.sp_files@
    &&& a.custom_palette == b.custom_palette
}

/// A scan's report is determined by the parse results and the scan's
/// settings: the uncancelled scan and the scan whose progress answers are
/// all `true` give reports that agree level by level and in every count
/// and setting.
pub proof fn lemma_scan_report_determined(
    r1: ResourceReport,
    r2: ResourceReport,
    options: ScanOptions,
    submap_music: Option<[u8; 7]>,
    exgfx_installed: Seq<u16>,
    parsed: Seq<Option<LevelScanInputs>>,
)
    requires
        scan_report(r1, options, submap_music, exgfx_installed, parsed),
        scan_report(r2, options, submap_music, exgfx_installed, parsed),
    ensures
        r1.per_level@.len() == r2.per_level@.len(),
        forall|i: int| 0 <= i < r1.per_level@.len() ==> same_summary(#[trigger] r1.per_level@[i], r2.per_level@[i]),
        r1.levels_scanned == r2.levels_scanned,
        r1.levels_skipped == r2.levels_skipped,
        r1.submap_music == r2.submap_music,
        r1.exgfx_installed@ == r2.exgfx_installed@,
        r1.options == r2.options,
{
    assert forall|i: int| 0 <= i < r1.per_level@.len() implies same_summary(
        #[trigger] r1.per_level@[i],
        r2.per_level@[i],
    ) by {
        let a = r1.per_level@[i];
        let b = r2.per_level@[i];
        assert(recorded_as(a, i, options, parsed[i]));
        assert(recorded_as(b, i, options, parsed[i]));
        assert(a.sprites@ =~= b.sprites@);
        assert(a.map16@ =~= b.map16@);
    }
}

} // verus!
