//! What the "Analyze Resources in Levels" results window shows: the
//! resource classes of the by-resource view, labels of single resources,
//! the summary line, and the per-level rows.
//!
//! Music track names come from the ROM crate's track list; callers pass
//! them as `music_labels`, one per track value (256 entries), and the slot
//! names of the GFX bypass as `slot_names` (8 entries).

use crate::resource_scan::{
    gfx_file_label, gfx_file_label_text, levels_matching, slot_files, unused_exgfx,
    used_gfx_set, used_map16_set, used_music_set, used_sprite_set, LevelResources,
    ResourceQuery, ResourceReport, ScanOptions,
};
use crate::text::{decimal, hex_padded, join_with, lemma_join_push, push_decimal, push_hex, push_joined};
use vstd::prelude::*;

verus! {

/// Resource class picker of the by-resource view.
#[derive(Debug, Clone, Copy, PartialEq, Eq, Structural)]
pub enum ResourceClass {
    Music,
    Sprites,
    Map16Tiles,
    GfxFiles,
    CustomPalettes,
}

/// Display name of a resource class.
pub open spec fn class_label(c: ResourceClass) -> Seq<char> {
    match c {
        ResourceClass::Music => "Music tracks"@,
        ResourceClass::Sprites => "Sprites"@,
        ResourceClass::Map16Tiles => "Map16 tiles"@,
        ResourceClass::GfxFiles => "GFX / ExGFX files"@,
        ResourceClass::CustomPalettes => "Custom palettes"@,
    }
}

impl ResourceClass {
    /// Display name, e.g. `"Map16 tiles"`.
    pub fn label(self) -> (s: &'static str)
        ensures
            s@ == class_label(self),
    {
        match self {
            ResourceClass::Music => "Music tracks",
            ResourceClass::Sprites => "Sprites",
            ResourceClass::Map16Tiles => "Map16 tiles",
            ResourceClass::GfxFiles => "GFX / ExGFX files",
            ResourceClass::CustomPalettes => "Custom palettes",
        }
    }

    /// Every class, in picker order.
    pub fn all() -> (classes: [ResourceClass; 5])
        ensures
            classes@ == seq![
                ResourceClass::Music,
                ResourceClass::Sprites,
                ResourceClass::Map16Tiles,
                ResourceClass::GfxFiles,
                ResourceClass::CustomPalettes,
            ],
    {
        let classes = [
            ResourceClass::Music,
            ResourceClass::Sprites,
            ResourceClass::Map16Tiles,
            ResourceClass::GfxFiles,
            ResourceClass::CustomPalettes,
        ];
        assert(classes@ =~= seq![
            ResourceClass::Music,
            ResourceClass::Sprites,
            ResourceClass::Map16Tiles,
            ResourceClass::GfxFiles,
            ResourceClass::CustomPalettes,
        ]);
        classes
    }
}

/// One selectable resource of the by-resource view.
#[derive(Debug, Clone, Copy, PartialEq, Eq, Structural)]
pub enum ResourceKey {
    Music(u8),
    Sprite(u8),
    Map16(u16),
    GfxFile(u16),
    CustomPalettes,
}

/// The level query a resource key stands for.
pub open spec fn key_query(key: ResourceKey) -> ResourceQuery {
    match key {
        ResourceKey::Music(t) => ResourceQuery::Music(t),
        ResourceKey::Sprite(s) => ResourceQuery::Sprite(s),
        ResourceKey::Map16(t) => ResourceQuery::Map16(t),
        ResourceKey::GfxFile(f) => ResourceQuery::GfxFile(f),
        ResourceKey::CustomPalettes => ResourceQuery::CustomPalette,
    }
}

/// Levels using the selected resource.
pub fn levels_for(report: &ResourceReport, key: ResourceKey) -> (levels: Vec<u16>)
    ensures
        levels@ == levels_matching(report.per_level@, key_query(key)),
{
    match key {
        ResourceKey::Music(t) => report.levels_using_music(t),
        ResourceKey::Sprite(s) => report.levels_using_sprite(s),
        ResourceKey::Map16(t) => report.levels_using_map16(t),
        ResourceKey::GfxFile(f) => report.levels_using_gfx_file(f),
        ResourceKey::CustomPalettes => report.levels_with_custom_palette(),
    }
}

/// Slot `i` of some scanned level holds file `f`.
pub open spec fn slot_holds(s: Seq<LevelResources>, i: int, f: u16) -> bool {
    exists|j: int| 0 <= j < s.len() && s[j].scanned && #[trigger] slot_files(s[j])[i] == f
}

/// Names of the slots among the first `n` that hold file `f` in some level.
pub open spec fn slots_holding(names: Seq<String>, s: Seq<LevelResources>, f: u16, n: int) -> Seq<
    Seq<char>,
>
    decreases n,
{
    if n <= 0 {
        seq![]
    } else {
        slots_holding(names, s, f, n - 1) + if slot_holds(s, n - 1, f) {
            seq![names[n - 1]@]
        } else {
            seq![]
        }
    }
}

/// Label of a resource in the by-resource view.
pub open spec fn resource_label_text(
    s: Seq<LevelResources>,
    key: ResourceKey,
    music_labels: Seq<String>,
    slot_names: Seq<String>,
) -> Seq<char> {
    match key {
        ResourceKey::Music(t) => "Track "@ + music_labels[t as int]@,
        ResourceKey::Sprite(x) => "Sprite $"@ + hex_padded(x as nat, 2),
        ResourceKey::Map16(t) => "Tile $"@ + hex_padded(t as nat, 4),
        ResourceKey::GfxFile(f) => {
            let slots = slots_holding(slot_names, s, f, 8);
            if slots.len() == 0 {
                gfx_file_label_text(f)
            } else {
                gfx_file_label_text(f) + " ("@ + join_with(slots, "/"@) + ")"@
            }
        },
        ResourceKey::CustomPalettes => "Levels with a custom palette"@,
    }
}

fn slot_holds_file(per_level: &Vec<LevelResources>, i: usize, f: u16) -> (b: bool)
    requires
        i < 8,
    ensures
        b == slot_holds(per_level@, i as int, f),
{
    let mut j: usize = 0;
    while j < per_level.len()
        invariant
            i < 8,
            j <= per_level@.len(),
            forall|k: int|
                0 <= k < j ==> !(per_level@[k].scanned && #[trigger] slot_files(per_level@[k])[i as int]
                    == f),
        decreases per_level@.len() - j,
    {
        let r = &per_level[j];
        if r.scanned {
            let files = r.all_slot_files();
            if files[i] == f {
                assert(slot_files(per_level@[j as int])[i as int] == f);
                return true;
            }
        }
        j += 1;
    }
    false
}

/// Display label of a resource, e.g. `"Sprite $3F"` or
/// `"ExGFX file $080 (FG1/SP3)"`.
pub fn resource_label(
    report: &ResourceReport,
    key: ResourceKey,
    music_labels: &Vec<String>,
    slot_names: &Vec<String>,
) -> (label: String)
    requires
        music_labels@.len() == 256,
        slot_names@.len() == 8,
    ensures
        label@ == resource_label_text(report.per_level@, key, music_labels@, slot_names@),
{
    let mut out = String::new();
    match key {
        ResourceKey::Music(t) => {
            out.append("Track ");
            out.append(music_labels[t as usize].as_str());
        },
        ResourceKey::Sprite(x) => {
            out.append("Sprite $");
            push_hex(&mut out, x as u64, 2);
        },
        ResourceKey::Map16(t) => {
            out.append("Tile $");
            push_hex(&mut out, t as u64, 4);
        },
        ResourceKey::GfxFile(f) => {
            let label = gfx_file_label(f);
            let mut slots = String::new();
            let mut count: usize = 0;
            let mut i: usize = 0;
            while i < 8
                invariant
                    slot_names@.len() == 8,
                    i <= 8,
                    count == slots_holding(slot_names@, report.per_level@, f, i as int).len(),
                    count <= i,
                    slots@ == join_with(slots_holding(slot_names@, report.per_level@, f, i as int), "/"@),
                decreases 8 - i,
            {
                let ghost before = slots_holding(slot_names@, report.per_level@, f, i as int);
                if slot_holds_file(&report.per_level, i, f) {
                    proof {
                        lemma_join_push(before, "/"@, slot_names@[i as int]@);
                        assert(slots_holding(slot_names@, report.per_level@, f, i as int + 1) =~= before.push(
                            slot_names@[i as int]@,
                        ));
                    }
                    push_joined(&mut slots, count, "/", slot_names[i].as_str());
                    count += 1;
                } else {
                    assert(slots_holding(slot_names@, report.per_level@, f, i as int + 1) =~= before);
                }
                i += 1;
            }
            out.append(label.as_str());
            if count > 0 {
                out.append(" (");
                out.append(slots.as_str());
                out.append(")");
            }
        },
        ResourceKey::CustomPalettes => {
            out.append("Levels with a custom palette");
        },
    }
    out
}

/// `" {n} {what}."` when `on`, else nothing.
pub open spec fn count_note(on: bool, n: nat, what: Seq<char>) -> Seq<char> {
    if on {
        " "@ + decimal(n) + what
    } else {
        seq![]
    }
}

fn push_count_note(s: &mut String, on: bool, n: usize, what: &str)
    ensures
        final(s)@ == old(s)@ + count_note(on, n as nat, what@),
{
    if on {
        s.append(" ");
        push_decimal(s, n as u64);
        s.append(what);
    }
}

/// `" {n} installed ExGFX file(s) unused."` when `on` and `n > 0`.
pub open spec fn unused_note(on: bool, n: nat) -> Seq<char> {
    if on && n > 0 {
        " "@ + decimal(n) + " installed ExGFX file"@ + (if n == 1 {
            seq![]
        } else {
            "s"@
        }) + " unused."@
    } else {
        seq![]
    }
}

fn push_unused_note(s: &mut String, on: bool, n: usize)
    ensures
        final(s)@ == old(s)@ + unused_note(on, n as nat),
{
    if on && n > 0 {
        s.append(" ");
        push_decimal(s, n as u64);
        s.append(" installed ExGFX file");
        if n != 1 {
            s.append("s");
        }
        s.append(" unused.");
    }
}

/// `"Scanned N levels"`, the skipped count if any, and the full stop.
pub open spec fn summary_head(r: ResourceReport) -> Seq<char> {
    "Scanned "@ + decimal(r.levels_scanned as nat) + " levels"@ + (if r.levels_skipped > 0 {
        " ("@ + decimal(r.levels_skipped as nat) + " skipped: unparseable data)"@
    } else {
        seq![]
    }) + "."@
}

/// The one-line summary above the results.
pub open spec fn summary_line(r: ResourceReport) -> Seq<char> {
    let s = r.per_level@;
    summary_head(r) + count_note(r.options.music, used_music_set(s).len(), " music tracks in use."@)
        + count_note(r.options.sprites, used_sprite_set(s).len(), " distinct sprites."@)
        + count_note(r.options.map16, used_map16_set(s).len(), " distinct Map16 tiles."@)
        + count_note(r.options.gfx, used_gfx_set(s).len(), " GFX/ExGFX files referenced."@)
        + unused_note(r.options.gfx, unused_exgfx(r.options.gfx, r.exgfx_installed@, s).len()) + count_note(
        r.options.palettes,
        levels_matching(s, ResourceQuery::CustomPalette).len(),
        " levels with a custom palette."@,
    )
}

/// The summary line, e.g. `"Scanned 512 levels. 8 music tracks in use."`.
pub fn summary_text(report: &ResourceReport) -> (s: String)
    ensures
        s@ == summary_line(*report),
{
    let mut s = String::new();
    s.append("Scanned ");
    push_decimal(&mut s, report.levels_scanned as u64);
    s.append(" levels");
    if report.levels_skipped > 0 {
        s.append(" (");
        push_decimal(&mut s, report.levels_skipped as u64);
        s.append(" skipped: unparseable data)");
    }
    s.append(".");
    assert(s@ =~= summary_head(*report));
    let music = report.used_music_tracks().len();
    push_count_note(&mut s, report.options.music, music, " music tracks in use.");
    let sprites = report.used_sprites().len();
    push_count_note(&mut s, report.options.sprites, sprites, " distinct sprites.");
    let map16 = report.used_map16_tiles().len();
    push_count_note(&mut s, report.options.map16, map16, " distinct Map16 tiles.");
    let gfx = report.used_gfx_files().len();
    push_count_note(&mut s, report.options.gfx, gfx, " GFX/ExGFX files referenced.");
    let unused = report.unused_exgfx_files().len();
    push_unused_note(&mut s, report.options.gfx, unused);
    let palettes = report.levels_with_custom_palette().len();
    push_count_note(&mut s, report.options.palettes, palettes, " levels with a custom palette.");
    s
}

/// The summary line drawn on the rendered analysis image: every count,
/// whatever the scan options, and no unused-ExGFX note.
pub open spec fn image_summary_line(r: ResourceReport) -> Seq<char> {
    let s = r.per_level@;
    summary_head(r) + count_note(true, used_music_set(s).len(), " music tracks in use."@) + count_note(
        true,
        used_sprite_set(s).len(),
        " distinct sprites."@,
    ) + count_note(true, used_map16_set(s).len(), " distinct Map16 tiles."@) + count_note(
        true,
        used_gfx_set(s).len(),
        " GFX/ExGFX files referenced."@,
    ) + count_note(
        true,
        levels_matching(s, ResourceQuery::CustomPalette).len(),
        " levels with a custom palette."@,
    )
}

/// The summary line of the rendered analysis image, e.g. `"Scanned 512
/// levels. 8 music tracks in use. ..."`.
pub fn image_summary_text(report: &ResourceReport) -> (s: String)
    ensures
        s@ == image_summary_line(*report),
{
    let mut s = String::new();
    s.append("Scanned ");
    push_decimal(&mut s, report.levels_scanned as u64);
    s.append(" levels");
    if report.levels_skipped > 0 {
        s.append(" (");
        push_decimal(&mut s, report.levels_skipped as u64);
        s.append(" skipped: unparseable data)");
    }
    s.append(".");
    assert(s@ =~= summary_head(*report));
    let music = report.used_music_tracks().len();
    push_count_note(&mut s, true, music, " music tracks in use.");
    let sprites = report.used_sprites().len();
    push_count_note(&mut s, true, sprites, " distinct sprites.");
    let map16 = report.used_map16_tiles().len();
    push_count_note(&mut s, true, map16, " distinct Map16 tiles.");
    let gfx = report.used_gfx_files().len();
    push_count_note(&mut s, true, gfx, " GFX/ExGFX files referenced.");
    let palettes = report.levels_with_custom_palette().len();
    push_count_note(&mut s, true, palettes, " levels with a custom palette.");
    s
}

/// Four file numbers as `"XX/XX/XX/XX"` (two hex digits at least).
pub open spec fn four_files_text(f: Seq<u16>) -> Seq<char> {
    hex_padded(f[0] as nat, 2) + "/"@ + hex_padded(f[1] as nat, 2) + "/"@ + hex_padded(f[2] as nat, 2)
        + "/"@ + hex_padded(f[3] as nat, 2)
}

/// A one-part list when `on`, else none.
pub open spec fn part_if(on: bool, part: Seq<char>) -> Seq<Seq<char>> {
    if on {
        seq![part]
    } else {
        seq![]
    }
}

/// The GFX part of a level's summary: `"FG1-3/BG1 .. · SP1-4 .."` in the
/// results window, `"FG1-3/BG1=.. SP1-4=.."` in the text report.
pub open spec fn gfx_part_text(r: LevelResources, in_report: bool) -> Seq<char> {
    if in_report {
        "FG1-3/BG1="@ + four_files_text(r.fg_files@) + " SP1-4="@ + four_files_text(r.sp_files@)
    } else {
        "FG1-3/BG1 "@ + four_files_text(r.fg_files@) + " · SP1-4 "@ + four_files_text(r.sp_files@)
    }
}

/// The parts of a scanned level's summary, for the classes the scan
/// collected.
pub open spec fn level_parts(
    r: LevelResources,
    o: ScanOptions,
    music_labels: Seq<String>,
    in_report: bool,
) -> Seq<Seq<char>> {
    part_if(o.music, "music "@ + music_labels[r.music as int]@) + part_if(
        o.gfx,
        gfx_part_text(r, in_report),
    ) + part_if(o.sprites, decimal(r.sprites@.len()) + " sprites"@) + part_if(
        o.map16,
        if r.map16_ok {
            decimal(r.map16@.len()) + " Map16 tiles"@
        } else {
            "Map16 walk failed"@
        },
    ) + part_if(o.palettes && r.custom_palette, "custom palette"@)
}

fn push_four_files(s: &mut String, f: &[u16; 4])
    ensures
        final(s)@ == old(s)@ + four_files_text(f@),
{
    push_hex(s, f[0] as u64, 2);
    s.append("/");
    push_hex(s, f[1] as u64, 2);
    s.append("/");
    push_hex(s, f[2] as u64, 2);
    s.append("/");
    push_hex(s, f[3] as u64, 2);
}

fn gfx_part(r: &LevelResources, in_report: bool) -> (t: String)
    ensures
        t@ == gfx_part_text(*r, in_report),
{
    let mut t = String::new();
    if in_report {
        t.append("FG1-3/BG1=");
        push_four_files(&mut t, &r.fg_files);
        t.append(" SP1-4=");
        push_four_files(&mut t, &r.sp_files);
    } else {
        t.append("FG1-3/BG1 ");
        push_four_files(&mut t, &r.fg_files);
        t.append(" · SP1-4 ");
        push_four_files(&mut t, &r.sp_files);
    }
    t
}

fn push_part(s: &mut String, count: &mut usize, on: bool, part: &str, Ghost(parts): Ghost<
    Seq<Seq<char>>,
>)
    requires
        old(s)@ == join_with(parts, " · "@),
        *old(count) == parts.len(),
        *old(count) < 8,
    ensures
        final(s)@ == join_with(parts + part_if(on, part@), " · "@),
        *final(count) == (parts + part_if(on, part@)).len(),
{
    if on {
        proof {
            lemma_join_push(parts, " · "@, part@);
            assert(parts + part_if(on, part@) =~= parts.push(part@));
        }
        push_joined(s, *count, " · ", part);
        *count = *count + 1;
    } else {
        assert(parts + part_if(on, part@) =~= parts);
    }
}

/// The parts of a scanned level's summary joined with `" · "`.
pub fn level_parts_text(
    r: &LevelResources,
    options: ScanOptions,
    music_labels: &Vec<String>,
    in_report: bool,
) -> (t: String)
    requires
        music_labels@.len() == 256,
    ensures
        t@ == join_with(level_parts(*r, options, music_labels@, in_report), " · "@),
{
    let mut out = String::new();
    let mut count: usize = 0;
    let mut music = String::new();
    music.append("music ");
    music.append(music_labels[r.music as usize].as_str());
    let ghost p0: Seq<Seq<char>> = seq![];
    assert(out@ =~= join_with(p0, " · "@));
    push_part(&mut out, &mut count, options.music, music.as_str(), Ghost(p0));
    let ghost p1 = p0 + part_if(options.music, music@);
    let gfx = gfx_part(r, in_report);
    push_part(&mut out, &mut count, options.gfx, gfx.as_str(), Ghost(p1));
    let ghost p2 = p1 + part_if(options.gfx, gfx@);
    let mut sprites = String::new();
    push_decimal(&mut sprites, r.sprites.len() as u64);
    sprites.append(" sprites");
    push_part(&mut out, &mut count, options.sprites, sprites.as_str(), Ghost(p2));
    let ghost p3 = p2 + part_if(options.sprites, sprites@);
    let mut map16 = String::new();
    if r.map16_ok {
        push_decimal(&mut map16, r.map16.len() as u64);
        map16.append(" Map16 tiles");
    } else {
        map16.append("Map16 walk failed");
    }
    push_part(&mut out, &mut count, options.map16, map16.as_str(), Ghost(p3));
    let ghost p4 = p3 + part_if(options.map16, map16@);
    push_part(
        &mut out,
        &mut count,
        options.palettes && r.custom_palette,
        "custom palette",
        Ghost(p4),
    );
    proof {
        assert(p4 + part_if(options.palettes && r.custom_palette, "custom palette"@) =~= level_parts(
            *r,
            options,
            music_labels@,
            in_report,
        ));
    }
    out
}

/// The by-level table's row text for a level.
pub open spec fn level_row_text(report: ResourceReport, level: u16, music_labels: Seq<String>) -> Seq<
    char,
> {
    if level >= report.per_level@.len() {
        "unknown level"@
    } else if !report.per_level@[level as int].scanned {
        "could not parse"@
    } else {
        join_with(
            level_parts(report.per_level@[level as int], report.options, music_labels, false),
            " · "@,
        )
    }
}

/// One row of the by-level table, e.g. `"music 3 · 12 sprites"`.
pub fn level_summary(report: &ResourceReport, level: u16, music_labels: &Vec<String>) -> (t: String)
    requires
        music_labels@.len() == 256,
    ensures
        t@ == level_row_text(*report, level, music_labels@),
{
    if level as usize >= report.per_level.len() {
        let mut t = String::new();
        t.append("unknown level");
        return t;
    }
    let r = &report.per_level[level as usize];
    if !r.scanned {
        let mut t = String::new();
        t.append("could not parse");
        return t;
    }
    level_parts_text(r, report.options, music_labels, false)
}

} // verus!
