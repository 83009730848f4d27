//! The plain-text resource report ("Save Text Report..."): one section per
//! resource class the scan collected, each listing its resources in
//! ascending order with the levels that use them, then a per-level summary.
//!
//! Music track names come from the ROM crate's track list; callers pass
//! them as `music_labels`, one per track value (256 entries).

use crate::resource_scan::{
    gfx_file_label, gfx_file_label_text, level_list, level_list_text, levels_matching, slot_files,
    slot_name, slot_name_text, unused_exgfx, used_gfx_set, used_map16_set, used_music_set,
    used_sprite_set, LevelResources, ResourceQuery, ResourceReport,
};
use crate::resource_scan_view::{level_parts, level_parts_text, slot_holds};
use crate::text::{decimal, hex_padded, join_with, lemma_join_push, push_decimal, push_hex, push_joined};
use vstd::prelude::*;

verus! {

/// The texts `f(0)`, ..., `f(n - 1)` one after another.
pub open spec fn lines_upto(n: int, f: spec_fn(int) -> Seq<char>) -> Seq<char>
    decreases n,
{
    if n <= 0 {
        seq![]
    } else {
        lines_upto(n - 1, f) + f(n - 1)
    }
}

/// `"s"` unless `n` is 1.
pub open spec fn plural(n: nat) -> Seq<char> {
    if n == 1 {
        seq![]
    } else {
        "s"@
    }
}

/// `" — used by N level(s)"`.
pub open spec fn used_by(levels: Seq<u16>) -> Seq<char> {
    " — used by "@ + decimal(levels.len()) + " level"@ + plural(levels.len())
}

/// The report's title block.
pub open spec fn report_header(r: ResourceReport) -> Seq<char> {
    "SMW Resource Analysis Report\n"@
        + "Generated by smw-editor — Tools > Analyze Resources in Levels...\n"@
        + "(Lunar Magic v3.03 parity; music-track reporting added in LM v3.20)\n"@
        + "Levels scanned: "@ + decimal(r.levels_scanned as nat) + " ("@ + decimal(
        r.levels_skipped as nat,
    ) + " skipped: unparseable data)\n\n"@
}

/// Line for music track `t` when some level uses it.
pub open spec fn music_line(s: Seq<LevelResources>, music_labels: Seq<String>, t: int) -> Seq<char> {
    if used_music_set(s).contains(t as u8) {
        let levels = levels_matching(s, ResourceQuery::Music(t as u8));
        "Track "@ + music_labels[t]@ + used_by(levels) + ": "@ + level_list_text(levels) + "\n"@
    } else {
        seq![]
    }
}

/// Line for overworld submap `i`.
pub open spec fn submap_line(tracks: Seq<u8>, i: int) -> Seq<char> {
    "Submap "@ + decimal(i as nat) + ": SPC track $"@ + hex_padded(tracks[i] as nat, 2) + "\n"@
}

/// The music section.
pub open spec fn music_section(r: ResourceReport, music_labels: Seq<String>) -> Seq<char> {
    if r.options.music {
        "== Music tracks used in levels ==\n"@ + lines_upto(
            256,
            |t: int| music_line(r.per_level@, music_labels, t),
        ) + match r.submap_music {
            Some(tracks) => "\n-- Overworld submap music --\n"@ + lines_upto(
                7,
                |i: int| submap_line(tracks@, i),
            ),
            None => seq![],
        } + "\n"@
    } else {
        seq![]
    }
}

/// Line for sprite `x` when some level places it.
pub open spec fn sprite_line(s: Seq<LevelResources>, x: int) -> Seq<char> {
    if used_sprite_set(s).contains(x as u8) {
        let levels = levels_matching(s, ResourceQuery::Sprite(x as u8));
        "Sprite $"@ + hex_padded(x as nat, 2) + used_by(levels) + ": "@ + level_list_text(levels)
            + "\n"@
    } else {
        seq![]
    }
}

/// The sprite section.
pub open spec fn sprite_section(r: ResourceReport) -> Seq<char> {
    if r.options.sprites {
        "== Sprites used in levels ("@ + decimal(used_sprite_set(r.per_level@).len())
            + " distinct) ==\n"@ + lines_upto(256, |x: int| sprite_line(r.per_level@, x)) + "\n"@
    } else {
        seq![]
    }
}

/// Line for Map16 tile `t` when some level's block map holds it.
pub open spec fn map16_line(s: Seq<LevelResources>, t: int) -> Seq<char> {
    if used_map16_set(s).contains(t as u16) {
        let levels = levels_matching(s, ResourceQuery::Map16(t as u16));
        "Tile $"@ + hex_padded(t as nat, 4) + used_by(levels) + ": "@ + level_list_text(levels)
            + "\n"@
    } else {
        seq![]
    }
}

/// The Map16 section.
pub open spec fn map16_section(r: ResourceReport) -> Seq<char> {
    if r.options.map16 {
        "== Map16 tiles used in levels ("@ + decimal(used_map16_set(r.per_level@).len())
            + " distinct; Layer 1 block maps, tile $0000 excluded) ==\n"@ + lines_upto(
            65536,
            |t: int| map16_line(r.per_level@, t),
        ) + "\n"@
    } else {
        seq![]
    }
}

/// Names of the slots among the first `n` that hold file `f` in some level.
pub open spec fn report_slots(s: Seq<LevelResources>, f: u16, n: int) -> Seq<Seq<char>>
    decreases n,
{
    if n <= 0 {
        seq![]
    } else {
        report_slots(s, f, n - 1) + if slot_holds(s, n - 1, f) {
            seq![slot_name_text(n - 1)]
        } else {
            seq![]
        }
    }
}

/// Line for GFX/ExGFX file `f` when some level's slots reference it.
pub open spec fn gfx_line(s: Seq<LevelResources>, f: int) -> Seq<char> {
    if used_gfx_set(s).contains(f as u16) {
        let levels = levels_matching(s, ResourceQuery::GfxFile(f as u16));
        gfx_file_label_text(f as u16) + used_by(levels) + " (slots "@ + join_with(
            report_slots(s, f as u16, 8),
            "/"@,
        ) + "): "@ + level_list_text(levels) + "\n"@
    } else {
        seq![]
    }
}

/// `"$XXX"` for each file, joined with `", "`.
pub open spec fn file_list_text(files: Seq<u16>) -> Seq<char>
    decreases files.len(),
{
    if files.len() == 0 {
        seq![]
    } else if files.len() == 1 {
        "$"@ + hex_padded(files[0] as nat, 3)
    } else {
        file_list_text(files.drop_last()) + ", $"@ + hex_padded(files.last() as nat, 3)
    }
}

/// Number of occurrences of `c` in `s`.
pub open spec fn count_char(s: Seq<char>, c: char) -> int
    decreases s.len(),
{
    if s.len() == 0 {
        0
    } else {
        count_char(s.drop_last(), c) + if s.last() == c {
            1int
        } else {
            0
        }
    }
}

proof fn lemma_count_concat(a: Seq<char>, b: Seq<char>, c: char)
    ensures
        count_char(a + b, c) == count_char(a, c) + count_char(b, c),
    decreases b.len(),
{
    if b.len() > 0 {
        lemma_count_concat(a, b.drop_last(), c);
        assert((a + b).drop_last() =~= a + b.drop_last());
    } else {
        assert(a + b =~= a);
    }
}

proof fn lemma_hex_has_no_dollar(v: nat, n: nat)
    ensures
        count_char(crate::text::hex_fixed(v, n), '$') == 0,
    decreases n,
{
    if n > 0 {
        lemma_hex_has_no_dollar(v / 16, (n - 1) as nat);
        let h = crate::text::hex_fixed(v, n);
        assert(h.drop_last() =~= crate::text::hex_fixed(v / 16, (n - 1) as nat));
    }
}

/// One entry of a file list: `$` and the file number in at least 3 hex
/// digits.
pub open spec fn file_entry(f: u16) -> Seq<char> {
    "$"@ + hex_padded(f as nat, 3)
}

/// A file list is the entry of every file, in order, joined with `", "`
/// (as `[..].join(", ")` builds it).
pub proof fn lemma_file_list_is_join(files: Seq<u16>)
    ensures
        file_list_text(files) == join_with(files.map_values(|f: u16| file_entry(f)), ", "@),
    decreases files.len(),
{
    reveal_strlit("$");
    reveal_strlit(", ");
    reveal_strlit(", $");
    let parts = files.map_values(|f: u16| file_entry(f));
    if files.len() == 1 {
        assert(parts[0] == file_entry(files[0]));
    } else if files.len() > 1 {
        lemma_file_list_is_join(files.drop_last());
        assert(parts.drop_last() =~= files.drop_last().map_values(|f: u16| file_entry(f)));
        assert(parts.last() == file_entry(files.last()));
        assert(", $"@ =~= ", "@ + "$"@);
        assert(file_list_text(files) =~= join_with(parts, ", "@));
    }
}

/// A file list names every file: it holds exactly one `$` per file, so
/// the "used by NO level" line has as many entries as there are unused
/// files.
pub proof fn lemma_file_list_entry_count(files: Seq<u16>)
    ensures
        count_char(file_list_text(files), '$') == files.len(),
    decreases files.len(),
{
    reveal_strlit("$");
    reveal_strlit(", $");
    if files.len() > 0 {
        let h = hex_padded(files.last() as nat, 3);
        lemma_hex_has_no_dollar(
            files.last() as nat,
            if 3 > crate::text::hex_len(files.last() as nat) {
                3
            } else {
                crate::text::hex_len(files.last() as nat)
            },
        );
        assert("$"@ =~= seq!['$']);
        assert(count_char(seq!['$'], '$') == 1) by {
            let t = seq!['$'];
            assert(t.drop_last() =~= Seq::<char>::empty());
            assert(count_char(Seq::<char>::empty(), '$') == 0);
            assert(t.last() == '$');
        }
        if files.len() == 1 {
            lemma_count_concat("$"@, h, '$');
        } else {
            lemma_file_list_entry_count(files.drop_last());
            assert(", $"@ =~= seq![',', ' ', '$']);
            assert(count_char(seq![',', ' ', '$'], '$') == 1) by {
                let t = seq![',', ' ', '$'];
                let t2 = seq![',', ' '];
                let t1 = seq![','];
                assert(t.drop_last() =~= t2);
                assert(t2.drop_last() =~= t1);
                assert(t1.drop_last() =~= Seq::<char>::empty());
                assert(count_char(Seq::<char>::empty(), '$') == 0);
                assert(count_char(t1, '$') == 0);
                assert(count_char(t2, '$') == 0);
            }
            lemma_count_concat(file_list_text(files.drop_last()), ", $"@, '$');
            lemma_count_concat(file_list_text(files.drop_last()) + ", $"@, h, '$');
        }
    }
}

/// The GFX/ExGFX section.
pub open spec fn gfx_section(r: ResourceReport) -> Seq<char> {
    let unused = unused_exgfx(r.options.gfx, r.exgfx_installed@, r.per_level@);
    if r.options.gfx {
        "== GFX/ExGFX files used in levels ==\n"@ + lines_upto(
            65536,
            |f: int| gfx_line(r.per_level@, f),
        ) + (if unused.len() > 0 {
            "\nInstalled ExGFX files used by NO level: "@ + file_list_text(unused) + "\n"@
        } else if r.exgfx_installed@.len() > 0 {
            "\nEvery installed ExGFX file is used by at least one level.\n"@
        } else {
            seq![]
        }) + "\n"@
    } else {
        seq![]
    }
}

/// The custom palette section.
pub open spec fn palette_section(r: ResourceReport) -> Seq<char> {
    let levels = levels_matching(r.per_level@, ResourceQuery::CustomPalette);
    if r.options.palettes {
        "== Custom palettes ("@ + decimal(levels.len()) + " level"@ + plural(levels.len())
            + " with a custom palette enabled) ==\n"@ + (if levels.len() == 0 {
            "(none)"@
        } else {
            level_list_text(levels)
        }) + "\n\n"@
    } else {
        seq![]
    }
}

/// Summary line of one level.
pub open spec fn level_line(r: ResourceReport, music_labels: Seq<String>, lv: LevelResources) -> Seq<
    char,
> {
    if !lv.scanned {
        "Level $"@ + hex_padded(lv.level as nat, 3) + ": could not parse\n"@
    } else {
        "Level $"@ + hex_padded(lv.level as nat, 3) + ": "@ + join_with(
            level_parts(lv, r.options, music_labels, true),
            " · "@,
        ) + "\n"@
    }
}

/// The per-level summary.
pub open spec fn per_level_section(r: ResourceReport, music_labels: Seq<String>) -> Seq<char> {
    "== Per-level summary ==\n"@ + lines_upto(
        r.per_level@.len() as int,
        |i: int| level_line(r, music_labels, r.per_level@[i]),
    )
}

/// The whole text report.
pub open spec fn text_report(r: ResourceReport, music_labels: Seq<String>) -> Seq<char> {
    report_header(r) + music_section(r, music_labels) + sprite_section(r) + map16_section(r)
        + gfx_section(r) + palette_section(r) + per_level_section(r, music_labels)
}

fn push_used_by(s: &mut String, levels: &Vec<u16>)
    ensures
        final(s)@ == old(s)@ + used_by(levels@) + ": "@ + level_list_text(levels@),
{
    s.append(" — used by ");
    push_decimal(s, levels.len() as u64);
    s.append(" level");
    if levels.len() != 1 {
        s.append("s");
    }
    s.append(": ");
    let list = level_list(levels.as_slice());
    s.append(list.as_str());
}

fn push_music_section(out: &mut String, report: &ResourceReport, music_labels: &Vec<String>)
    requires
        music_labels@.len() == 256,
    ensures
        final(out)@ == old(out)@ + music_section(*report, music_labels@),
{
    if !report.options.music {
        assert(old(out)@ + music_section(*report, music_labels@) =~= old(out)@);
        return;
    }
    let ghost start = out@;
    out.append("== Music tracks used in levels ==\n");
    let ghost head = out@;
    let tracks = report.used_music_tracks();
    let ghost f = |t: int| music_line(report.per_level@, music_labels@, t);
    let mut t: usize = 0;
    while t < 256
        invariant
            music_labels@.len() == 256,
            tracks@ == used_music_set(report.per_level@),
            f == (|t: int| music_line(report.per_level@, music_labels@, t)),
            t <= 256,
            out@ == head + lines_upto(t as int, f),
        decreases 256 - t,
    {
        let ghost before = out@;
        if tracks.contains(&(t as u8)) {
            let levels = report.levels_using_music(t as u8);
            out.append("Track ");
            out.append(music_labels[t].as_str());
            push_used_by(out, &levels);
            out.append("\n");
        }
        assert(out@ =~= before + f(t as int));
        t += 1;
    }
    match &report.submap_music {
        Some(submaps) => {
            out.append("\n-- Overworld submap music --\n");
            let ghost mid = out@;
            let ghost g = |i: int| submap_line(submaps@, i);
            let mut i: usize = 0;
            while i < 7
                invariant
                    g == (|i: int| submap_line(submaps@, i)),
                    i <= 7,
                    out@ == mid + lines_upto(i as int, g),
                decreases 7 - i,
            {
                let ghost before = out@;
                out.append("Submap ");
                push_decimal(out, i as u64);
                out.append(": SPC track $");
                push_hex(out, submaps[i] as u64, 2);
                out.append("\n");
                assert(out@ =~= before + g(i as int));
                i += 1;
            }
        },
        None => {},
    }
    out.append("\n");
    assert(out@ =~= start + music_section(*report, music_labels@));
}

fn push_sprite_section(out: &mut String, report: &ResourceReport)
    ensures
        final(out)@ == old(out)@ + sprite_section(*report),
{
    if !report.options.sprites {
        assert(old(out)@ + sprite_section(*report) =~= old(out)@);
        return;
    }
    let ghost start = out@;
    let sprites = report.used_sprites();
    out.append("== Sprites used in levels (");
    push_decimal(out, sprites.len() as u64);
    out.append(" distinct) ==\n");
    let ghost head = out@;
    let ghost f = |x: int| sprite_line(report.per_level@, x);
    let mut x: usize = 0;
    while x < 256
        invariant
            sprites@ == used_sprite_set(report.per_level@),
            f == (|x: int| sprite_line(report.per_level@, x)),
            x <= 256,
            out@ == head + lines_upto(x as int, f),
        decreases 256 - x,
    {
        let ghost before = out@;
        if sprites.contains(&(x as u8)) {
            let levels = report.levels_using_sprite(x as u8);
            out.append("Sprite $");
            push_hex(out, x as u64, 2);
            push_used_by(out, &levels);
            out.append("\n");
        }
        assert(out@ =~= before + f(x as int));
        x += 1;
    }
    out.append("\n");
    assert(out@ =~= start + sprite_section(*report));
}

fn push_map16_section(out: &mut String, report: &ResourceReport)
    ensures
        final(out)@ == old(out)@ + map16_section(*report),
{
    if !report.options.map16 {
        assert(old(out)@ + map16_section(*report) =~= old(out)@);
        return;
    }
    let ghost start = out@;
    let tiles = report.used_map16_tiles();
    out.append("== Map16 tiles used in levels (");
    push_decimal(out, tiles.len() as u64);
    out.append(" distinct; Layer 1 block maps, tile $0000 excluded) ==\n");
    let ghost head = out@;
    let ghost f = |t: int| map16_line(report.per_level@, t);
    let mut t: usize = 0;
    while t < 65536
        invariant
            tiles@ == used_map16_set(report.per_level@),
            f == (|t: int| map16_line(report.per_level@, t)),
            t <= 65536,
            out@ == head + lines_upto(t as int, f),
        decreases 65536 - t,
    {
        let ghost before = out@;
        if tiles.contains(&(t as u16)) {
            let levels = report.levels_using_map16(t as u16);
            out.append("Tile $");
            push_hex(out, t as u64, 4);
            push_used_by(out, &levels);
            out.append("\n");
        }
        assert(out@ =~= before + f(t as int));
        t += 1;
    }
    out.append("\n");
    assert(out@ =~= start + map16_section(*report));
}

fn report_slot_holds(per_level: &Vec<LevelResources>, i: usize, f: u16) -> (b: bool)
    requires
        i < 8,
    ensures
        b == slot_holds(per_level@, i as int, f),
{
    let mut j: usize = 0;
    while j < per_level.len()
        invariant
            i < 8,
            j <= per_level@.len(),
            forall|k: int|
                0 <= k < j ==> !(per_level@[k].scanned && #[trigger] slot_files(per_level@[k])[i as int]
                    == f),
        decreases per_level@.len() - j,
    {
        let r = &per_level[j];
        if r.scanned {
            let files = r.all_slot_files();
            if files[i] == f {
                assert(slot_files(per_level@[j as int])[i as int] == f);
                return true;
            }
        }
        j += 1;
    }
    false
}

fn push_gfx_line(out: &mut String, report: &ResourceReport, f: u16)
    requires
        used_gfx_set(report.per_level@).contains(f),
    ensures
        final(out)@ == old(out)@ + gfx_line(report.per_level@, f as int),
{
    let levels = report.levels_using_gfx_file(f);
    let mut slots = String::new();
    let mut count: usize = 0;
    let mut i: usize = 0;
    while i < 8
        invariant
            i <= 8,
            count == report_slots(report.per_level@, f, i as int).len(),
            count <= i,
            slots@ == join_with(report_slots(report.per_level@, f, i as int), "/"@),
        decreases 8 - i,
    {
        let ghost before = report_slots(report.per_level@, f, i as int);
        if report_slot_holds(&report.per_level, i, f) {
            proof {
                lemma_join_push(before, "/"@, slot_name_text(i as int));
                assert(report_slots(report.per_level@, f, i as int + 1) =~= before.push(
                    slot_name_text(i as int),
                ));
            }
            push_joined(&mut slots, count, "/", slot_name(i));
            count += 1;
        } else {
            assert(report_slots(report.per_level@, f, i as int + 1) =~= before);
        }
        i += 1;
    }
    let label = gfx_file_label(f);
    out.append(label.as_str());
    out.append(" — used by ");
    push_decimal(out, levels.len() as u64);
    out.append(" level");
    if levels.len() != 1 {
        out.append("s");
    }
    out.append(" (slots ");
    out.append(slots.as_str());
    out.append("): ");
    let list = level_list(levels.as_slice());
    out.append(list.as_str());
    out.append("\n");
}

fn push_file_list(out: &mut String, files: &Vec<u16>)
    ensures
        final(out)@ == old(out)@ + file_list_text(files@),
{
    let ghost start = out@;
    let mut i: usize = 0;
    while i < files.len()
        invariant
            i <= files@.len(),
            out@ == start + file_list_text(files@.take(i as int)),
        decreases files@.len() - i,
    {
        proof {
            assert(files@.take(i as int + 1).drop_last() =~= files@.take(i as int));
        }
        if i == 0 {
            out.append("$");
        } else {
            out.append(", $");
        }
        push_hex(out, files[i] as u64, 3);
        proof {
            if i == 0 {
                assert(files@.take(1) =~= seq![files@[0]]);
            }
            assert(out@ =~= start + file_list_text(files@.take(i as int + 1)));
        }
        i += 1;
    }
    assert(files@.take(i as int) =~= files@);
}

fn push_gfx_section(out: &mut String, report: &ResourceReport)
    ensures
        final(out)@ == old(out)@ + gfx_section(*report),
{
    if !report.options.gfx {
        assert(old(out)@ + gfx_section(*report) =~= old(out)@);
        return;
    }
    let ghost start = out@;
    out.append("== GFX/ExGFX files used in levels ==\n");
    let ghost head = out@;
    let files = report.used_gfx_files();
    let ghost g = |f: int| gfx_line(report.per_level@, f);
    let mut f: usize = 0;
    while f < 65536
        invariant
            files@ == used_gfx_set(report.per_level@),
            g == (|f: int| gfx_line(report.per_level@, f)),
            f <= 65536,
            out@ == head + lines_upto(f as int, g),
        decreases 65536 - f,
    {
        let ghost before = out@;
        if files.contains(&(f as u16)) {
            push_gfx_line(out, report, f as u16);
        }
        assert(out@ =~= before + g(f as int));
        f += 1;
    }
    let unused = report.unused_exgfx_files();
    if unused.len() > 0 {
        out.append("\nInstalled ExGFX files used by NO level: ");
        push_file_list(out, &unused);
        out.append("\n");
    } else if report.exgfx_installed.len() > 0 {
        out.append("\nEvery installed ExGFX file is used by at least one level.\n");
    }
    out.append("\n");
    assert(out@ =~= start + gfx_section(*report));
}

fn push_palette_section(out: &mut String, report: &ResourceReport)
    ensures
        final(out)@ == old(out)@ + palette_section(*report),
{
    if !report.options.palettes {
        assert(old(out)@ + palette_section(*report) =~= old(out)@);
        return;
    }
    let ghost start = out@;
    let levels = report.levels_with_custom_palette();
    out.append("== Custom palettes (");
    push_decimal(out, levels.len() as u64);
    out.append(" level");
    if levels.len() != 1 {
        out.append("s");
    }
    out.append(" with a custom palette enabled) ==\n");
    if levels.len() == 0 {
        out.append("(none)");
    } else {
        let list = level_list(levels.as_slice());
        out.append(list.as_str());
    }
    out.append("\n\n");
    assert(out@ =~= start + palette_section(*report));
}

fn push_per_level_section(out: &mut String, report: &ResourceReport, music_labels: &Vec<String>)
    requires
        music_labels@.len() == 256,
    ensures
        final(out)@ == old(out)@ + per_level_section(*report, music_labels@),
{
    let ghost start = out@;
    out.append("== Per-level summary ==\n");
    let ghost head = out@;
    let ghost g = |i: int| level_line(*report, music_labels@, report.per_level@[i]);
    let mut i: usize = 0;
    while i < report.per_level.len()
        invariant
            music_labels@.len() == 256,
            g == (|i: int| level_line(*report, music_labels@, report.per_level@[i])),
            i <= report.per_level@.len(),
            out@ == head + lines_upto(i as int, g),
        decreases report.per_level@.len() - i,
    {
        let ghost before = out@;
        let r = &report.per_level[i];
        out.append("Level $");
        push_hex(out, r.level as u64, 3);
        if !r.scanned {
            out.append(": could not parse\n");
        } else {
            out.append(": ");
            let parts = level_parts_text(r, report.options, music_labels, true);
            out.append(parts.as_str());
            out.append("\n");
        }
        assert(out@ =~= before + g(i as int));
        i += 1;
    }
    assert(out@ =~= start + per_level_section(*report, music_labels@));
}

/// The text report saved by "Save Text Report...".
pub fn format_text_report(report: &ResourceReport, music_labels: &Vec<String>) -> (text: String)
    requires
        music_labels@.len() == 256,
    ensures
        text@ == text_report(*report, music_labels@),
{
    let mut out = String::new();
    out.append("SMW Resource Analysis Report\n");
    out.append("Generated by smw-editor — Tools > Analyze Resources in Levels...\n");
    out.append("(Lunar Magic v3.03 parity; music-track reporting added in LM v3.20)\n");
    out.append("Levels scanned: ");
    push_decimal(&mut out, report.levels_scanned as u64);
    out.append(" (");
    push_decimal(&mut out, report.levels_skipped as u64);
    out.append(" skipped: unparseable data)\n\n");
    assert(out@ =~= report_header(*report));
    push_music_section(&mut out, report, music_labels);
    push_sprite_section(&mut out, report);
    push_map16_section(&mut out, report);
    push_gfx_section(&mut out, report);
    push_palette_section(&mut out, report);
    push_per_level_section(&mut out, report, music_labels);
    out
}

} // verus!
