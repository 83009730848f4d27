//! The command line: option values, the ROM path and the `--level=` number
//! of the headless mode, and the listing of a level's layer 1 objects it
//! prints.

use crate::level_editor::object_layer::RawObject;
use vstd::prelude::*;

verus! {

/// Value of an ASCII digit or letter as a digit (`a`/`A` = 10 ...), or 36
/// for any other character.
pub open spec fn digit_value(c: char) -> int {
    if '0' <= c <= '9' {
        c as int - '0' as int
    } else if 'a' <= c <= 'z' {
        c as int - 'a' as int + 10
    } else if 'A' <= c <= 'Z' {
        c as int - 'A' as int + 10
    } else {
        36
    }
}

/// Every character of `s` is a digit below `radix`.
pub open spec fn all_digits(s: Seq<char>, radix: int) -> bool {
    forall|i: int| 0 <= i < s.len() ==> #[trigger] digit_value(s[i]) < radix
}

/// The number the digits `s` write in base `radix`.
pub open spec fn digits_value(s: Seq<char>, radix: int) -> int
    decreases s.len(),
{
    if s.len() == 0 {
        0
    } else {
        digits_value(s.drop_last(), radix) * radix + digit_value(s.last())
    }
}

/// `u16::from_str_radix(s, radix)` for radix 10 or 16: an optional `+`
/// followed by at least one digit, the value fitting in 16 bits.
pub open spec fn parse_u16_radix(s: Seq<char>, radix: int) -> Option<u16> {
    let d = if s.len() > 1 && s[0] == '+' {
        s.drop_first()
    } else {
        s
    };
    if d.len() > 0 && all_digits(d, radix) && digits_value(d, radix) <= 65535 {
        Some(digits_value(d, radix) as u16)
    } else {
        None
    }
}

/// A `--level=` value: hex after a `0x` prefix, decimal otherwise.
pub open spec fn level_arg_value(s: Seq<char>) -> Option<u16> {
    if s.len() >= 2 && s[0] == '0' && s[1] == 'x' {
        parse_u16_radix(s.subrange(2, s.len() as int), 16)
    } else {
        parse_u16_radix(s, 10)
    }
}

proof fn lemma_digits_value_grows(s: Seq<char>, radix: int, k: int, j: int)
    requires
        radix >= 1,
        0 <= k <= j <= s.len(),
        all_digits(s, radix),
    ensures
        0 <= digits_value(s.take(k), radix) <= digits_value(s.take(j), radix),
    decreases j - k,
{
    if k < j {
        lemma_digits_value_grows(s, radix, k, j - 1);
        assert(s.take(j).drop_last() =~= s.take(j - 1));
        assert(digit_value(s[j - 1]) >= 0);
        assert(digits_value(s.take(j - 1), radix) * radix >= digits_value(s.take(j - 1), radix))
            by (nonlinear_arith)
            requires
                radix >= 1,
                digits_value(s.take(j - 1), radix) >= 0,
        ;
    } else {
        lemma_digits_value_nonneg(s.take(k), radix);
    }
}

proof fn lemma_digits_value_nonneg(s: Seq<char>, radix: int)
    requires
        radix >= 1,
        all_digits(s, radix),
    ensures
        digits_value(s, radix) >= 0,
    decreases s.len(),
{
    if s.len() > 0 {
        assert(all_digits(s.drop_last(), radix)) by {
            assert forall|i: int| 0 <= i < s.drop_last().len() implies #[trigger] digit_value(
                s.drop_last()[i],
            ) < radix by {
                assert(digit_value(s[i]) < radix);
            }
        }
        lemma_digits_value_nonneg(s.drop_last(), radix);
        assert(digit_value(s.last()) >= 0);
        assert(digits_value(s.drop_last(), radix) * radix >= 0) by (nonlinear_arith)
            requires
                radix >= 1,
                digits_value(s.drop_last(), radix) >= 0,
        ;
    }
}

fn digit_of(c: char) -> (d: u32)
    ensures
        d == digit_value(c),
{
    if '0' <= c && c <= '9' {
        (c as u32) - ('0' as u32)
    } else if 'a' <= c && c <= 'z' {
        (c as u32) - ('a' as u32) + 10
    } else if 'A' <= c && c <= 'Z' {
        (c as u32) - ('A' as u32) + 10
    } else {
        36
    }
}

/// `u16::from_str_radix` on the characters `s[start..]`, radix 10 or 16.
pub(crate) fn parse_u16_from(s: &Vec<char>, start: usize, radix: u32) -> (v: Option<u16>)
    requires
        radix == 10 || radix == 16,
        start <= s@.len(),
    ensures
        v == parse_u16_radix(s@.subrange(start as int, s@.len() as int), radix as int),
{
    let ghost t = s@.subrange(start as int, s@.len() as int);
    let n = s.len();
    let mut i = start;
    if n - start > 1 && s[start] == '+' {
        i = start + 1;
    }
    let ghost d = s@.subrange(i as int, n as int);
    assert(d == if t.len() > 1 && t[0] == '+' {
        t.drop_first()
    } else {
        t
    });
    if i == n {
        return None;
    }
    let mut v: u32 = 0;
    let mut k: usize = i;
    while k < n
        invariant
            n == s@.len(),
            i <= k <= n,
            i < n,
            radix == 10 || radix == 16,
            d == s@.subrange(i as int, n as int),
            t == s@.subrange(start as int, n as int),
            d == if t.len() > 1 && t[0] == '+' {
                t.drop_first()
            } else {
                t
            },
            all_digits(d.take(k - i), radix as int),
            v == digits_value(d.take(k - i), radix as int),
            v <= 65535,
        decreases n - k,
    {
        let c = s[k];
        let dv = digit_of(c);
        if dv >= radix {
            assert(d[k - i] == c);
            assert(!all_digits(d, radix as int));
            return None;
        }
        proof {
            assert(d.take(k - i + 1).drop_last() =~= d.take(k - i));
            assert(d.take(k - i + 1).last() == c);
            assert(all_digits(d.take(k - i + 1), radix as int)) by {
                assert forall|j: int| 0 <= j < d.take(k - i + 1).len() implies #[trigger] digit_value(
                    d.take(k - i + 1)[j],
                ) < radix by {
                    if j < k - i {
                        assert(d.take(k - i)[j] == d.take(k - i + 1)[j]);
                    }
                }
            }
        }
        v = v * radix + dv;
        if v > 65535 {
            proof {
                if all_digits(d, radix as int) {
                    lemma_digits_value_grows(d, radix as int, k - i + 1, d.len() as int);
                    assert(d.take(d.len() as int) =~= d);
                }
            }
            return None;
        }
        k += 1;
    }
    assert(d.take(k - i) =~= d);
    Some(v as u16)
}

/// `u32::from_str_radix(s, radix)` for radix 10 or 16: an optional `+`
/// followed by at least one digit, the value fitting in 32 bits.
pub open spec fn parse_u32_radix(s: Seq<char>, radix: int) -> Option<u32> {
    let d = if s.len() > 1 && s[0] == '+' {
        s.drop_first()
    } else {
        s
    };
    if d.len() > 0 && all_digits(d, radix) && digits_value(d, radix) <= u32::MAX {
        Some(digits_value(d, radix) as u32)
    } else {
        None
    }
}

/// `u32::from_str_radix` on the characters `s[start..]`, radix 10 or 16.
pub(crate) fn parse_u32_from(s: &Vec<char>, start: usize, radix: u32) -> (v: Option<u32>)
    requires
        radix == 10 || radix == 16,
        start <= s@.len(),
    ensures
        v == parse_u32_radix(s@.subrange(start as int, s@.len() as int), radix as int),
{
    let ghost t = s@.subrange(start as int, s@.len() as int);
    let n = s.len();
    let mut i = start;
    if n - start > 1 && s[start] == '+' {
        i = start + 1;
    }
    let ghost d = s@.subrange(i as int, n as int);
    assert(d == if t.len() > 1 && t[0] == '+' {
        t.drop_first()
    } else {
        t
    });
    if i == n {
        return None;
    }
    let mut v: u64 = 0;
    let mut k: usize = i;
    while k < n
        invariant
            n == s@.len(),
            i <= k <= n,
            i < n,
            radix == 10 || radix == 16,
            d == s@.subrange(i as int, n as int),
            t == s@.subrange(start as int, n as int),
            d == if t.len() > 1 && t[0] == '+' {
                t.drop_first()
            } else {
                t
            },
            all_digits(d.take(k - i), radix as int),
            v == digits_value(d.take(k - i), radix as int),
            v <= u32::MAX,
        decreases n - k,
    {
        let c = s[k];
        let dv = digit_of(c);
        if dv >= radix {
            assert(d[k - i] == c);
            assert(!all_digits(d, radix as int));
            return None;
        }
        proof {
            assert(d.take(k - i + 1).drop_last() =~= d.take(k - i));
            assert(d.take(k - i + 1).last() == c);
            assert(all_digits(d.take(k - i + 1), radix as int)) by {
                assert forall|j: int| 0 <= j < d.take(k - i + 1).len() implies #[trigger] digit_value(
                    d.take(k - i + 1)[j],
                ) < radix by {
                    if j < k - i {
                        assert(d.take(k - i)[j] == d.take(k - i + 1)[j]);
                    }
                }
            }
        }
        assert(v * radix + dv <= 16 * 0xFFFF_FFFFu64 + 16) by (nonlinear_arith)
            requires
                v <= 0xFFFF_FFFFu64,
                radix <= 16,
                dv < radix,
        ;
        v = v * (radix as u64) + (dv as u64);
        if v > 0xFFFF_FFFF {
            proof {
                if all_digits(d, radix as int) {
                    lemma_digits_value_grows(d, radix as int, k - i + 1, d.len() as int);
                    assert(d.take(d.len() as int) =~= d);
                }
            }
            return None;
        }
        k += 1;
    }
    assert(d.take(k - i) =~= d);
    Some(v as u32)
}

/// `s` starts with `p`.
pub open spec fn has_prefix(s: Seq<char>, p: Seq<char>) -> bool {
    s.len() >= p.len() && s.subrange(0, p.len() as int) == p
}

/// The value of option `name` among `args` (program name excluded): the
/// rest of the first argument that starts with `name=`, or the argument
/// after the first one equal to `name`, whichever comes first; `default`
/// when there is neither or nothing follows `name`.
pub open spec fn arg_value(args: Seq<Seq<char>>, name: Seq<char>, default: Seq<char>) -> Seq<char>
    decreases args.len(),
{
    if args.len() == 0 {
        default
    } else {
        let a = args[0];
        let p = name + "="@;
        if has_prefix(a, p) {
            a.subrange(p.len() as int, a.len() as int)
        } else if a == name {
            if args.len() > 1 {
                args[1]
            } else {
                default
            }
        } else {
            arg_value(args.drop_first(), name, default)
        }
    }
}

fn starts_with(s: &Vec<char>, p: &Vec<char>) -> (b: bool)
    ensures
        b == has_prefix(s@, p@),
{
    if s.len() < p.len() {
        return false;
    }
    let mut i: usize = 0;
    while i < p.len()
        invariant
            p@.len() <= s@.len(),
            i <= p@.len(),
            forall|k: int| 0 <= k < i ==> s@[k] == p@[k],
        decreases p@.len() - i,
    {
        if s[i] != p[i] {
            assert(s@.subrange(0, p@.len() as int)[i as int] != p@[i as int]);
            return false;
        }
        i += 1;
    }
    assert(s@.subrange(0, p@.len() as int) =~= p@);
    true
}

/// The value of option `name` among the command-line arguments `args`
/// (program name excluded), or `default`.
pub fn arg(args: &Vec<String>, name: &str, default: &str) -> (v: String)
    ensures
        v@ == arg_value(args@.map_values(|s: String| s@), name@, default@),
{
    let ghost all = args@.map_values(|s: String| s@);
    let mut prefix = String::from_str(name);
    prefix.append("=");
    let pc = crate::text::chars_of(prefix.as_str());
    let nc = crate::text::chars_of(name);
    let mut i: usize = 0;
    assert(all.subrange(0, all.len() as int) =~= all);
    while i < args.len()
        invariant
            all == args@.map_values(|s: String| s@),
            pc@ == name@ + "="@,
            nc@ == name@,
            i <= args@.len(),
            arg_value(all, name@, default@) == arg_value(all.subrange(i as int, all.len() as int), name@, default@),
        decreases args@.len() - i,
    {
        let a = args[i].as_str();
        let ac = crate::text::chars_of(a);
        let ghost rest = all.subrange(i as int, all.len() as int);
        assert(rest[0] == a@);
        if starts_with(&ac, &pc) {
            let v = a.substring_char(pc.len(), ac.len());
            return String::from_str(v);
        }
        if ac.len() == nc.len() && starts_with(&ac, &nc) {
            assert(a@ =~= name@) by {
                assert(a@.subrange(0, name@.len() as int) == name@);
                assert(a@.subrange(0, name@.len() as int) =~= a@);
            }
            if i + 1 < args.len() {
                assert(rest[1] == all[i + 1]);
                return String::from_str(args[i + 1].as_str());
            }
            return String::from_str(default);
        }
        proof {
            if a@ == name@ {
                assert(has_prefix(ac@, nc@)) by {
                    assert(a@.subrange(0, name@.len() as int) =~= a@);
                }
            }
            assert(rest.drop_first() =~= all.subrange(i as int + 1, all.len() as int));
        }
        i += 1;
    }
    String::from_str(default)
}

/// Parse a `--level=` value: `0x` then hex digits, or decimal digits,
/// either optionally after a `+`; `None` unless it fits in 16 bits.
pub fn parse_level_arg(value: &str) -> (level: Option<u16>)
    ensures
        level == level_arg_value(value@),
{
    let s = crate::text::chars_of(value);
    if s.len() >= 2 && s[0] == '0' && s[1] == 'x' {
        parse_u16_from(&s, 2, 16)
    } else {
        let v = parse_u16_from(&s, 0, 10);
        assert(s@.subrange(0, s@.len() as int) =~= s@);
        v
    }
}

/// The rest of the first of `args` that starts with `p`, if any does.
pub open spec fn first_with_prefix(args: Seq<Seq<char>>, p: Seq<char>) -> Option<Seq<char>>
    decreases args.len(),
{
    if args.len() == 0 {
        None
    } else if has_prefix(args[0], p) {
        Some(args[0].subrange(p.len() as int, args[0].len() as int))
    } else {
        first_with_prefix(args.drop_first(), p)
    }
}

fn find_prefixed(args: &Vec<String>, p: &str) -> (r: Option<String>)
    ensures
        match r {
            Some(v) => first_with_prefix(args@.map_values(|s: String| s@), p@) == Some(v@),
            None => first_with_prefix(args@.map_values(|s: String| s@), p@) is None,
        },
{
    let ghost all = args@.map_values(|s: String| s@);
    let pc = crate::text::chars_of(p);
    let mut i: usize = 0;
    assert(all.subrange(0, all.len() as int) =~= all);
    while i < args.len()
        invariant
            all == args@.map_values(|s: String| s@),
            pc@ == p@,
            i <= args@.len(),
            first_with_prefix(all, p@) == first_with_prefix(all.subrange(i as int, all.len() as int), p@),
        decreases args@.len() - i,
    {
        let a = args[i].as_str();
        let ac = crate::text::chars_of(a);
        let ghost rest = all.subrange(i as int, all.len() as int);
        assert(rest[0] == a@);
        if starts_with(&ac, &pc) {
            let v = a.substring_char(pc.len(), ac.len());
            return Some(String::from_str(v));
        }
        assert(rest.drop_first() =~= all.subrange(i as int + 1, all.len() as int));
        i += 1;
    }
    None
}

/// The level the headless mode lists: the first `--level=` argument's
/// value, or level 0 when there is none or it does not parse.
pub open spec fn nogui_level(args: Seq<Seq<char>>) -> u16 {
    match first_with_prefix(args, "--level="@) {
        Some(v) => match level_arg_value(v) {
            Some(l) => l,
            None => 0,
        },
        None => 0,
    }
}

/// The level number that the command line `args` asks the headless mode
/// for.
pub fn level_from_args(args: &Vec<String>) -> (level: u16)
    ensures
        level == nogui_level(args@.map_values(|s: String| s@)),
{
    match find_prefixed(args, "--level=") {
        Some(v) => match parse_level_arg(v.as_str()) {
            Some(l) => l,
            None => 0,
        },
        None => 0,
    }
}

/// The ROM to open: the value of the first `--rom=` argument unless it is
/// empty, else the `ROM_PATH` environment value unless it is empty or unset.
pub open spec fn rom_path_choice(args: Seq<Seq<char>>, env_rom_path: Option<Seq<char>>) -> Option<Seq<char>> {
    match first_with_prefix(args, "--rom="@) {
        Some(v) if v.len() > 0 => Some(v),
        _ => match env_rom_path {
            Some(e) if e.len() > 0 => Some(e),
            _ => None,
        },
    }
}

/// An optional string, by its characters.
pub open spec fn string_opt_view(o: Option<String>) -> Option<Seq<char>> {
    match o {
        Some(e) => Some(e@),
        None => None,
    }
}

/// Pick the ROM path from the command line `args` and the value of the
/// `ROM_PATH` environment variable (`None` when it is unset).
pub fn resolve_rom_path(args: &Vec<String>, env_rom_path: Option<String>) -> (path: Option<String>)
    ensures
        match path {
            Some(v) => rom_path_choice(args@.map_values(|s: String| s@), string_opt_view(env_rom_path))
                == Some(v@),
            None => rom_path_choice(args@.map_values(|s: String| s@), string_opt_view(env_rom_path)) is None,
        },
{
    if let Some(a) = find_prefixed(args, "--rom=") {
        if a.as_str().unicode_len() > 0 {
            return Some(a);
        }
    }
    if let Some(e) = env_rom_path {
        if e.as_str().unicode_len() > 0 {
            return Some(e);
        }
    }
    None
}


/// Rows of the object listing printed at most.
pub const LISTED_OBJECTS: usize = 25;

/// One printed row of the object listing.
#[derive(Clone, Copy, Debug, PartialEq, Eq, Structural)]
pub struct ObjectRow {
    pub screen: u32,
    pub local_x: u32,
    pub local_y: u32,
    pub abs_x: u32,
    pub abs_y: u32,
    pub is_extended: bool,
    /// The standard object number, or the settings byte of an extended
    /// object.
    pub number: u8,
    pub settings: u8,
}

/// The layer 1 object listing of a level: the first rows and the counts of
/// each kind of object.
#[derive(Clone, Debug)]
pub struct ObjectListing {
    pub rows: Vec<ObjectRow>,
    pub standard: usize,
    pub extended: usize,
    pub exits: usize,
    pub screen_jumps: usize,
}

/// The row of a placed object on screen `screen`.
pub open spec fn object_row(o: RawObject, screen: int, vertical: bool) -> ObjectRow {
    let (lx, ly) = if vertical {
        (o.y as int, o.x as int)
    } else {
        (o.x as int, o.y as int)
    };
    ObjectRow {
        screen: screen as u32,
        local_x: lx as u32,
        local_y: ly as u32,
        abs_x: (lx + if vertical {
            0
        } else {
            screen * 16
        }) as u32,
        abs_y: (ly + if vertical {
            screen * 16
        } else {
            0
        }) as u32,
        is_extended: o.is_extended,
        number: if o.is_extended {
            o.settings
        } else {
            o.standard_object_number
        },
        settings: o.settings,
    }
}

/// Listing state after the first `k` objects: current screen (saturating
/// at `u32::MAX`), counts of standard objects, extended objects, exits and
/// screen jumps, and the rows (at most `LISTED_OBJECTS`).
pub open spec fn listing_upto(raw: Seq<RawObject>, vertical: bool, k: int) -> (
    int,
    int,
    int,
    int,
    int,
    Seq<ObjectRow>,
)
    decreases k,
{
    if k <= 0 {
        (0, 0, 0, 0, 0, seq![])
    } else {
        let (screen, standard, extended, exits, jumps, rows) = listing_upto(raw, vertical, k - 1);
        let o = raw[k - 1];
        if o.is_exit {
            (screen, standard, extended, exits + 1, jumps, rows)
        } else if o.is_screen_jump {
            (o.screen_number as int, standard, extended, exits, jumps + 1, rows)
        } else {
            let s = if o.is_new_screen && screen < u32::MAX {
                screen + 1
            } else {
                screen
            };
            let rows2 = if rows.len() < 25 {
                rows.push(object_row(o, s, vertical))
            } else {
                rows
            };
            if o.is_extended {
                (s, standard, extended + 1, exits, jumps, rows2)
            } else {
                (s, standard + 1, extended, exits, jumps, rows2)
            }
        }
    }
}

/// List a level's layer 1 objects: the first `LISTED_OBJECTS` placed
/// objects with their screen and positions, and how many objects of each
/// kind there are.
pub fn list_layer1_objects(objects: &Vec<RawObject>, is_vertical: bool) -> (listing: ObjectListing)
    requires
        objects@.len() <= 0x0FFF_FE00,
    ensures
        ({
            let (_, standard, extended, exits, jumps, rows) = listing_upto(
                objects@,
                is_vertical,
                objects@.len() as int,
            );
            &&& listing.rows@ == rows
            &&& listing.standard == standard
            &&& listing.extended == extended
            &&& listing.exits == exits
            &&& listing.screen_jumps == jumps
        }),
{
    let mut current_screen: u32 = 0;
    let mut standard: usize = 0;
    let mut extended: usize = 0;
    let mut exits: usize = 0;
    let mut screen_jumps: usize = 0;
    let mut rows: Vec<ObjectRow> = Vec::new();
    let mut i: usize = 0;
    while i < objects.len()
        invariant
            objects@.len() <= 0x0FFF_FE00,
            i <= objects@.len(),
            listing_upto(objects@, is_vertical, i as int) == (
                current_screen as int,
                standard as int,
                extended as int,
                exits as int,
                screen_jumps as int,
                rows@,
            ),
            current_screen <= 255 + i,
            standard + extended + exits + screen_jumps == i,
        decreases objects@.len() - i,
    {
        let obj = objects[i];
        if obj.is_exit {
            exits += 1;
        } else if obj.is_screen_jump {
            screen_jumps += 1;
            current_screen = obj.screen_number as u32;
        } else {
            if obj.is_new_screen && current_screen < u32::MAX {
                current_screen = current_screen + 1;
            }
            let (local_x, local_y) = if is_vertical {
                (obj.y as u32, obj.x as u32)
            } else {
                (obj.x as u32, obj.y as u32)
            };
            assert(current_screen * 16 + 255 <= u32::MAX);
            let abs_x = local_x + if is_vertical { 0 } else { current_screen * 16 };
            let abs_y = local_y + if is_vertical { current_screen * 16 } else { 0 };
            if obj.is_extended {
                extended += 1;
            } else {
                standard += 1;
            }
            if rows.len() < LISTED_OBJECTS {
                rows.push(
                    ObjectRow {
                        screen: current_screen,
                        local_x,
                        local_y,
                        abs_x,
                        abs_y,
                        is_extended: obj.is_extended,
                        number: if obj.is_extended {
                            obj.settings
                        } else {
                            obj.standard_object_number
                        },
                        settings: obj.settings,
                    },
                );
            }
        }
        i += 1;
    }
    ObjectListing { rows, standard, extended, exits, screen_jumps }
}

} // verus!
