//! Decisions of the main window: the level range typed into the batch PNG
//! export, and whether a save may go ahead past the object placement
//! check.

use crate::cli::{parse_u16_radix, parse_u32_from, parse_u32_radix};
use crate::text::{chars_of, trim, trim_chars};
use vstd::prelude::*;

verus! {

/// Number of levels in a ROM.
pub const LEVEL_COUNT: u16 = 0x200;

/// `s` without every leading copy of `p` (`str::trim_start_matches`).
pub open spec fn strip_all(s: Seq<char>, p: Seq<char>) -> Seq<char>
    decreases s.len(),
{
    if p.len() > 0 && s.len() >= p.len() && s.subrange(0, p.len() as int) == p {
        strip_all(s.subrange(p.len() as int, s.len() as int), p)
    } else {
        s
    }
}

/// A level number typed as hex: trimmed, then any leading `0x`, `$` and
/// `#` (in that order) dropped.
pub open spec fn level_hex_value(s: Seq<char>) -> Option<u16> {
    parse_u16_radix(strip_all(strip_all(strip_all(trim(s), "0x"@), "$"@), "#"@), 16)
}

fn strip_all_prefix(s: &Vec<char>, start: usize, p: &str) -> (end: usize)
    requires
        start <= s@.len(),
    ensures
        start <= end <= s@.len(),
        s@.subrange(end as int, s@.len() as int) == strip_all(
            s@.subrange(start as int, s@.len() as int),
            p@,
        ),
    decreases s@.len() - start,
{
    let pc = chars_of(p);
    let m = pc.len();
    let n = s.len();
    if m == 0 || n - start < m {
        return start;
    }
    let mut j: usize = 0;
    while j < m
        invariant
            m == pc@.len(),
            pc@ == p@,
            start + m <= n,
            n == s@.len(),
            j <= m,
            forall|k: int| 0 <= k < j ==> s@[start + k] == pc@[k],
        decreases m - j,
    {
        if s[start + j] != pc[j] {
            proof {
                assert(s@.subrange(start as int, n as int).subrange(0, m as int)[j as int] != p@[j as int]);
            }
            return start;
        }
        j += 1;
    }
    proof {
        let t = s@.subrange(start as int, n as int);
        assert(t.subrange(0, m as int) =~= p@);
        assert(t.subrange(m as int, t.len() as int) =~= s@.subrange(start + m, n as int));
    }
    strip_all_prefix(s, start + m, p)
}

/// Parse a hex level number as the batch export reads it.
pub fn parse_level_hex(s: &str) -> (v: Option<u16>)
    ensures
        v == level_hex_value(s@),
{
    let t = trim_chars(&chars_of(s));
    let a = strip_all_prefix(&t, 0, "0x");
    assert(t@.subrange(0, t@.len() as int) =~= t@);
    let b = strip_all_prefix(&t, a, "$");
    let c = strip_all_prefix(&t, b, "#");
    crate::cli::parse_u16_from(&t, c, 16)
}

/// The batch export's level range, or the message it shows instead.
pub open spec fn batch_range_result(from: Seq<char>, to: Seq<char>) -> Result<(u16, u16), Seq<char>> {
    match (level_hex_value(from), level_hex_value(to)) {
        (Some(f), Some(t)) => if f > t || t >= LEVEL_COUNT {
            Err("Range must satisfy 000 ≤ from ≤ to ≤ 1FF."@)
        } else {
            Ok((f, t))
        },
        _ => Err("Invalid level range — enter hex numbers like 000 and 1FF."@),
    }
}

/// Check the level range typed into the batch PNG export.
pub fn batch_level_range(from: &str, to: &str) -> (res: Result<(u16, u16), String>)
    ensures
        match (res, batch_range_result(from@, to@)) {
            (Ok(r), Ok(e)) => r == e,
            (Err(m), Err(e)) => m@ == e,
            _ => false,
        },
{
    let f = parse_level_hex(from);
    let t = parse_level_hex(to);
    match (f, t) {
        (Some(f), Some(t)) => {
            if f > t || t >= LEVEL_COUNT {
                let mut msg = String::new();
                msg.append("Range must satisfy 000 ≤ from ≤ to ≤ 1FF.");
                Err(msg)
            } else {
                Ok((f, t))
            }
        },
        _ => {
            let mut msg = String::new();
            msg.append("Invalid level range — enter hex numbers like 000 and 1FF.");
            Err(msg)
        },
    }
}

/// Outcome of the on-save object placement check.
#[derive(Clone, Copy, Debug, PartialEq, Eq, Structural)]
pub enum PlacementCheck {
    /// The save goes ahead.
    Proceed,
    /// The warning dialog must ask the user first.
    Warn,
}

/// Decide the on-save placement check: it passes when the check is off,
/// when the user already chose "Save anyway" (which is used up), or when
/// no open tab has a placement issue. Returns the outcome and the new
/// "save anyway" flag.
pub fn placement_check(check_on_save: bool, save_confirmed: bool, issue_count: usize) -> (r: (
    PlacementCheck,
    bool,
))
    ensures
        r == (if !check_on_save {
            (PlacementCheck::Proceed, save_confirmed)
        } else if save_confirmed {
            (PlacementCheck::Proceed, false)
        } else if issue_count == 0 {
            (PlacementCheck::Proceed, false)
        } else {
            (PlacementCheck::Warn, false)
        }),
{
    if !check_on_save {
        return (PlacementCheck::Proceed, save_confirmed);
    }
    if save_confirmed {
        return (PlacementCheck::Proceed, false);
    }
    if issue_count == 0 {
        return (PlacementCheck::Proceed, false);
    }
    (PlacementCheck::Warn, false)
}


/// The PC address typed into "Open Level From Address": trimmed, then hex
/// after an optional `0x` or `0X` prefix.
pub open spec fn level_address_value(s: Seq<char>) -> Option<u32> {
    let t = trim(s);
    if t.len() >= 2 && t[0] == '0' && (t[1] == 'x' || t[1] == 'X') {
        parse_u32_radix(t.subrange(2, t.len() as int), 16)
    } else {
        parse_u32_radix(t, 16)
    }
}

/// Parse the address typed into "Open Level From Address"; `None` when it
/// is not a hex number that fits in 32 bits.
pub fn parse_level_address(text: &str) -> (pc: Option<u32>)
    ensures
        pc == level_address_value(text@),
{
    let t = trim_chars(&chars_of(text));
    if t.len() >= 2 && t[0] == '0' && (t[1] == 'x' || t[1] == 'X') {
        parse_u32_from(&t, 2, 16)
    } else {
        assert(t@.subrange(0, t@.len() as int) =~= t@);
        parse_u32_from(&t, 0, 16)
    }
}

} // verus!
