//! Field accessors for the 4-byte vanilla secondary-entrance records.
//!
//! Layout: byte 0 holds the low 8 bits of the destination level and byte 3
//! bit 3 its ninth bit; byte 2 holds the screen (bits 0-4) and the X
//! position (bits 5-7); byte 1 holds the Y position (bits 0-3), the FG
//! initial position (bits 4-5) and the BG initial position (bits 6-7).

use crate::bits::lemma_u8_fields;
use crate::cli::{parse_u16_from, parse_u16_radix};
use crate::text::{join_with, lemma_join_push, push_joined, trim, trim_chars};
use vstd::prelude::*;

verus! {

/// Destination level of a record.
pub open spec fn destination_level(b: Seq<u8>) -> int {
    b[0] + 256 * ((b[3] / 8) % 2)
}

/// Destination screen of a record.
pub open spec fn screen(b: Seq<u8>) -> int {
    (b[2] % 32) as int
}

/// X position of a record.
pub open spec fn x_pos(b: Seq<u8>) -> int {
    (b[2] / 32) as int
}

/// Y position of a record.
pub open spec fn y_pos(b: Seq<u8>) -> int {
    (b[1] % 16) as int
}

/// FG initial position of a record.
pub open spec fn fg_initial_pos(b: Seq<u8>) -> int {
    ((b[1] / 16) % 4) as int
}

/// BG initial position of a record.
pub open spec fn bg_initial_pos(b: Seq<u8>) -> int {
    (b[1] / 64) as int
}

/// The bits of byte 3 that are not part of the destination level.
pub open spec fn byte3_other_bits(b: Seq<u8>) -> int {
    b[3] - 8 * ((b[3] / 8) % 2)
}

/// `b` with the destination level set to the low 9 bits of `level`.
pub open spec fn with_destination_level(b: Seq<u8>, level: int) -> Seq<u8> {
    b.update(0, (level % 256) as u8).update(3, (byte3_other_bits(b) + 8 * ((level / 256) % 2)) as u8)
}

/// `b` with the screen set to the low 5 bits of `s`.
pub open spec fn with_screen(b: Seq<u8>, s: int) -> Seq<u8> {
    b.update(2, (32 * x_pos(b) + s % 32) as u8)
}

/// `b` with the X and Y positions set to the low 3 bits of `x` and the low
/// 4 bits of `y`.
pub open spec fn with_xy(b: Seq<u8>, x: int, y: int) -> Seq<u8> {
    b.update(2, (32 * (x % 8) + screen(b)) as u8).update(1, (16 * (b[1] / 16) + y % 16) as u8)
}

/// `b` with the FG initial position set to the low 2 bits of `fg`.
pub open spec fn with_fg_initial_pos(b: Seq<u8>, fg: int) -> Seq<u8> {
    b.update(1, (64 * bg_initial_pos(b) + 16 * (fg % 4) + y_pos(b)) as u8)
}

/// `b` with the BG initial position set to the low 2 bits of `bg`.
pub open spec fn with_bg_initial_pos(b: Seq<u8>, bg: int) -> Seq<u8> {
    b.update(1, (64 * (bg % 4) + b[1] % 64) as u8)
}

pub fn se_destination_level(b: &[u8; 4]) -> (level: u16)
    ensures
        level == destination_level(b@),
{
    let hi = (b[3] as u16 & 0b1000) << 5u16;
    let lo = b[0] as u16;
    let b0 = b[0];
    let b3 = b[3];
    assert(((b3 as u16 & 0b1000) << 5u16) | (b0 as u16) == b0 + 256 * ((b3 / 8) % 2)) by (bit_vector);
    hi | lo
}

pub fn se_screen(b: &[u8; 4]) -> (s: u8)
    ensures
        s == screen(b@),
{
    let b2 = b[2];
    proof {
        lemma_u8_fields();
    }
    assert(b2 & 0b11111 == b2 % 32);
    b[2] & 0b11111
}

pub fn se_x(b: &[u8; 4]) -> (x: u8)
    ensures
        x == x_pos(b@),
{
    let b2 = b[2];
    proof {
        lemma_u8_fields();
    }
    assert(b2 >> 5u8 == b2 / 32);
    b[2] >> 5u8
}

pub fn se_y(b: &[u8; 4]) -> (y: u8)
    ensures
        y == y_pos(b@),
{
    let b1 = b[1];
    proof {
        lemma_u8_fields();
    }
    assert(b1 & 0b1111 == b1 % 16);
    b[1] & 0b1111
}

pub fn se_fg_initial_pos(b: &[u8; 4]) -> (fg: u8)
    ensures
        fg == fg_initial_pos(b@),
{
    let b1 = b[1];
    proof {
        lemma_u8_fields();
    }
    assert((b1 >> 4u8) & 0b11 == (b1 / 16) % 4);
    (b[1] >> 4u8) & 0b11
}

pub fn se_bg_initial_pos(b: &[u8; 4]) -> (bg: u8)
    ensures
        bg == bg_initial_pos(b@),
{
    let b1 = b[1];
    proof {
        lemma_u8_fields();
    }
    assert(b1 >> 6u8 == b1 / 64);
    b[1] >> 6u8
}

pub fn se_set_destination_level(b: &mut [u8; 4], level: u16)
    ensures
        final(b)@ == with_destination_level(old(b)@, level as int),
{
    let b3 = b[3];
    assert((level & 0xFF) as u8 == level % 256) by (bit_vector);
    assert((b3 & !0x08u8) | ((((level >> 8u16) & 1) as u8) << 3u8) == (b3 - 8 * ((b3 / 8) % 2)) + 8 * ((
    level / 256) % 2)) by (bit_vector);
    b[0] = (level & 0xFF) as u8;
    b[3] = (b[3] & !0x08u8) | ((((level >> 8u16) & 1) as u8) << 3u8);
    assert(b@ =~= with_destination_level(old(b)@, level as int));
}

pub fn se_set_screen(b: &mut [u8; 4], screen: u8)
    ensures
        final(b)@ == with_screen(old(b)@, screen as int),
{
    let b2 = b[2];
    assert((b2 & 0xE0) | (screen & 0x1F) == 32 * (b2 / 32) + screen % 32) by (bit_vector);
    b[2] = (b[2] & 0xE0) | (screen & 0x1F);
    assert(b@ =~= with_screen(old(b)@, screen as int));
}

pub fn se_set_xy(b: &mut [u8; 4], x: u8, y: u8)
    ensures
        final(b)@ == with_xy(old(b)@, x as int, y as int),
{
    let b1 = b[1];
    let b2 = b[2];
    assert((b2 & 0x1F) | ((x & 0x07) << 5u8) == 32 * (x % 8) + b2 % 32) by (bit_vector);
    assert((b1 & 0xF0) | (y & 0x0F) == 16 * (b1 / 16) + y % 16) by (bit_vector);
    b[2] = (b[2] & 0x1F) | ((x & 0x07) << 5u8);
    b[1] = (b[1] & 0xF0) | (y & 0x0F);
    assert(b@ =~= with_xy(old(b)@, x as int, y as int));
}

pub fn se_set_fg_initial_pos(b: &mut [u8; 4], fg: u8)
    ensures
        final(b)@ == with_fg_initial_pos(old(b)@, fg as int),
{
    let b1 = b[1];
    assert((b1 & !(0b11u8 << 4u8)) | ((fg & 0b11) << 4u8) == 64 * (b1 / 64) + 16 * (fg % 4) + b1 % 16)
        by (bit_vector);
    b[1] = (b[1] & !(0b11u8 << 4u8)) | ((fg & 0b11) << 4u8);
    assert(b@ =~= with_fg_initial_pos(old(b)@, fg as int));
}

pub fn se_set_bg_initial_pos(b: &mut [u8; 4], bg: u8)
    ensures
        final(b)@ == with_bg_initial_pos(old(b)@, bg as int),
{
    let b1 = b[1];
    assert((b1 & !(0b11u8 << 6u8)) | ((bg & 0b11) << 6u8) == 64 * (bg % 4) + b1 % 64) by (bit_vector);
    b[1] = (b[1] & !(0b11u8 << 6u8)) | ((bg & 0b11) << 6u8);
    assert(b@ =~= with_bg_initial_pos(old(b)@, bg as int));
}

/// Setting the destination level stores its low 9 bits and leaves every
/// other field of the record as it was.
pub proof fn lemma_set_destination_level(b: Seq<u8>, level: u16)
    requires
        b.len() == 4,
    ensures
        ({
            let n = with_destination_level(b, level as int);
            &&& n.len() == 4
            &&& destination_level(n) == level % 512
            &&& screen(n) == screen(b) && x_pos(n) == x_pos(b) && y_pos(n) == y_pos(b)
            &&& fg_initial_pos(n) == fg_initial_pos(b) && bg_initial_pos(n) == bg_initial_pos(b)
            &&& byte3_other_bits(n) == byte3_other_bits(b)
        }),
{
}

/// Setting the screen stores its low 5 bits and leaves every other field as
/// it was.
pub proof fn lemma_set_screen(b: Seq<u8>, s: u8)
    requires
        b.len() == 4,
    ensures
        ({
            let n = with_screen(b, s as int);
            &&& n.len() == 4
            &&& screen(n) == s % 32
            &&& destination_level(n) == destination_level(b) && x_pos(n) == x_pos(b) && y_pos(n) == y_pos(b)
            &&& fg_initial_pos(n) == fg_initial_pos(b) && bg_initial_pos(n) == bg_initial_pos(b)
            &&& byte3_other_bits(n) == byte3_other_bits(b)
        }),
{
}

/// Setting the position stores the low 3 bits of X and the low 4 bits of Y
/// and leaves every other field as it was.
pub proof fn lemma_set_xy(b: Seq<u8>, x: u8, y: u8)
    requires
        b.len() == 4,
    ensures
        ({
            let n = with_xy(b, x as int, y as int);
            &&& n.len() == 4
            &&& x_pos(n) == x % 8 && y_pos(n) == y % 16
            &&& destination_level(n) == destination_level(b) && screen(n) == screen(b)
            &&& fg_initial_pos(n) == fg_initial_pos(b) && bg_initial_pos(n) == bg_initial_pos(b)
            &&& byte3_other_bits(n) == byte3_other_bits(b)
        }),
{
}

/// Setting the FG initial position stores its low 2 bits and leaves every
/// other field as it was.
pub proof fn lemma_set_fg_initial_pos(b: Seq<u8>, fg: u8)
    requires
        b.len() == 4,
    ensures
        ({
            let n = with_fg_initial_pos(b, fg as int);
            &&& n.len() == 4
            &&& fg_initial_pos(n) == fg % 4
            &&& destination_level(n) == destination_level(b) && screen(n) == screen(b)
            &&& x_pos(n) == x_pos(b) && y_pos(n) == y_pos(b) && bg_initial_pos(n) == bg_initial_pos(b)
            &&& byte3_other_bits(n) == byte3_other_bits(b)
        }),
{
}

/// Setting the BG initial position stores its low 2 bits and leaves every
/// other field as it was.
pub proof fn lemma_set_bg_initial_pos(b: Seq<u8>, bg: u8)
    requires
        b.len() == 4,
    ensures
        ({
            let n = with_bg_initial_pos(b, bg as int);
            &&& n.len() == 4
            &&& bg_initial_pos(n) == bg % 4
            &&& destination_level(n) == destination_level(b) && screen(n) == screen(b)
            &&& x_pos(n) == x_pos(b) && y_pos(n) == y_pos(b) && fg_initial_pos(n) == fg_initial_pos(b)
            &&& byte3_other_bits(n) == byte3_other_bits(b)
        }),
{
}


/// A secondary entrance number typed into the search box: trimmed, then hex
/// after a `0x` or `0X` prefix when that parses, decimal otherwise.
pub open spec fn se_index_value(s: Seq<char>) -> Option<u16> {
    let t = trim(s);
    let hex = if t.len() >= 2 && t[0] == '0' && (t[1] == 'x' || t[1] == 'X') {
        parse_u16_radix(t.subrange(2, t.len() as int), 16)
    } else {
        None
    };
    match hex {
        Some(v) => Some(v),
        None => parse_u16_radix(t, 10),
    }
}

/// Parse a secondary entrance number; `None` unless it parses and lies
/// below `count_max`, the number of entrance slots.
pub fn parse_se_index(text: &str, count_max: usize) -> (idx: Option<u16>)
    ensures
        idx == (match se_index_value(text@) {
            Some(v) => if (v as int) < count_max {
                Some(v)
            } else {
                None
            },
            None => None,
        }),
{
    let t = trim_chars(&crate::text::chars_of(text));
    let mut v: Option<u16> = None;
    if t.len() >= 2 && t[0] == '0' && (t[1] == 'x' || t[1] == 'X') {
        v = parse_u16_from(&t, 2, 16);
    }
    if v.is_none() {
        v = parse_u16_from(&t, 0, 10);
        assert(t@.subrange(0, t@.len() as int) =~= t@);
    }
    match v {
        Some(n) => if (n as usize) < count_max {
            Some(n)
        } else {
            None
        },
        None => None,
    }
}

/// Which extended options a secondary entrance has set: a water level, an
/// exit to the overworld, a midway redirect, Mario facing left, and a new
/// FG/BG initial position.
#[derive(Clone, Copy, Debug, Default, PartialEq, Eq, Structural)]
pub struct SeOptionFlags {
    pub water_level: bool,
    pub exit_to_overworld: bool,
    pub midway_redirect: bool,
    pub face_left: bool,
    pub new_fg_bg_init: bool,
}

/// The badges of the set options, in order.
pub open spec fn badge_list(f: SeOptionFlags) -> Seq<Seq<char>> {
    let a = if f.water_level {
        seq!["W"@]
    } else {
        seq![]
    };
    let b = if f.exit_to_overworld {
        a.push("OW"@)
    } else {
        a
    };
    let c = if f.midway_redirect {
        b.push("→M"@)
    } else {
        b
    };
    let d = if f.face_left {
        c.push("FL"@)
    } else {
        c
    };
    if f.new_fg_bg_init {
        d.push("FG"@)
    } else {
        d
    }
}

/// Add `badge` to the badge text `s` built from `list` when `on` is set.
fn push_badge(
    s: &mut String,
    count: &mut usize,
    on: bool,
    badge: &str,
    Ghost(list): Ghost<Seq<Seq<char>>>,
) -> (next: Ghost<Seq<Seq<char>>>)
    requires
        old(s)@ == join_with(list, " "@),
        *old(count) == list.len(),
        list.len() < 5,
    ensures
        next@ == (if on {
            list.push(badge@)
        } else {
            list
        }),
        final(s)@ == join_with(next@, " "@),
        *final(count) == next@.len(),
{
    if on {
        proof {
            lemma_join_push(list, " "@, badge@);
        }
        push_joined(s, *count, " ", badge);
        *count = *count + 1;
        Ghost(list.push(badge@))
    } else {
        Ghost(list)
    }
}

/// Short badges for the extended options of an entrance, separated by
/// spaces: `"W"` water, `"OW"` exit to overworld, `"→M"` midway redirect,
/// `"FL"` face left, `"FG"` new FG/BG initial position.
pub fn se_flag_badges(flags: SeOptionFlags) -> (text: String)
    ensures
        text@ == join_with(badge_list(flags), " "@),
{
    let mut s = String::new();
    let mut count: usize = 0;
    let ghost none: Seq<Seq<char>> = seq![];
    let g = push_badge(&mut s, &mut count, flags.water_level, "W", Ghost(none));
    let g = push_badge(&mut s, &mut count, flags.exit_to_overworld, "OW", g);
    let g = push_badge(&mut s, &mut count, flags.midway_redirect, "→M", g);
    let g = push_badge(&mut s, &mut count, flags.face_left, "FL", g);
    let g = push_badge(&mut s, &mut count, flags.new_fg_bg_init, "FG", g);
    proof {
        assert(g@ =~= badge_list(flags));
    }
    s
}

} // verus!
