//! Text helpers for display strings: upper-case hex with zero padding
//! (`{:0wX}`), plain decimal (`{}`), and the character-level operations that
//! search filters use (whitespace trimming, ASCII lower-casing, substring
//! search).

use vstd::arithmetic::power::{pow, lemma_pow_multiplies};
use vstd::arithmetic::power2::{lemma_pow2, lemma2_to64};
use vstd::prelude::*;

verus! {

/// Upper-case hex digit for a value below 16.
pub open spec fn hex_digit_char(d: int) -> char {
    if d < 10 { (('0' as int) + d) as char } else { (('A' as int) + d - 10) as char }
}

/// Decimal digit for a value below 10.
pub open spec fn dec_digit_char(d: int) -> char {
    (('0' as int) + d) as char
}

/// The low `n` hex digits of `v`, most significant first.
pub open spec fn hex_fixed(v: nat, n: nat) -> Seq<char>
    decreases n,
{
    if n == 0 {
        seq![]
    } else {
        hex_fixed(v / 16, (n - 1) as nat).push(hex_digit_char((v % 16) as int))
    }
}

/// Number of hex digits of `v` (at least one).
pub open spec fn hex_len(v: nat) -> nat
    decreases v,
{
    if v < 16 { 1 } else { 1 + hex_len(v / 16) }
}

/// `v` in upper-case hex, zero-padded to at least `width` digits.
pub open spec fn hex_padded(v: nat, width: nat) -> Seq<char> {
    hex_fixed(v, if width > hex_len(v) { width } else { hex_len(v) })
}

/// The low `n` decimal digits of `v`, most significant first.
pub open spec fn dec_fixed(v: nat, n: nat) -> Seq<char>
    decreases n,
{
    if n == 0 {
        seq![]
    } else {
        dec_fixed(v / 10, (n - 1) as nat).push(dec_digit_char((v % 10) as int))
    }
}

/// Number of decimal digits of `v` (at least one).
pub open spec fn dec_len(v: nat) -> nat
    decreases v,
{
    if v < 10 { 1 } else { 1 + dec_len(v / 10) }
}

/// `v` in decimal.
pub open spec fn decimal(v: nat) -> Seq<char> {
    dec_fixed(v, dec_len(v))
}

fn hex_digit_str(d: u64) -> (s: &'static str)
    requires
        d < 16,
    ensures
        s@ == seq![hex_digit_char(d as int)],
{
    proof {
        reveal_strlit("0");
        reveal_strlit("1");
        reveal_strlit("2");
        reveal_strlit("3");
        reveal_strlit("4");
        reveal_strlit("5");
        reveal_strlit("6");
        reveal_strlit("7");
        reveal_strlit("8");
        reveal_strlit("9");
        reveal_strlit("A");
        reveal_strlit("B");
        reveal_strlit("C");
        reveal_strlit("D");
        reveal_strlit("E");
        reveal_strlit("F");
    }
    match d {
        0 => "0",
        1 => "1",
        2 => "2",
        3 => "3",
        4 => "4",
        5 => "5",
        6 => "6",
        7 => "7",
        8 => "8",
        9 => "9",
        10 => "A",
        11 => "B",
        12 => "C",
        13 => "D",
        14 => "E",
        _ => "F",
    }
}

fn push_hex_fixed(s: &mut String, v: u64, n: usize)
    ensures
        final(s)@ == old(s)@ + hex_fixed(v as nat, n as nat),
    decreases n,
{
    if n > 0 {
        push_hex_fixed(s, v / 16, n - 1);
        s.append(hex_digit_str(v % 16));
    }
}

fn push_dec_fixed(s: &mut String, v: u64, n: usize)
    ensures
        final(s)@ == old(s)@ + dec_fixed(v as nat, n as nat),
    decreases n,
{
    if n > 0 {
        push_dec_fixed(s, v / 10, n - 1);
        s.append(hex_digit_str(v % 10));
    }
}

proof fn lemma_hex_len_bound(v: nat, k: nat)
    requires
        k >= 1,
        v < pow(16, k),
    ensures
        hex_len(v) <= k,
    decreases k,
{
    reveal(pow);
    if v >= 16 {
        assert(k > 1) by {
            if k == 1 {
                assert(pow(16, 1) == 16 * pow(16, 0));
            }
        }
        assert(v / 16 < pow(16, (k - 1) as nat));
        lemma_hex_len_bound(v / 16, (k - 1) as nat);
    }
}

proof fn lemma_dec_len_bound(v: nat, k: nat)
    requires
        k >= 1,
        v < pow(10, k),
    ensures
        dec_len(v) <= k,
    decreases k,
{
    reveal(pow);
    if v >= 10 {
        assert(k > 1) by {
            if k == 1 {
                assert(pow(10, 1) == 10 * pow(10, 0));
            }
        }
        assert(v / 10 < pow(10, (k - 1) as nat));
        lemma_dec_len_bound(v / 10, (k - 1) as nat);
    }
}

proof fn lemma_u64_digit_bounds(v: u64)
    ensures
        hex_len(v as nat) <= 16,
        dec_len(v as nat) <= 20,
{
    reveal_with_fuel(pow, 21);
    assert(pow(2, 4) == 16);
    lemma_pow_multiplies(2, 4, 16);
    lemma_pow2(64);
    lemma2_to64();
    assert(pow(16, 16) == 0x10000000000000000);
    lemma_hex_len_bound(v as nat, 16);
    assert(pow(10, 20) == 100000000000000000000);
    lemma_dec_len_bound(v as nat, 20);
}

fn hex_len_of(v: u64) -> (n: usize)
    ensures
        n as nat == hex_len(v as nat),
        n <= 16,
{
    let mut n: usize = 1;
    let mut w = v;
    proof { lemma_u64_digit_bounds(v); }
    while w >= 16
        invariant
            n + hex_len(w as nat) == 1 + hex_len(v as nat),
            n >= 1,
            hex_len(v as nat) <= 16,
        decreases w,
    {
        w = w / 16;
        n = n + 1;
    }
    n
}

fn dec_len_of(v: u64) -> (n: usize)
    ensures
        n as nat == dec_len(v as nat),
{
    let mut n: usize = 1;
    let mut w = v;
    proof { lemma_u64_digit_bounds(v); }
    while w >= 10
        invariant
            n + dec_len(w as nat) == 1 + dec_len(v as nat),
            n >= 1,
            dec_len(v as nat) <= 20,
        decreases w,
    {
        w = w / 10;
        n = n + 1;
    }
    n
}

/// `char::is_whitespace`: the characters with the Unicode `White_Space`
/// property.
pub open spec fn is_unicode_whitespace(c: char) -> bool {
    let u = c as u32;
    ||| 0x09 <= u <= 0x0D
    ||| u == 0x20
    ||| u == 0x85
    ||| u == 0xA0
    ||| u == 0x1680
    ||| 0x2000 <= u <= 0x200A
    ||| u == 0x2028
    ||| u == 0x2029
    ||| u == 0x202F
    ||| u == 0x205F
    ||| u == 0x3000
}

/// `s` without its leading whitespace.
pub open spec fn trim_start(s: Seq<char>) -> Seq<char>
    decreases s.len(),
{
    if s.len() > 0 && is_unicode_whitespace(s[0]) {
        trim_start(s.drop_first())
    } else {
        s
    }
}

/// `s` without its trailing whitespace.
pub open spec fn trim_end(s: Seq<char>) -> Seq<char>
    decreases s.len(),
{
    if s.len() > 0 && is_unicode_whitespace(s.last()) {
        trim_end(s.drop_last())
    } else {
        s
    }
}

/// `str::trim`: `s` without leading and trailing whitespace.
pub open spec fn trim(s: Seq<char>) -> Seq<char> {
    trim_end(trim_start(s))
}

/// `char::to_ascii_lowercase`.
pub open spec fn ascii_lower_char(c: char) -> char {
    if 'A' <= c <= 'Z' {
        ((c as u32) + 32) as char
    } else {
        c
    }
}

/// `str::to_ascii_lowercase`: ASCII letters lowered, everything else kept.
pub open spec fn ascii_lower(s: Seq<char>) -> Seq<char> {
    s.map_values(|c: char| ascii_lower_char(c))
}

/// `needle` occurs in `hay` as a contiguous run (`str::contains`).
pub open spec fn contains_run(hay: Seq<char>, needle: Seq<char>) -> bool {
    exists|i: int|
        0 <= i && i + needle.len() <= hay.len() && #[trigger] hay.subrange(i, i + needle.len())
            == needle
}

fn is_whitespace_char(c: char) -> (b: bool)
    ensures
        b == is_unicode_whitespace(c),
{
    let u = c as u32;
    (0x09 <= u && u <= 0x0D) || u == 0x20 || u == 0x85 || u == 0xA0 || u == 0x1680 || (0x2000
        <= u && u <= 0x200A) || u == 0x2028 || u == 0x2029 || u == 0x202F || u == 0x205F || u
        == 0x3000
}

/// The characters of `s`, in order.
pub fn chars_of(s: &str) -> (v: Vec<char>)
    ensures
        v@ == s@,
{
    let n = s.unicode_len();
    let mut v: Vec<char> = Vec::new();
    let mut i: usize = 0;
    while i < n
        invariant
            n == s@.len(),
            i <= n,
            v@ == s@.subrange(0, i as int),
        decreases n - i,
    {
        v.push(s.get_char(i));
        i += 1;
    }
    assert(v@ =~= s@);
    v
}

/// The characters of `s` with leading and trailing whitespace removed.
pub fn trim_chars(s: &Vec<char>) -> (t: Vec<char>)
    ensures
        t@ == trim(s@),
{
    let n = s.len();
    let mut lo: usize = 0;
    assert(s@.subrange(0, n as int) =~= s@);
    while lo < n && is_whitespace_char(s[lo])
        invariant
            n == s@.len(),
            lo <= n,
            trim_start(s@) == trim_start(s@.subrange(lo as int, n as int)),
        decreases n - lo,
    {
        assert(s@.subrange(lo as int, n as int).drop_first() =~= s@.subrange(lo as int + 1, n as int));
        lo += 1;
    }
    assert(trim_start(s@) == s@.subrange(lo as int, n as int));
    let mut hi: usize = n;
    while hi > lo && is_whitespace_char(s[hi - 1])
        invariant
            n == s@.len(),
            lo <= hi <= n,
            trim(s@) == trim_end(s@.subrange(lo as int, hi as int)),
        decreases hi - lo,
    {
        assert(s@.subrange(lo as int, hi as int).drop_last() =~= s@.subrange(lo as int, hi - 1));
        hi -= 1;
    }
    let mut t: Vec<char> = Vec::new();
    let mut k: usize = lo;
    while k < hi
        invariant
            n == s@.len(),
            lo <= k <= hi <= n,
            t@ == s@.subrange(lo as int, k as int),
        decreases hi - k,
    {
        t.push(s[k]);
        k += 1;
    }
    t
}

fn ascii_lower_one(c: char) -> (l: char)
    ensures
        l == ascii_lower_char(c),
{
    if 'A' <= c && c <= 'Z' {
        let u: u8 = (c as u32 + 32) as u8;
        u as char
    } else {
        c
    }
}

/// ASCII-lower-cased copy of `s`.
pub fn ascii_lower_chars(s: &Vec<char>) -> (l: Vec<char>)
    ensures
        l@ == ascii_lower(s@),
{
    let mut l: Vec<char> = Vec::new();
    let mut i: usize = 0;
    while i < s.len()
        invariant
            i <= s@.len(),
            l@ == ascii_lower(s@.subrange(0, i as int)),
        decreases s@.len() - i,
    {
        l.push(ascii_lower_one(s[i]));
        assert(ascii_lower(s@.subrange(0, i as int + 1)) =~= ascii_lower(
            s@.subrange(0, i as int),
        ).push(ascii_lower_char(s@[i as int])));
        i += 1;
    }
    assert(s@.subrange(0, i as int) =~= s@);
    l
}

/// Whether `needle` occurs in `hay` as a contiguous run.
pub fn contains_chars(hay: &Vec<char>, needle: &Vec<char>) -> (b: bool)
    ensures
        b == contains_run(hay@, needle@),
{
    let n = hay.len();
    let m = needle.len();
    if m > n {
        return false;
    }
    let mut i: usize = 0;
    while i <= n - m
        invariant
            n == hay@.len(),
            m == needle@.len(),
            m <= n,
            i <= n - m + 1,
            forall|k: int| 0 <= k < i ==> #[trigger] hay@.subrange(k, k + m) != needle@,
        decreases n - m + 1 - i,
    {
        let mut j: usize = 0;
        while j < m && hay[i + j] == needle[j]
            invariant
                n == hay@.len(),
                m == needle@.len(),
                i + m <= n,
                j <= m,
                forall|t: int| 0 <= t < j ==> hay@[i + t] == needle@[t],
            decreases m - j,
        {
            j += 1;
        }
        if j == m {
            assert(hay@.subrange(i as int, i + m) =~= needle@);
            return true;
        }
        assert(hay@.subrange(i as int, i + m)[j as int] == hay@[i + j]);
        i += 1;
    }
    false
}

/// `parts` joined with `sep` between neighbours (`[..].join(sep)`).
pub open spec fn join_with(parts: Seq<Seq<char>>, sep: Seq<char>) -> Seq<char>
    decreases parts.len(),
{
    if parts.len() == 0 {
        seq![]
    } else if parts.len() == 1 {
        parts[0]
    } else {
        join_with(parts.drop_last(), sep) + sep + parts.last()
    }
}

/// Append `part` to a `sep`-joined list held in `s`, which holds `count`
/// parts so far.
pub fn push_joined(s: &mut String, count: usize, sep: &str, part: &str)
    ensures
        final(s)@ == old(s)@ + (if count > 0 {
            sep@
        } else {
            Seq::<char>::empty()
        }) + part@,
{
    if count > 0 {
        s.append(sep);
    }
    s.append(part);
}

/// Joining one more part extends the joined text by the separator and the
/// part.
pub proof fn lemma_join_push(parts: Seq<Seq<char>>, sep: Seq<char>, part: Seq<char>)
    ensures
        join_with(parts.push(part), sep) == (if parts.len() > 0 {
            join_with(parts, sep) + sep
        } else {
            Seq::<char>::empty()
        }) + part,
{
    assert(parts.push(part).drop_last() =~= parts);
    if parts.len() == 0 {
        assert(seq![] + part =~= part);
    }
}

/// Append `v` in upper-case hex, zero-padded to `width` digits
/// (`format!("{v:0width$X}")`).
pub fn push_hex(s: &mut String, v: u64, width: usize)
    ensures
        final(s)@ == old(s)@ + hex_padded(v as nat, width as nat),
{
    let len = hex_len_of(v);
    let n = if width > len { width } else { len };
    push_hex_fixed(s, v, n);
}

/// Append `v` in decimal (`format!("{v}")`).
pub fn push_decimal(s: &mut String, v: u64)
    ensures
        final(s)@ == old(s)@ + decimal(v as nat),
{
    let n = dec_len_of(v);
    push_dec_fixed(s, v, n);
}

} // verus!
