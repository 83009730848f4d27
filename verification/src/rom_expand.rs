//! ROM expansion and SNES internal-header checksum fixing.
//!
//! Expansion pads the ROM with `0xFF` (the fill that free-space scanning
//! treats as free), records the new size in the internal header and fixes
//! the checksum.

use vstd::arithmetic::div_mod::{lemma_add_mod_noop, lemma_mod_bound};
use vstd::arithmetic::power2::{pow2, lemma_pow2_strictly_increases, lemma_pow2_adds, lemma2_to64, lemma2_to64_rest};
use vstd::prelude::*;

use crate::text::{decimal, push_decimal};

verus! {

/// Size of an SMC copier header.
pub const SMC_HEADER_LEN: usize = 0x200;

/// PC offset of the LoROM internal header block.
pub const LOROM_HEADER: usize = 0x7FC0;

/// PC offset of the HiROM internal header block.
pub const HIROM_HEADER: usize = 0xFFC0;

/// Offset of the checksum complement inside the header block.
pub const COMPLEMENT_OFFSET: usize = 0x1C;

/// Offset of the checksum inside the header block.
pub const CHECKSUM_OFFSET: usize = 0x1E;

/// Offset of the ROM-size byte inside the header block.
pub const SIZE_BYTE_OFFSET: usize = 0x17;

/// The SMC header length a ROM image of `len` bytes carries.
pub open spec fn smc_offset(len: int) -> int {
    if len % 0x400 == 0x200 { 0x200 } else { 0 }
}

/// Little-endian 16-bit word at file offset `p`.
pub open spec fn word_at(rom: Seq<u8>, p: int) -> u16 {
    (rom[p] as u16) | ((rom[p + 1] as u16) << 8u16)
}

/// The header block at PC `base` holds a checksum and a complement that
/// agree.
pub open spec fn header_consistent(rom: Seq<u8>, header_offset: int, base: int) -> bool {
    let checksum_pos = header_offset + base + CHECKSUM_OFFSET;
    let complement_pos = header_offset + base + COMPLEMENT_OFFSET;
    &&& checksum_pos + 1 < rom.len()
    &&& word_at(rom, checksum_pos) ^ word_at(rom, complement_pos) == 0xFFFFu16
}

/// The internal header in use: LoROM when its checksum pair agrees, else
/// HiROM when that one agrees, else LoROM.
pub open spec fn header_base(rom: Seq<u8>, header_offset: int) -> int {
    if header_consistent(rom, header_offset, LOROM_HEADER as int) {
        LOROM_HEADER as int
    } else if header_consistent(rom, header_offset, HIROM_HEADER as int) {
        HIROM_HEADER as int
    } else {
        LOROM_HEADER as int
    }
}

/// Byte `i` of the ROM data as the checksum counts it: the complement reads
/// `FF FF` and the checksum `00 00`, whatever they hold.
pub open spec fn checksum_byte(rom: Seq<u8>, header_offset: int, base: int, i: int) -> int {
    let file = i + header_offset;
    let complement_pos = header_offset + base + COMPLEMENT_OFFSET;
    let checksum_pos = header_offset + base + CHECKSUM_OFFSET;
    if file == complement_pos || file == complement_pos + 1 {
        0xFF
    } else if file == checksum_pos || file == checksum_pos + 1 {
        0
    } else {
        rom[file] as int
    }
}

/// Sum of `checksum_byte` over the PC range `[lo, hi)`.
pub open spec fn checksum_sum(rom: Seq<u8>, header_offset: int, base: int, lo: int, hi: int) -> int
    decreases hi - lo,
{
    if hi <= lo {
        0
    } else {
        checksum_sum(rom, header_offset, base, lo, hi - 1) + checksum_byte(rom, header_offset, base, hi - 1)
    }
}

/// Sum of the stored bytes over the PC range `[lo, hi)`.
pub open spec fn plain_sum(rom: Seq<u8>, header_offset: int, lo: int, hi: int) -> int
    decreases hi - lo,
{
    if hi <= lo {
        0
    } else {
        plain_sum(rom, header_offset, lo, hi - 1) + rom[hi - 1 + header_offset] as int
    }
}

/// Largest power of two not above `n` (1 for `n < 2`).
pub open spec fn mirror_base(n: nat) -> nat
    decreases n,
{
    if n < 2 { 1 } else { 2 * mirror_base(n / 2) }
}

/// How often the part of the ROM beyond `mirror_base` is counted: as many
/// times as it fits into the base when it divides it evenly, else once.
pub open spec fn mirror_multiplier(base: int, rem: int) -> int {
    if rem <= 0 { 0 } else if base % rem == 0 { base / rem } else { 1 }
}

/// The checksum that `fix_checksum` stores for `rom`.
pub open spec fn checksum_value(rom: Seq<u8>) -> u16 {
    let ho = smc_offset(rom.len() as int);
    let pc_len = rom.len() - ho;
    let hb = header_base(rom, ho);
    let base = mirror_base(pc_len as nat) as int;
    let rem = pc_len - base;
    ((checksum_sum(rom, ho, hb, 0, base) + checksum_sum(rom, ho, hb, base, pc_len) * mirror_multiplier(
        base,
        rem,
    )) % 0x10000) as u16
}

/// `rom` after `fix_checksum`: ROMs under 32 KiB are left alone; otherwise
/// the complement and checksum words of the header in use are rewritten.
pub open spec fn with_checksum(rom: Seq<u8>) -> Seq<u8> {
    let ho = smc_offset(rom.len() as int);
    if rom.len() - ho < 0x8000 {
        rom
    } else {
        let hb = header_base(rom, ho);
        let c = checksum_value(rom);
        let k = c ^ 0xFFFFu16;
        let complement_pos = ho + hb + COMPLEMENT_OFFSET;
        let checksum_pos = ho + hb + CHECKSUM_OFFSET;
        rom.update(complement_pos, (k & 0xFF) as u8).update(complement_pos + 1, (k >> 8u16) as u8).update(
            checksum_pos,
            (c & 0xFF) as u8,
        ).update(checksum_pos + 1, (c >> 8u16) as u8)
    }
}

/// The ROM-size exponent `n` for `kib` KiB: the least `n` with `2^n >= kib`.
pub open spec fn is_size_exponent(kib: nat, n: nat) -> bool {
    &&& pow2(n) >= kib
    &&& (n == 0 || pow2((n - 1) as nat) < kib)
}

/// The ROM-size header byte for a ROM of `kib` KiB.
pub open spec fn size_exponent(kib: nat) -> nat {
    choose|n: nat| is_size_exponent(kib, n)
}

/// `rom` padded with `0xFF` to `len` bytes.
pub open spec fn padded(rom: Seq<u8>, len: int) -> Seq<u8> {
    rom + Seq::new((len - rom.len()) as nat, |i: int| 0xFFu8)
}

/// `rom` with its header's ROM-size byte set for `target_pc_size` bytes of
/// ROM data (when that byte lies inside the image).
pub open spec fn with_size_byte(rom: Seq<u8>, header_offset: int, target_pc_size: int) -> Seq<u8> {
    let pos = header_offset + header_base(rom, header_offset) + SIZE_BYTE_OFFSET;
    if pos < rom.len() {
        rom.update(pos, size_exponent((target_pc_size / 0x400) as nat) as u8)
    } else {
        rom
    }
}

/// What `expand_rom` makes of `rom` when it succeeds.
pub open spec fn expanded(rom: Seq<u8>, target_pc_size: int) -> Seq<u8> {
    let ho = smc_offset(rom.len() as int);
    with_checksum(with_size_byte(padded(rom, ho + target_pc_size), ho, target_pc_size))
}

proof fn lemma_size_exponent_unique(kib: nat, n: nat)
    requires
        is_size_exponent(kib, n),
    ensures
        size_exponent(kib) == n,
{
    let m = size_exponent(kib);
    assert(is_size_exponent(kib, m));
    if m < n {
        if m < (n - 1) as nat {
            lemma_pow2_strictly_increases(m, (n - 1) as nat);
        }
    } else if n < m {
        if n < (m - 1) as nat {
            lemma_pow2_strictly_increases(n, (m - 1) as nat);
        }
    }
}

/// Smallest `n` with `2^n >= kib`, computed the way the header wants it.
fn size_exponent_of(kib: usize) -> (n: u8)
    requires
        kib <= usize::MAX / 0x400,
    ensures
        n as nat == size_exponent(kib as nat),
{
    let mut n: u8 = 0;
    let mut p: usize = 1;
    proof {
        lemma2_to64();
    }
    while p < kib
        invariant
            p as nat == pow2(n as nat),
            n == 0 || pow2((n - 1) as nat) < kib,
            kib <= usize::MAX / 0x400,
            n <= 54,
            p <= usize::MAX / 0x200,
            p >= 1,
        decreases 64 - n,
    {
        proof {
            lemma_pow2_adds(n as nat, 1);
            lemma2_to64();
            lemma2_to64_rest();
            if n >= 54 {
                assert(pow2(54) == 0x40000000000000);
                assert(usize::MAX / 0x400 < 0x40000000000000) by {
                    assert(usize::MAX == 0xffff_ffff || usize::MAX == 0xffff_ffff_ffff_ffff);
                }
                assert(false);
            }
        }
        p = p * 2;
        n = n + 1;
    }
    proof {
        lemma_size_exponent_unique(kib as nat, n as nat);
    }
    n
}

/// Return the PC offset of the internal header block (`0x7FC0` for LoROM,
/// `0xFFC0` for HiROM), picking whichever currently contains a
/// self-consistent checksum/complement pair, defaulting to LoROM.
fn locate_internal_header(rom_bytes: &[u8], header_offset: usize) -> (base: usize)
    requires
        header_offset <= 0x200,
    ensures
        base as int == header_base(rom_bytes@, header_offset as int),
{
    let bases: [usize; 2] = [LOROM_HEADER, HIROM_HEADER];
    let mut i: usize = 0;
    while i < 2
        invariant
            bases@ == seq![LOROM_HEADER, HIROM_HEADER],
            header_offset <= 0x200,
            i <= 2,
            i >= 1 ==> !header_consistent(rom_bytes@, header_offset as int, LOROM_HEADER as int),
            i >= 2 ==> !header_consistent(rom_bytes@, header_offset as int, HIROM_HEADER as int),
        decreases 2 - i,
    {
        let base = bases[i];
        let checksum_pos = header_offset + base + CHECKSUM_OFFSET;
        let complement_pos = header_offset + base + COMPLEMENT_OFFSET;
        if checksum_pos + 1 < rom_bytes.len() {
            let checksum = (rom_bytes[checksum_pos] as u16) | ((rom_bytes[checksum_pos + 1] as u16) << 8u16);
            let complement = (rom_bytes[complement_pos] as u16) | ((rom_bytes[complement_pos + 1] as u16)
                << 8u16);
            if checksum ^ complement == 0xFFFF {
                return base;
            }
        }
        i += 1;
    }
    LOROM_HEADER
}

proof fn lemma_mirror_base(n: nat, e: nat)
    requires
        pow2(e) <= n < 2 * pow2(e),
    ensures
        mirror_base(n) == pow2(e),
    decreases e,
{
    if e > 0 {
        vstd::arithmetic::power2::lemma_pow2_unfold(e);
        vstd::arithmetic::power2::lemma_pow2_pos((e - 1) as nat);
        lemma_mirror_base(n / 2, (e - 1) as nat);
    } else {
        assert(pow2(0) == 1) by { lemma2_to64(); }
    }
}

/// Largest power of two not above `n`, for `n >= 1`.
fn mirror_base_of(n: usize) -> (b: usize)
    requires
        n >= 1,
    ensures
        b as nat == mirror_base(n as nat),
        1 <= b <= n,
{
    let mut b: usize = 1;
    let ghost mut e: nat = 0;
    proof { lemma2_to64(); }
    while b <= n / 2
        invariant
            b as nat == pow2(e),
            1 <= b <= n,
        decreases n - b,
    {
        proof { lemma_pow2_adds(e, 1); lemma2_to64(); }
        b = b * 2;
        proof { e = e + 1; }
    }
    proof {
        lemma_pow2_adds(e, 1);
        lemma2_to64();
        lemma_mirror_base(n as nat, e);
    }
    b
}

/// `checksum_byte` for PC index `i`.
fn checksum_byte_at(rom_bytes: &[u8], header_offset: usize, base: usize, i: usize) -> (v: u32)
    requires
        i + header_offset < rom_bytes@.len(),
        header_offset + base + CHECKSUM_OFFSET + 1 <= usize::MAX,
    ensures
        v as int == checksum_byte(rom_bytes@, header_offset as int, base as int, i as int),
        v <= 0xFF,
{
    let len = rom_bytes.len();
    let file = i + header_offset;
    let complement_pos = header_offset + base + COMPLEMENT_OFFSET;
    let checksum_pos = header_offset + base + CHECKSUM_OFFSET;
    if file == complement_pos || file == complement_pos + 1 {
        0xFF
    } else if file == checksum_pos || file == checksum_pos + 1 {
        0x00
    } else {
        rom_bytes[file] as u32
    }
}

/// `checksum_sum` over `[lo, hi)`, modulo `0x10000`.
fn checksum_sum_mod(rom_bytes: &[u8], header_offset: usize, base: usize, lo: usize, hi: usize) -> (r: u32)
    requires
        lo <= hi,
        hi + header_offset <= rom_bytes@.len(),
        header_offset + base + CHECKSUM_OFFSET + 1 <= usize::MAX,
    ensures
        r as int == checksum_sum(rom_bytes@, header_offset as int, base as int, lo as int, hi as int) % 0x10000,
{
    let mut acc: u32 = 0;
    let mut i = lo;
    while i < hi
        invariant
            lo <= i <= hi,
            hi + header_offset <= rom_bytes@.len(),
            header_offset + base + CHECKSUM_OFFSET + 1 <= usize::MAX,
            acc as int == checksum_sum(rom_bytes@, header_offset as int, base as int, lo as int, i as int)
                % 0x10000,
        decreases hi - i,
    {
        let v = checksum_byte_at(rom_bytes, header_offset, base, i);
        proof {
            let x = checksum_sum(rom_bytes@, header_offset as int, base as int, lo as int, i as int);
            lemma_add_mod_noop(x, v as int, 0x10000);
            lemma_mod_bound(x, 0x10000);
        }
        acc = (acc + v) % 0x10000;
        i += 1;
    }
    acc
}

proof fn lemma_combine_mod(s1: int, s2: int, mult: int, r1: int, r2: int, mm: int)
    requires
        r1 == s1 % 0x10000,
        r2 == s2 % 0x10000,
        mm == mult % 0x10000,
    ensures
        (r1 + (r2 * mm) % 0x10000) % 0x10000 == (s1 + s2 * mult) % 0x10000,
{
    vstd::arithmetic::div_mod::lemma_mul_mod_noop(s2, mult, 0x10000);
    lemma_add_mod_noop(s1, s2 * mult, 0x10000);
    vstd::arithmetic::div_mod::lemma_mod_twice(s2 * mult, 0x10000);
}

/// Recompute and write the SNES internal-header checksum (`$xFDE`) and its
/// complement (`$xFDC`). The sum is computed with the four checksum bytes
/// normalized to `FF FF 00 00`, making the result independent of the
/// previous checksum. For non-power-of-two sizes where the remainder evenly
/// divides the power-of-two base, the remainder is counted multiple times
/// (standard mirroring); otherwise a plain sum is used.
pub fn fix_checksum(rom_bytes: &mut [u8])
    ensures
        final(rom_bytes)@ == with_checksum(old(rom_bytes)@),
{
    let header_offset: usize = if rom_bytes.len() % 0x400 == 0x200 { SMC_HEADER_LEN } else { 0 };
    let pc_len = rom_bytes.len() - header_offset;
    if pc_len < 0x8000 {
        return;
    }
    let header_base = locate_internal_header(rom_bytes, header_offset);
    let complement_pos = header_offset + header_base + COMPLEMENT_OFFSET;
    let checksum_pos = header_offset + header_base + CHECKSUM_OFFSET;

    let base = mirror_base_of(pc_len);
    let base_sum = checksum_sum_mod(rom_bytes, header_offset, header_base, 0, base);
    let rem = pc_len - base;
    let multiplier: usize = if rem > 0 {
        if base % rem == 0 { base / rem } else { 1 }
    } else {
        0
    };
    let rem_sum = checksum_sum_mod(rom_bytes, header_offset, header_base, base, pc_len);
    let mm = (multiplier % 0x10000) as u32;
    proof {
        lemma_mod_bound(checksum_sum(old(rom_bytes)@, header_offset as int, header_base as int, base as int, pc_len as int), 0x10000);
        lemma_mod_bound(checksum_sum(old(rom_bytes)@, header_offset as int, header_base as int, 0, base as int), 0x10000);
    }
    assert(rem_sum * mm <= 0xFFFF * 0xFFFF) by (nonlinear_arith)
        requires
            rem_sum < 0x10000,
            mm < 0x10000,
    ;
    let sum = (base_sum + (rem_sum * mm) % 0x10000) % 0x10000;
    proof {
        let ghost rom = old(rom_bytes)@;
        let ho = header_offset as int;
        lemma_combine_mod(
            checksum_sum(rom, ho, header_base as int, 0, base as int),
            checksum_sum(rom, ho, header_base as int, base as int, pc_len as int),
            mirror_multiplier(base as int, rem as int),
            base_sum as int,
            rem_sum as int,
            mm as int,
        );
        assert(sum == checksum_value(rom));
    }
    let checksum = sum as u16;
    let complement = checksum ^ 0xFFFF;
    assert((complement & 0xFF) < 256 && (complement >> 8u16) < 256) by (bit_vector);
    assert((checksum & 0xFF) < 256 && (checksum >> 8u16) < 256) by (bit_vector);
    rom_bytes[complement_pos] = (complement & 0xFF) as u8;
    rom_bytes[complement_pos + 1] = (complement >> 8u16) as u8;
    rom_bytes[checksum_pos] = (checksum & 0xFF) as u8;
    rom_bytes[checksum_pos + 1] = (checksum >> 8u16) as u8;
}

/// The message `expand_rom` fails with when the ROM already holds
/// `current` bytes of ROM data and `target` is not larger.
pub open spec fn shrink_message(current: nat, target: nat) -> Seq<char> {
    "ROM is already "@ + decimal(current) + " bytes; cannot shrink to "@ + decimal(target) + " bytes"@
}

/// Expand `rom_bytes` (a full ROM file, SMC header included if present) to
/// `target_pc_size` bytes of ROM data, padding with `0xFF`. Updates the
/// internal header size byte and checksum. Errors if the ROM is already at
/// least that large.
pub fn expand_rom(rom_bytes: &mut Vec<u8>, target_pc_size: usize) -> (res: Result<(), String>)
    requires
        smc_offset(old(rom_bytes)@.len() as int) + target_pc_size <= usize::MAX,
    ensures
        ({
            let current = old(rom_bytes)@.len() - smc_offset(old(rom_bytes)@.len() as int);
            &&& res is Err <==> current >= target_pc_size
            &&& res matches Err(msg) ==> {
                &&& msg@ == shrink_message(current as nat, target_pc_size as nat)
                &&& final(rom_bytes)@ == old(rom_bytes)@
            }
            &&& res is Ok ==> final(rom_bytes)@ == expanded(old(rom_bytes)@, target_pc_size as int)
        }),
{
    let header_offset: usize = if rom_bytes.len() % 0x400 == 0x200 { SMC_HEADER_LEN } else { 0 };
    let current = rom_bytes.len() - header_offset;
    if current >= target_pc_size {
        let mut msg = String::new();
        msg.append("ROM is already ");
        push_decimal(&mut msg, current as u64);
        msg.append(" bytes; cannot shrink to ");
        push_decimal(&mut msg, target_pc_size as u64);
        msg.append(" bytes");
        return Err(msg);
    }
    let ghost old_rom = rom_bytes@;
    rom_bytes.resize(header_offset + target_pc_size, 0xFF);
    assert(rom_bytes@ =~= padded(old_rom, header_offset + target_pc_size));

    // Internal-header ROM size byte: 2^n KiB.
    let size_exponent = size_exponent_of(target_pc_size / 0x400);
    // The ROM-size byte sits at the header's $xFD7 slot (header base $xFC0 + 0x17).
    let header_base = locate_internal_header(rom_bytes.as_slice(), header_offset);
    let size_byte_pos = header_offset + header_base + SIZE_BYTE_OFFSET;
    if size_byte_pos < rom_bytes.len() {
        rom_bytes[size_byte_pos] = size_exponent;
    }
    assert(rom_bytes@ =~= with_size_byte(
        padded(old_rom, header_offset + target_pc_size),
        header_offset as int,
        target_pc_size as int,
    ));
    fix_checksum(rom_bytes.as_mut_slice());
    Ok(())
}

proof fn lemma_mirror_base_le(n: nat)
    requires
        n >= 1,
    ensures
        1 <= mirror_base(n) <= n,
    decreases n,
{
    if n >= 2 {
        lemma_mirror_base_le(n / 2);
    }
}

proof fn lemma_checksum_sum_ext(r1: Seq<u8>, r2: Seq<u8>, ho: int, hb: int, lo: int, hi: int)
    requires
        forall|i: int| lo <= i < hi ==> #[trigger] checksum_byte(r1, ho, hb, i) == checksum_byte(r2, ho, hb, i),
    ensures
        checksum_sum(r1, ho, hb, lo, hi) == checksum_sum(r2, ho, hb, lo, hi),
    decreases hi - lo,
{
    if hi > lo {
        lemma_checksum_sum_ext(r1, r2, ho, hb, lo, hi - 1);
    }
}

proof fn lemma_word_roundtrip(c: u16)
    ensures
        (((c & 0xFF) as u8) as u16) | ((((c >> 8u16) as u8) as u16) << 8u16) == c,
        c ^ (c ^ 0xFFFFu16) == 0xFFFFu16,
        (c ^ 0xFFFFu16) ^ c == 0xFFFFu16,
{
    assert((((c & 0xFF) as u8) as u16) | ((((c >> 8u16) as u8) as u16) << 8u16) == c) by (bit_vector);
    assert(c ^ (c ^ 0xFFFFu16) == 0xFFFFu16) by (bit_vector);
    assert((c ^ 0xFFFFu16) ^ c == 0xFFFFu16) by (bit_vector);
}

/// After `fix_checksum` the header in use is the same one, its checksum and
/// complement agree, and the checksum is the one computed from the ROM
/// before the fix.
pub proof fn lemma_fixed_header(rom: Seq<u8>)
    requires
        rom.len() - smc_offset(rom.len() as int) >= 0x8000,
    ensures
        ({
            let ho = smc_offset(rom.len() as int);
            let fixed = with_checksum(rom);
            let hb = header_base(rom, ho);
            &&& fixed.len() == rom.len()
            &&& header_base(fixed, ho) == hb
            &&& header_consistent(fixed, ho, hb)
            &&& word_at(fixed, ho + hb + CHECKSUM_OFFSET) == checksum_value(rom)
        }),
{
    let ho = smc_offset(rom.len() as int);
    let fixed = with_checksum(rom);
    let hb = header_base(rom, ho);
    let c = checksum_value(rom);
    lemma_word_roundtrip(c);
    lemma_word_roundtrip(c ^ 0xFFFFu16);
    let cp = ho + hb + CHECKSUM_OFFSET;
    let kp = ho + hb + COMPLEMENT_OFFSET;
    assert(word_at(fixed, cp) == c);
    assert(word_at(fixed, kp) == c ^ 0xFFFFu16);
    assert(header_consistent(fixed, ho, hb));
    if hb == HIROM_HEADER {
        let lc = ho + LOROM_HEADER + CHECKSUM_OFFSET;
        let lk = ho + LOROM_HEADER + COMPLEMENT_OFFSET;
        assert(fixed[lc] == rom[lc] && fixed[lc + 1] == rom[lc + 1]);
        assert(fixed[lk] == rom[lk] && fixed[lk + 1] == rom[lk + 1]);
        assert(word_at(fixed, lc) == word_at(rom, lc));
        assert(word_at(fixed, lk) == word_at(rom, lk));
    }
}

/// Fixing the checksum twice changes nothing more than fixing it once.
pub proof fn lemma_fix_checksum_idempotent(rom: Seq<u8>)
    ensures
        with_checksum(with_checksum(rom)) == with_checksum(rom),
{
    let ho = smc_offset(rom.len() as int);
    if rom.len() - ho >= 0x8000 {
        let fixed = with_checksum(rom);
        lemma_fixed_header(rom);
        let hb = header_base(rom, ho);
        let pc_len = rom.len() - ho;
        assert forall|i: int| 0 <= i < pc_len implies #[trigger] checksum_byte(fixed, ho, hb, i)
            == checksum_byte(rom, ho, hb, i) by {}
        let base = mirror_base(pc_len as nat) as int;
        lemma_mirror_base_le(pc_len as nat);
        lemma_checksum_sum_ext(fixed, rom, ho, hb, 0, base);
        lemma_checksum_sum_ext(fixed, rom, ho, hb, base, pc_len);
        assert(checksum_value(fixed) == checksum_value(rom));
        assert(with_checksum(fixed) =~= fixed);
    }
}

/// How far the stored header words move the plain sum over `[lo, hi)` away
/// from the checksum sum.
pub open spec fn header_adjust(rom: Seq<u8>, ho: int, hb: int, lo: int, hi: int) -> int {
    let k = hb + COMPLEMENT_OFFSET;
    let c = hb + CHECKSUM_OFFSET;
    (if lo <= k < hi { rom[k + ho] - 0xFF } else { 0 }) + (if lo <= k + 1 < hi { rom[k + 1 + ho] - 0xFF } else { 0 })
        + (if lo <= c < hi { rom[c + ho] as int } else { 0 }) + (if lo <= c + 1 < hi { rom[c + 1 + ho] as int } else { 0 })
}

proof fn lemma_plain_vs_checksum(rom: Seq<u8>, ho: int, hb: int, lo: int, hi: int)
    requires
        lo <= hi,
    ensures
        plain_sum(rom, ho, lo, hi) == checksum_sum(rom, ho, hb, lo, hi) + header_adjust(rom, ho, hb, lo, hi),
    decreases hi - lo,
{
    if hi > lo {
        lemma_plain_vs_checksum(rom, ho, hb, lo, hi - 1);
    }
}

/// Once fixed, the checksum verifies the usual way: summing the bytes as
/// they are stored (the remainder counted as often as it mirrors into the
/// base) reproduces the stored checksum, whenever the header block lies in
/// the power-of-two base part of the ROM.
pub proof fn lemma_fixed_checksum_verifies(rom: Seq<u8>)
    requires
        rom.len() - smc_offset(rom.len() as int) >= 0x8000,
        header_base(rom, smc_offset(rom.len() as int)) + 0x20 <= mirror_base(
            (rom.len() - smc_offset(rom.len() as int)) as nat,
        ),
    ensures
        ({
            let ho = smc_offset(rom.len() as int);
            let fixed = with_checksum(rom);
            let pc_len = rom.len() - ho;
            let base = mirror_base(pc_len as nat) as int;
            word_at(fixed, ho + header_base(rom, ho) + CHECKSUM_OFFSET) == ((plain_sum(fixed, ho, 0, base)
                + plain_sum(fixed, ho, base, pc_len) * mirror_multiplier(base, pc_len - base)) % 0x10000) as u16
        }),
{
    let ho = smc_offset(rom.len() as int);
    let fixed = with_checksum(rom);
    let hb = header_base(rom, ho);
    let pc_len = rom.len() - ho;
    let base = mirror_base(pc_len as nat) as int;
    lemma_fixed_header(rom);
    lemma_fix_checksum_idempotent(rom);
    lemma_mirror_base_le(pc_len as nat);
    assert forall|i: int| 0 <= i < pc_len implies #[trigger] checksum_byte(fixed, ho, hb, i) == checksum_byte(
        rom,
        ho,
        hb,
        i,
    ) by {}
    lemma_checksum_sum_ext(fixed, rom, ho, hb, 0, base);
    lemma_checksum_sum_ext(fixed, rom, ho, hb, base, pc_len);
    lemma_plain_vs_checksum(fixed, ho, hb, 0, base);
    lemma_plain_vs_checksum(fixed, ho, hb, base, pc_len);
    let c = checksum_value(rom);
    assert(((c ^ 0xFFFFu16) & 0xFF) as u8 + (c & 0xFF) as u8 == 0xFF && ((c ^ 0xFFFFu16) >> 8u16) as u8 + (c
        >> 8u16) as u8 == 0xFF) by (bit_vector);
    assert(header_adjust(fixed, ho, hb, 0, base) == 0);
    assert(header_adjust(fixed, ho, hb, base, pc_len) == 0);
}

/// File offsets that expansion may rewrite: the size byte, complement and
/// checksum of the header block at PC `hb`.
pub open spec fn is_header_field(ho: int, hb: int, i: int) -> bool {
    ||| i == ho + hb + SIZE_BYTE_OFFSET
    ||| ho + hb + COMPLEMENT_OFFSET <= i < ho + hb + CHECKSUM_OFFSET + 2
}

/// Expansion to a whole number of KiB keeps the SMC header and every byte
/// of the old image except the header fields it updates, and fills the
/// added space with `0xFF`; when the old ROM data already held the header
/// block (64 KiB or more), all of the added space reads `0xFF`, free for
/// every repointing write.
pub proof fn lemma_expansion_layout(rom: Seq<u8>, target_pc_size: nat)
    requires
        rom.len() - smc_offset(rom.len() as int) < target_pc_size,
        target_pc_size % 0x400 == 0,
    ensures
        ({
            let ho = smc_offset(rom.len() as int);
            let e = expanded(rom, target_pc_size as int);
            let hb = header_base(padded(rom, ho + target_pc_size), ho);
            &&& e.len() == ho + target_pc_size
            &&& smc_offset(e.len() as int) == ho
            &&& forall|i: int|
                0 <= i < e.len() && !is_header_field(ho, hb, i) ==> #[trigger] e[i] == if i < rom.len() {
                    rom[i]
                } else {
                    0xFFu8
                }
            &&& rom.len() - ho >= 0x10000 ==> forall|i: int| rom.len() <= i < e.len() ==> #[trigger] e[i] == 0xFFu8
        }),
{
    let ho = smc_offset(rom.len() as int);
    let p = padded(rom, ho + target_pc_size);
    let hb = header_base(p, ho);
    let sized = with_size_byte(p, ho, target_pc_size as int);
    let e = expanded(rom, target_pc_size as int);
    assert((ho + target_pc_size) % 0x400 == ho % 0x400);
    assert(smc_offset(sized.len() as int) == ho);
    assert(header_base(sized, ho) == hb) by {
        let lc = ho + LOROM_HEADER + CHECKSUM_OFFSET;
        let lk = ho + LOROM_HEADER + COMPLEMENT_OFFSET;
        let hc = ho + HIROM_HEADER + CHECKSUM_OFFSET;
        let hk = ho + HIROM_HEADER + COMPLEMENT_OFFSET;
        if lc + 1 < p.len() {
            assert(word_at(sized, lc) == word_at(p, lc));
            assert(word_at(sized, lk) == word_at(p, lk));
        }
        if hc + 1 < p.len() {
            assert(word_at(sized, hc) == word_at(p, hc));
            assert(word_at(sized, hk) == word_at(p, hk));
        }
    }
    assert forall|i: int|
        0 <= i < e.len() && !is_header_field(ho, hb, i) implies #[trigger] e[i] == if i < rom.len() {
            rom[i]
        } else {
            0xFFu8
        } by {
        assert(sized[i] == p[i]);
    }
    if rom.len() - ho >= 0x10000 {
        assert forall|i: int| rom.len() <= i < e.len() implies #[trigger] e[i] == 0xFFu8 by {
            assert(!is_header_field(ho, hb, i));
        }
    }
}

} // verus!
