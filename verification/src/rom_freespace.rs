//! Free-space scanning shared by every path that repoints ROM data.
//!
//! Free space is a run of `0xFF` bytes. A run never spans a LoROM bank
//! boundary, and space at PC `0x380000` or above (banks that shadow SRAM on
//! LoROM) is never handed out.

use vstd::prelude::*;

verus! {

/// Size of one LoROM bank in PC bytes.
pub const BANK: usize = 0x8000;

/// First PC address of the LoROM banks that shadow SRAM.
pub const LOROM_SRAM_BANKS_PC: usize = 0x38_0000;

/// The PC address at which the scan stops: the searched range end, the SRAM
/// limit, and the end of the ROM data, whichever comes first.
pub open spec fn scan_limit(rom_len: int, pc_end: int, header_offset: int) -> int {
    let a = if pc_end < LOROM_SRAM_BANKS_PC { pc_end } else { LOROM_SRAM_BANKS_PC as int };
    let b = if rom_len >= header_offset { rom_len - header_offset } else { 0 };
    if a < b { a } else { b }
}

/// `pc` starts a new bank inside the scan (bank starts other than the scan
/// start break runs).
pub open spec fn breaks_run(pc: int, pc_start: int) -> bool {
    pc % (BANK as int) == 0 && pc != pc_start
}

/// `[s, s + n)` is a usable block: inside the scanned range, all `0xFF`, and
/// not crossing a bank start.
pub open spec fn free_window(
    rom: Seq<u8>,
    header_offset: int,
    pc_start: int,
    limit: int,
    s: int,
    n: int,
) -> bool {
    &&& pc_start <= s
    &&& s + n <= limit
    &&& forall|pc: int| s <= pc < s + n ==> #[trigger] rom[pc + header_offset] == 0xFF
    &&& forall|pc: int| s < pc < s + n ==> !#[trigger] breaks_run(pc, pc_start)
}

/// Number of bytes the scan looks for: a request for 0 bytes is served by
/// the first free byte.
pub open spec fn effective_need(needed: int) -> int {
    if needed == 0 { 1 } else { needed }
}

/// What the scan answers: the lowest start of a usable block of the needed
/// size, or `None` when there is none.
pub open spec fn free_space_result(
    rom: Seq<u8>,
    needed: int,
    pc_start: int,
    pc_end: int,
    header_offset: int,
    result: Option<usize>,
) -> bool {
    let limit = scan_limit(rom.len() as int, pc_end, header_offset);
    let k = effective_need(needed);
    match result {
        Some(s) => {
            &&& free_window(rom, header_offset, pc_start, limit, s as int, k)
            &&& forall|t: int| t < s ==> !#[trigger] free_window(rom, header_offset, pc_start, limit, t, k)
        },
        None => forall|t: int| !#[trigger] free_window(rom, header_offset, pc_start, limit, t, k),
    }
}

/// Find `needed` contiguous bytes of unused ROM space (`0xFF` fill), starting
/// the search at PC address `pc_start`, never spanning a LoROM bank boundary.
/// `header_offset` is `0x200` for SMC-headered ROMs, `0` otherwise.
pub fn find_free_space(rom_bytes: &[u8], needed: usize, pc_start: usize, header_offset: usize) -> (res:
    Option<usize>)
    ensures
        free_space_result(
            rom_bytes@,
            needed as int,
            pc_start as int,
            if rom_bytes@.len() >= header_offset { rom_bytes@.len() - header_offset } else { 0 },
            header_offset as int,
            res,
        ),
{
    let pc_end = rom_bytes.len().saturating_sub(header_offset);
    find_free_space_in(rom_bytes, needed, pc_start, pc_end, header_offset)
}

/// Like `find_free_space`, but restricted to the PC range `[pc_start, pc_end)`.
pub fn find_free_space_in(
    rom_bytes: &[u8],
    needed: usize,
    pc_start: usize,
    pc_end: usize,
    header_offset: usize,
) -> (res: Option<usize>)
    ensures
        free_space_result(rom_bytes@, needed as int, pc_start as int, pc_end as int, header_offset as int, res),
{
    let ghost rom = rom_bytes@;
    let ghost ho = header_offset as int;
    let ghost k = effective_need(needed as int);
    let ghost ps = pc_start as int;
    let end_a = if pc_end < LOROM_SRAM_BANKS_PC { pc_end } else { LOROM_SRAM_BANKS_PC };
    let end_b = if rom_bytes.len() >= header_offset { rom_bytes.len() - header_offset } else { 0 };
    let limit = if end_a < end_b { end_a } else { end_b };
    let ghost lim = limit as int;
    let rlen = rom_bytes.len();
    assert(rom.len() == rlen);
    assert(lim == scan_limit(rom.len() as int, pc_end as int, ho));

    let mut run_start: Option<usize> = None;
    let mut run_len: usize = 0;
    let mut pc = pc_start;
    while pc < limit
        invariant
            rom == rom_bytes@,
            lim == limit,
            lim == scan_limit(rom.len() as int, pc_end as int, ho),
            ho == header_offset,
            ps == pc_start,
            k == effective_need(needed as int),
            pc_start < lim ==> pc_start + header_offset <= usize::MAX,
            pc_start <= pc,
            pc < lim ==> pc_start <= pc,
            lim <= LOROM_SRAM_BANKS_PC,
            lim == 0 || lim + ho <= rom.len(),
            rom.len() <= usize::MAX,
            pc_start < lim ==> pc <= lim,
            run_len <= pc - pc_start,
            run_len < k,
            run_len == 0 <==> run_start is None,
            run_start matches Some(r) ==> r == pc - run_len,
            forall|q: int| pc - run_len <= q < pc ==> #[trigger] rom[q + ho] == 0xFF,
            forall|q: int| pc - run_len < q < pc ==> !#[trigger] breaks_run(q, ps),
            pc > pc_start ==> (pc - run_len == pc_start || breaks_run(pc - run_len, ps) || rom[pc - run_len - 1
                + ho] != 0xFF),
            forall|t: int| t + k <= pc ==> !#[trigger] free_window(rom, ho, ps, lim, t, k),
        decreases limit - pc,
    {
        if pc % BANK == 0 && pc != pc_start {
            run_start = None;
            run_len = 0;
        }
        let file = pc + header_offset;
        if rom_bytes[file] == 0xFF {
            if run_start.is_none() {
                run_start = Some(pc);
            }
            run_len += 1;
            if run_len >= needed {
                let s = pc + 1 - run_len;
                assert(run_len == k);
                assert(free_window(rom, ho, ps, lim, s as int, k));
                assert forall|t: int| t < s implies !#[trigger] free_window(rom, ho, ps, lim, t, k) by {
                    if t + k > pc {
                        // t + k == pc + 1 would make t == s; so t + k <= pc
                        assert(t + k <= pc + 1);
                        if free_window(rom, ho, ps, lim, t, k) {
                            assert(t + k <= pc);
                        }
                    }
                }
                return run_start;
            }
        } else {
            run_start = None;
            run_len = 0;
        }
        proof {
            let r = pc + 1 - run_len;
            assert(r == ps || breaks_run(r, ps) || rom[r - 1 + ho] != 0xFF);
            assert forall|t: int| t + k <= pc + 1 implies !#[trigger] free_window(rom, ho, ps, lim, t, k) by {
                if t + k == pc + 1 && free_window(rom, ho, ps, lim, t, k) {
                    assert(rom[pc + ho] == 0xFF);
                    assert(t < r);
                    if r != ps {
                        if breaks_run(r, ps) {
                            assert(t < r < t + k);
                        } else {
                            assert(t <= r - 1 < t + k);
                        }
                    }
                }
            }
        }
        pc += 1;
    }
    proof {
        assert forall|t: int| !#[trigger] free_window(rom, ho, ps, lim, t, k) by {
            if free_window(rom, ho, ps, lim, t, k) {
                assert(t + k <= lim);
            }
        }
    }
    None
}

} // verus!
