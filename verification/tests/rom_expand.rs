use lib::rom_expand::{expand_rom, fix_checksum};

fn make_lorom(pc_size: usize) -> Vec<u8> {
    let mut rom = vec![0u8; pc_size];
    // Plausible LoROM header: mode byte + self-consistent checksum pair.
    rom[0x7FD5] = 0x20;
    rom[0x7FDC] = 0xFF;
    rom[0x7FDD] = 0xFF;
    rom[0x7FDE] = 0x00;
    rom[0x7FDF] = 0x00;
    rom
}

#[test]
fn expands_and_pads_with_ff() {
    let mut rom = make_lorom(0x80000);
    expand_rom(&mut rom, 0x100000).unwrap();
    assert_eq!(rom.len(), 0x100000);
    assert!(rom[0x80000..0xFFFFF].iter().all(|&b| b == 0xFF));
    // 1 MiB = 1024 KiB = 2^10.
    assert_eq!(rom[0x7FC0 + 0x17], 0x0A);
}

#[test]
fn refuses_to_shrink() {
    let mut rom = make_lorom(0x200000);
    assert!(expand_rom(&mut rom, 0x100000).is_err());
}

#[test]
fn expansion_preserves_smc_header() {
    let mut rom = vec![0u8; 0x80200];
    rom[..0x200].fill(0xAB);
    rom[0x200 + 0x7FDC] = 0xFF;
    rom[0x200 + 0x7FDD] = 0xFF;
    expand_rom(&mut rom, 0x100000).unwrap();
    assert_eq!(rom.len(), 0x100200);
    assert!(rom[..0x200].iter().all(|&b| b == 0xAB));
}

#[test]
fn checksum_is_self_consistent_and_verifies() {
    let mut rom = make_lorom(0x80000);
    for (i, b) in rom.iter_mut().enumerate() {
        *b = (i % 251) as u8;
    }
    fix_checksum(&mut rom);
    let checksum = u16::from_le_bytes([rom[0x7FDE], rom[0x7FDF]]);
    let complement = u16::from_le_bytes([rom[0x7FDC], rom[0x7FDD]]);
    assert_eq!(checksum ^ complement, 0xFFFF);
    // Recomputing the sum over the final bytes must reproduce the stored
    // checksum: sum with the 4 checksum bytes as FF FF 00 00 equals sum of
    // the actual bytes because complement + checksum == 0x1FE either way.
    let plain: u32 = rom.iter().map(|&b| b as u32).sum();
    assert_eq!((plain & 0xFFFF) as u16, checksum);
}

#[test]
fn fix_checksum_is_idempotent() {
    let mut rom = make_lorom(0x80000);
    for (i, b) in rom.iter_mut().enumerate() {
        *b = (i % 13) as u8;
    }
    fix_checksum(&mut rom);
    let first: Vec<u8> = rom.clone();
    fix_checksum(&mut rom);
    assert_eq!(first, rom);
}

#[test]
fn non_power_of_two_with_even_remainder_uses_mirroring() {
    // 3 MiB = 2 MiB base + 1 MiB remainder counted twice.
    let mut rom = make_lorom(0x300000);
    rom[0x250000] = 7;
    fix_checksum(&mut rom);
    let checksum = u16::from_le_bytes([rom[0x7FDE], rom[0x7FDF]]);
    let base_sum: u32 = rom[..0x200000].iter().map(|&b| b as u32).sum();
    let rem_sum: u32 = rom[0x200000..].iter().map(|&b| b as u32).sum();
    assert_eq!(checksum, ((base_sum + rem_sum * 2) & 0xFFFF) as u16);
}

#[test]
fn shrink_error_names_both_sizes() {
    let mut rom = make_lorom(0x200000);
    let err = expand_rom(&mut rom, 0x100000).unwrap_err();
    assert_eq!(err, "ROM is already 2097152 bytes; cannot shrink to 1048576 bytes");
    assert_eq!(rom.len(), 0x200000);
}

#[test]
fn equal_size_is_refused() {
    let mut rom = make_lorom(0x80000);
    assert!(expand_rom(&mut rom, 0x80000).is_err());
}

#[test]
fn expansion_to_four_mib_writes_size_exponent_twelve() {
    let mut rom = make_lorom(0x80000);
    expand_rom(&mut rom, 0x400000).unwrap();
    assert_eq!(rom.len(), 0x400000);
    assert_eq!(rom[0x7FD7], 0x0C);
    let checksum = u16::from_le_bytes([rom[0x7FDE], rom[0x7FDF]]);
    let complement = u16::from_le_bytes([rom[0x7FDC], rom[0x7FDD]]);
    assert_eq!(checksum ^ complement, 0xFFFF);
}
