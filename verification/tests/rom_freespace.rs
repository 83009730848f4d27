use lib::rom_freespace::{find_free_space, find_free_space_in};

#[test]
fn finds_a_run_of_free_space() {
    let mut rom = vec![0x00u8; 0x10000];
    rom[100..110].fill(0xFF);
    assert_eq!(find_free_space(&rom, 10, 0, 0), Some(100));
}

#[test]
fn does_not_span_a_bank_boundary() {
    let mut rom = vec![0x00u8; 0x20000];
    // Free space straddling the 0x8000 boundary, each side too short alone.
    rom[0x7FF8..0x8008].fill(0xFF);
    assert_eq!(find_free_space(&rom, 10, 0, 0), None);
}

#[test]
fn respects_header_offset() {
    let mut rom = vec![0x00u8; 0x10100];
    // Free space at file offset 0x200..0x210, i.e. PC 0x0..0x10 with a 0x200 header.
    rom[0x200..0x210].fill(0xFF);
    assert_eq!(find_free_space(&rom, 16, 0, 0x200), Some(0));
}

#[test]
fn returns_none_when_not_enough_space() {
    let rom = vec![0x00u8; 0x1000];
    assert_eq!(find_free_space(&rom, 10, 0, 0), None);
}

#[test]
fn find_free_space_in_respects_pc_end() {
    let mut rom = vec![0x00u8; 0x1000];
    rom[500..520].fill(0xFF);
    // Free space exists, but outside the searched range.
    assert_eq!(find_free_space_in(&rom, 10, 0, 400, 0), None);
    assert_eq!(find_free_space_in(&rom, 10, 0, 600, 0), Some(500));
}

#[test]
fn run_starting_at_bank_start_is_found() {
    let mut rom = vec![0x00u8; 0x20000];
    rom[0x8000..0x8010].fill(0xFF);
    assert_eq!(find_free_space(&rom, 16, 0, 0), Some(0x8000));
}

#[test]
fn first_fitting_run_wins() {
    let mut rom = vec![0x00u8; 0x1000];
    rom[10..14].fill(0xFF);
    rom[40..60].fill(0xFF);
    rom[100..200].fill(0xFF);
    assert_eq!(find_free_space(&rom, 8, 0, 0), Some(40));
}

#[test]
fn search_starts_at_pc_start() {
    let mut rom = vec![0x00u8; 0x1000];
    rom[0..100].fill(0xFF);
    assert_eq!(find_free_space(&rom, 10, 50, 0), Some(50));
}
