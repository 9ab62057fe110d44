use rust_os::elf::{ElfExecutableHeader, ElfExecutableHeaderError, LoadableSegmentFlags, READABLE, EXECUTABLE};

/// A little-endian ELF64 executable for x86_64 with one loadable segment
/// and a note segment.
fn elf_bytes(e_type: u16, entry: u64, flags: u32, paddr: u64) -> Vec<u8> {
    let mut b = vec![0u8; 64 + 2 * 56];
    b[0..4].copy_from_slice(&[0x7f, b'E', b'L', b'F']);
    b[4] = 2; // 64-bit
    b[5] = 1; // little endian
    b[6] = 1; // version
    b[16..18].copy_from_slice(&e_type.to_le_bytes());
    b[18..20].copy_from_slice(&62u16.to_le_bytes());
    b[20..24].copy_from_slice(&1u32.to_le_bytes());
    b[24..32].copy_from_slice(&entry.to_le_bytes());
    b[32..40].copy_from_slice(&64u64.to_le_bytes()); // e_phoff
    b[52..54].copy_from_slice(&64u16.to_le_bytes()); // e_ehsize
    b[54..56].copy_from_slice(&56u16.to_le_bytes()); // e_phentsize
    b[56..58].copy_from_slice(&2u16.to_le_bytes()); // e_phnum

    let ph = 64;
    b[ph..ph + 4].copy_from_slice(&1u32.to_le_bytes()); // PT_LOAD
    b[ph + 4..ph + 8].copy_from_slice(&flags.to_le_bytes());
    b[ph + 8..ph + 16].copy_from_slice(&0u64.to_le_bytes());
    b[ph + 16..ph + 24].copy_from_slice(&0x40_0000u64.to_le_bytes());
    b[ph + 24..ph + 32].copy_from_slice(&paddr.to_le_bytes());
    b[ph + 32..ph + 40].copy_from_slice(&176u64.to_le_bytes());
    b[ph + 40..ph + 48].copy_from_slice(&0x2000u64.to_le_bytes());
    b[ph + 48..ph + 56].copy_from_slice(&0x1000u64.to_le_bytes());

    let note = 64 + 56;
    b[note..note + 4].copy_from_slice(&4u32.to_le_bytes()); // PT_NOTE
    b
}

#[test]
fn parses_executable() {
    let bytes = elf_bytes(2, 0x40_1000, 5, 0);
    let header = ElfExecutableHeader::parse(&bytes).expect("valid executable");
    assert_eq!(header.e_type, 2);
    assert_eq!(header.e_machine, 62);
    assert_eq!(header.entrypoint.0, 0x40_1000);
    assert_eq!(header.loadable_segments.len(), 1);
    let segment = header.loadable_segments[0];
    assert_eq!(segment.vaddr.0, 0x40_0000);
    assert_eq!(segment.mem_size, 0x2000);
    assert_eq!(segment.alignment, 0x1000);
    assert!(segment.flags.contains(READABLE | EXECUTABLE));
    assert_eq!(segment.raw_header.p_filesz, 176);
}

#[test]
fn entry_point_is_made_canonical() {
    let bytes = elf_bytes(2, 0x0000_8000_0000_1000, 5, 0);
    let header = ElfExecutableHeader::parse(&bytes).expect("valid executable");
    assert_eq!(header.entrypoint.0, 0xFFFF_8000_0000_1000);
}

#[test]
fn refuses_shared_object() {
    let bytes = elf_bytes(3, 0x40_1000, 5, 0);
    assert!(matches!(ElfExecutableHeader::parse(&bytes), Err(ElfExecutableHeaderError::NotExecutable(3))));
}

#[test]
fn refuses_bad_physical_address() {
    let bytes = elf_bytes(2, 0x40_1000, 5, 0x50_0000);
    assert!(matches!(
        ElfExecutableHeader::parse(&bytes),
        Err(ElfExecutableHeaderError::InvalidPhysicalAddress(_))
    ));
}

#[test]
fn refuses_unknown_flags() {
    let bytes = elf_bytes(2, 0x40_1000, 0x15, 0x40_0000);
    assert!(matches!(ElfExecutableHeader::parse(&bytes), Err(ElfExecutableHeaderError::InvalidFlags(_))));
}

#[test]
fn refuses_garbage() {
    let bytes = vec![0u8; 200];
    assert!(matches!(ElfExecutableHeader::parse(&bytes), Err(ElfExecutableHeaderError::Parse(_))));
}

#[test]
fn try_parse_refuses_non_canonical_entry() {
    let bytes = elf_bytes(2, 0x1234_0000_0000_0000, 5, 0);
    assert!(ElfExecutableHeader::try_parse(&bytes).is_none());
    let bytes = elf_bytes(2, 0x40_1000, 5, 0);
    assert!(matches!(ElfExecutableHeader::try_parse(&bytes), Some(Ok(_))));
}

#[test]
fn segment_flags() {
    assert_eq!(LoadableSegmentFlags::from_bits(7).map(|f| f.bits()), Some(7));
    assert!(LoadableSegmentFlags::from_bits(8).is_none());
}
