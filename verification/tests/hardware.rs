use rust_os::ansiterm::{bold, clear_format, green, AnsiEscapeSequence, Color, SelectGraphicRendition};
use rust_os::apic::{
    all_cpus_ipi_command, InterruptCommandDeliveryMode, InterruptCommandDestinationMode,
    InterruptCommandDestinationShorthand, InterruptCommandLevel, LocalAPIC, SpuriousInterruptVector,
};
use rust_os::boot_info::memory_map_totals;
use rust_os::fat::BIOSParameterBlock;
use rust_os::hpet::{
    enable_periodic_timer, GeneralCapabilitiesAndID, GeneralConfiguration, Milliseconds,
    TimerConfigAndCapabilities, timer_registers_offset,
};
use rust_os::ioapic::{
    combine_64_bit_register, ioredtbl_register, ioredtbl_writes, irq_redirection_entry,
    split_64_bit_register, IOAPICIRQNumber, IOAPICID,
};
use rust_os::vfs::{sysfs_read_file, FileInodeReadResult};

#[test]
fn local_apic_enable() {
    let mut apic = LocalAPIC { spurious_interrupt_vector: SpuriousInterruptVector(0x0000_1020) };
    apic.enable();
    assert_eq!(apic.spurious_interrupt_vector.0, 0x0000_11FF);
    assert_eq!(apic.spurious_interrupt_vector.vector(), 0xFF);
    assert!(apic.spurious_interrupt_vector.apic_enabled());
}

#[test]
fn ipi_to_all_cpus() {
    let command = all_cpus_ipi_command(0x42);
    assert_eq!(command.0, 0x0008_4842);
    assert_eq!(command.vector(), 0x42);
    assert_eq!(command.delivery_mode(), InterruptCommandDeliveryMode::Fixed);
    assert_eq!(command.destination_mode(), InterruptCommandDestinationMode::Logical);
    assert_eq!(command.level(), InterruptCommandLevel::Assert);
    assert_eq!(command.destination_shorthand(), InterruptCommandDestinationShorthand::AllIncludingSelf);
    assert_eq!(InterruptCommandDeliveryMode::from_u32(6), InterruptCommandDeliveryMode::StartUp);
    assert_eq!(InterruptCommandDeliveryMode::NMI.as_u32(), 4);
}

#[test]
fn ioapic_redirection() {
    let entry = irq_redirection_entry(0x21, 3);
    assert_eq!(entry.0, 0x0300_0000_0000_0021);
    assert_eq!(entry.interrupt_vector(), 0x21);
    assert!(!entry.interrupt_mask());
    assert_eq!(entry.destination_field(), 3);
    assert_eq!(ioredtbl_register(1), 0x12);
    assert_eq!(ioredtbl_writes(1, entry), [(0x12, 0x21), (0x13, 0x0300_0000)]);
    let [(lo_reg, lo), (hi_reg, hi)] = split_64_bit_register(0x10, 0x1122_3344_5566_7788);
    assert_eq!((lo_reg, hi_reg), (0x10, 0x11));
    assert_eq!(combine_64_bit_register(lo, hi), 0x1122_3344_5566_7788);
    assert_eq!(IOAPICID(0x0A00_0000).id(), 0xA);
    assert_eq!(IOAPICIRQNumber::TestHPET.as_u8(), 10);
}

#[test]
fn hpet_periodic_timer() {
    assert_eq!(Milliseconds::new(10).femtoseconds(), 10_000_000_000_000);
    assert_eq!(timer_registers_offset(2), 0x140);
    // 3 timers, period 10^7 fs (100 MHz).
    let caps = GeneralCapabilitiesAndID((10_000_000u64 << 32) | (2 << 8) | 1);
    assert_eq!(caps.number_of_timers(), 2);
    let setup = enable_periodic_timer(
        caps,
        GeneralConfiguration(0),
        TimerConfigAndCapabilities(1 << 4),
        1,
        10,
        Milliseconds::new(10).femtoseconds(),
    );
    assert!(setup.general_configuration.enabled());
    assert!(setup.timer_config.is_periodic());
    assert!(setup.timer_config.interrupt_enabled());
    assert_eq!(setup.timer_config.interrupt_route(), 10);
    assert_eq!(setup.comparator_value, 1_000_000);
    // The last of the three timers, number 2, can be set up too.
    let last = enable_periodic_timer(caps, GeneralConfiguration(0), TimerConfigAndCapabilities(1 << 4), 2, 11, 5);
    assert_eq!(last.timer_config.interrupt_route(), 11);
}

#[test]
fn ansi_escape_sequences() {
    assert_eq!(clear_format().to_bytes(), b"\x1B[0m".to_vec());
    assert_eq!(bold().to_bytes(), b"\x1B[1m".to_vec());
    assert_eq!(green().to_bytes(), b"\x1B[32m".to_vec());
    assert_eq!(
        AnsiEscapeSequence::SelectGraphicRendition(SelectGraphicRendition::BackgroundColor(Color::White)).to_bytes(),
        b"\x1B[47m".to_vec()
    );
    assert_eq!(AnsiEscapeSequence::ClearEntireLine.to_bytes(), b"\x1B[2K".to_vec());
    assert_eq!(AnsiEscapeSequence::MoveCursorTopLeft.to_bytes(), b"\x1B[H".to_vec());
    assert_eq!(Color::Cyan.foreground_byte(), 36);
}

#[test]
fn fat_bios_parameter_block() {
    let mut bytes = [0u8; 36];
    bytes[0..3].copy_from_slice(&[0xEB, 0x3C, 0x90]);
    bytes[3..11].copy_from_slice(b"MSWIN4.1");
    bytes[11..13].copy_from_slice(&512u16.to_le_bytes());
    bytes[13] = 4;
    bytes[16] = 2;
    bytes[32..36].copy_from_slice(&70_000u32.to_le_bytes());
    let block = BIOSParameterBlock::from_bytes(&bytes);
    assert_eq!(&block.oem_name, b"MSWIN4.1");
    assert_eq!(block.bytes_per_sector, 512);
    assert_eq!(block.sectors_per_cluster, 4);
    assert_eq!(block.fat_count, 2);
    assert_eq!(block.total_sectors_large, 70_000);
}

#[test]
fn sysfs_reads() {
    let mut buffer = vec![0u8; 4];
    assert_eq!(sysfs_read_file("hello world", &mut buffer, 0), FileInodeReadResult::Success);
    assert_eq!(&buffer, b"hell");
    let mut buffer = vec![9u8; 8];
    assert_eq!(sysfs_read_file("hello world", &mut buffer, 6), FileInodeReadResult::Done { bytes_read: 11 });
    assert_eq!(&buffer, b"world\x09\x09\x09");
    let mut buffer = vec![1u8; 2];
    assert_eq!(sysfs_read_file("abc", &mut buffer, 10), FileInodeReadResult::Done { bytes_read: 3 });
    assert_eq!(buffer, vec![1, 1]);
}

#[test]
fn memory_map_totals_by_type() {
    let entries: Vec<(u64, u64, u8)> = vec![
        (0x0, 0x9_f000, 0),
        (0x9_f000, 0x1000, 1),
        (0x10_0000, 0x700_0000, 0),
        (0xfd00_0000, 0x30_0000, 7),
        (0x800_0000, 0x10_0000, 1),
    ];
    let (totals, max_memory) = memory_map_totals(&entries);
    assert_eq!(totals[0], 0x9_f000 + 0x700_0000);
    assert_eq!(totals[1], 0x1000 + 0x10_0000);
    assert_eq!(totals[7], 0x30_0000);
    assert_eq!(totals[2], 0);
    assert_eq!(max_memory, 0xfd30_0000);
    let (empty_totals, empty_max) = memory_map_totals(&Vec::new());
    assert_eq!(empty_totals, [0u64; 16]);
    assert_eq!(empty_max, 0);
}
