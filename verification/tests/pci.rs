use rust_os::devices::{PCIDeviceConfigHeader, PCIDeviceConfigHeaderType as LegacyHeaderType};
use rust_os::memory::KernPhysAddr;
use rust_os::pci::capabilities::PCI_CONFIG_SPACE_SIZE;
use rust_os::pci::{
    device_type, lookup_known_device_id, lookup_vendor_id, BARAddress, BARAddresses, PCIConfigDeviceID,
    PCIDeviceCapability, PCIDeviceCapabilityHeader, PCIDeviceClass, PCIDeviceConfig,
    PCIDeviceConfigHeaderLayout, PCIDeviceConfigHeaderType, PCIDeviceConfigStatus, PCIDeviceConfigTypes,
    PCIDeviceLocation, MSIXTableOffset,
};

#[test]
fn vendor_names() {
    assert_eq!(lookup_vendor_id(0xFFFF), "INVALID (0xFFFF)");
    assert_eq!(lookup_vendor_id(0x8086), "Intel Corp.");
    assert_eq!(lookup_vendor_id(0x8087), "Intel Corp.");
    assert_eq!(lookup_vendor_id(0x1af4), "virtio");
    assert_eq!(lookup_vendor_id(0x1002), "Advanced Micro Devices, Inc. [AMD/ATI]");
    assert_eq!(lookup_vendor_id(0x1234), "UNKNOWN");
}

#[test]
fn device_names() {
    assert_eq!(lookup_known_device_id(0x8086, 0x10d3), "82574L Gigabit Network Connection");
    assert_eq!(lookup_known_device_id(0x1af4, 0x1001), "block device");
    assert_eq!(lookup_known_device_id(0x1af4, 0x1042), "block device");
    assert_eq!(lookup_known_device_id(0x1af4, 0x106A), "RDMA device");
    assert_eq!(lookup_known_device_id(0x1af4, 0x1065), "UNKNOWN");
    assert_eq!(lookup_known_device_id(0x8087, 0x10d3), "UNKNOWN");
}

#[test]
fn device_types() {
    assert_eq!(device_type(0x00, 0, 0), Ok("Unclassified"));
    assert_eq!(device_type(0x01, 0x06, 0x01), Ok("Mass Storage Controller: SATA: AHCI1_0"));
    assert_eq!(device_type(0x01, 0x06, 0x05), Err("invalid PCI device mass storage controller SATA prog_if"));
    assert_eq!(device_type(0x01, 0x09, 0x00), Err("invalid PCI device mass storage controller subclass"));
    assert_eq!(device_type(0x02, 0x00, 0x00), Ok("Network Controller"));
    assert_eq!(device_type(0x40, 0, 0), Ok("Coprocessor"));
    assert_eq!(device_type(0x20, 0, 0), Err("invalid PCI device class"));
    assert_eq!(PCIDeviceClass::from_byte(0x0C), Ok(PCIDeviceClass::SerialBusController));
}

#[test]
fn header_type_layout() {
    assert_eq!(PCIDeviceConfigHeaderType(0x80).layout(), Ok(PCIDeviceConfigHeaderLayout::GeneralDevice));
    assert!(PCIDeviceConfigHeaderType(0x80).multifunction());
    assert_eq!(PCIDeviceConfigHeaderType(0x01).layout(), Ok(PCIDeviceConfigHeaderLayout::PCIToPCIBridge));
    assert_eq!(PCIDeviceConfigHeaderType(0x02).layout(), Err("invalid PCI device header type"));
    assert_eq!(PCIDeviceConfigHeaderType(0x81).layout(), Ok(PCIDeviceConfigHeaderLayout::PCIToPCIBridge));
    assert_eq!(PCIDeviceConfigHeaderType(0x08).layout(), Err("invalid PCI device header type"));
    assert_eq!(PCIDeviceConfigHeaderLayout::PCIToPCIBridge.as_str(), "0x01 (PCI-to-PCI Bridge)");
}

#[test]
fn status_register_bits() {
    let status = PCIDeviceConfigStatus(0b0000_0110_0001_0000);
    assert!(status.capabilities_list());
    assert!(!status.interrupt_status());
    assert_eq!(status.devsel_timing(), 0b11);
}

#[test]
fn bar_interpretation() {
    let bars = BARAddresses { bars: [0xFEBF_0000, 0xFEBF_100C, 0x0000_0001, 0x0000_C001, 0, 0] };
    let interpreted = bars.interpreted();
    assert_eq!(interpreted[0], Some(BARAddress::Mem32Bit { address: 0xFEBF_0000, prefetchable: false }));
    assert_eq!(
        interpreted[1],
        Some(BARAddress::Mem64Bit { address: 0x1_FEBF_1000, prefetchable: true })
    );
    assert_eq!(interpreted[2], None);
    assert_eq!(interpreted[3], Some(BARAddress::IO(0xC000)));
    assert_eq!(interpreted[4], None);
    assert_eq!(interpreted[5], None);
}

/// A configuration space of a virtio block device (type 0 header) with an
/// MSI-X capability at 0x40 and a vendor-specific one at 0x50.
fn config_space() -> Vec<u8> {
    let mut config = vec![0u8; PCI_CONFIG_SPACE_SIZE];
    config[0..2].copy_from_slice(&0x1af4u16.to_le_bytes());
    config[2..4].copy_from_slice(&0x1042u16.to_le_bytes());
    config[6..8].copy_from_slice(&0x0010u16.to_le_bytes());
    config[0x0A] = 0x00; // subclass
    config[0x0B] = 0x01; // mass storage
    config[0x0E] = 0x00; // general device
    config[0x10..0x14].copy_from_slice(&0xFEBD_5000u32.to_le_bytes());
    config[0x34] = 0x40;
    config[0x40] = 0x11;
    config[0x41] = 0x50;
    config[0x42..0x44].copy_from_slice(&0x8003u16.to_le_bytes());
    config[0x44..0x48].copy_from_slice(&0x0000_2001u32.to_le_bytes());
    config[0x48..0x4C].copy_from_slice(&0x0000_3001u32.to_le_bytes());
    config[0x50] = 0x09;
    config[0x51] = 0x00;
    config
}

#[test]
fn device_identity_from_config_space() {
    let config = config_space();
    let id = PCIConfigDeviceID::from_config_space(&config);
    assert!(id.is_present());
    assert_eq!(id.known_vendor_id(), "virtio");
    assert_eq!(id.known_device_id(), "block device");
    assert_eq!(id.known_device_type(), "Mass Storage Controller: SCSI");
}

#[test]
fn missing_device_is_none() {
    let config = vec![0xFFu8; 64];
    let location = PCIDeviceLocation {
        ecam_base_address: KernPhysAddr(0xffff_8000_b000_0000),
        bus_number: 0,
        device_number: 1,
        function_number: 0,
    };
    assert!(PCIDeviceConfig::new(location, &config).is_none());
}

#[test]
fn device_location_base_address() {
    let location = PCIDeviceLocation {
        ecam_base_address: KernPhysAddr(0xffff_8000_b000_0000),
        bus_number: 1,
        device_number: 2,
        function_number: 3,
    };
    assert_eq!(location.device_base_address().0, 0xffff_8000_b000_0000 + (1 << 20) + (2 << 15) + (3 << 12));
}

#[test]
fn capability_list_walk() {
    let config = config_space();
    let location = PCIDeviceLocation {
        ecam_base_address: KernPhysAddr(0xffff_8000_b000_0000),
        bus_number: 0,
        device_number: 4,
        function_number: 0,
    };
    let device = PCIDeviceConfig::new(location, &config).expect("device present");
    let general = match device.config_type(&config) {
        Ok(PCIDeviceConfigTypes::GeneralDevice(t)) => t,
        _ => panic!("expected a general device"),
    };
    assert_eq!(general.bar(0), BARAddress::Mem32Bit { address: 0xFEBD_5000, prefetchable: false });

    let base = 0x1000usize;
    let mut caps = general.iter_capabilities(base, &config);
    let first = caps.next(&config).expect("MSI-X capability");
    assert_eq!(first.address(), base + 0x40);
    assert!(!first.is_vendor_specific());
    match first.capability(&config) {
        PCIDeviceCapability::MSIX(msix) => {
            assert_eq!(msix.message_control.table_size(), 3);
            assert!(msix.message_control.enable());
            assert_eq!(msix.table_offset.bar_indicator_register(), 1);
            assert_eq!(msix.table_offset.table_offset(), 0x2000);
            assert_eq!(msix.pending_bit_array_offset.pba_offset(), 0x3000);
        },
        _ => panic!("expected MSI-X"),
    }
    let second = caps.next(&config).expect("vendor-specific capability");
    assert!(second.is_vendor_specific());
    assert_eq!(second.address(), base + 0x50);
    assert!(caps.next(&config).is_none());
    assert!(PCIDeviceCapabilityHeader::new(base, &config, 0).is_none());
    assert_eq!(MSIXTableOffset(0xFFFF_FFFF).table_offset(), 0xFFFF_FFF8);
}

#[test]
fn legacy_config_header() {
    let mut bytes = [0u8; 16];
    bytes[0..2].copy_from_slice(&0x8086u16.to_le_bytes());
    bytes[2..4].copy_from_slice(&0x2922u16.to_le_bytes());
    bytes[9] = 0x01; // prog_if
    bytes[10] = 0x06; // subclass: SATA
    bytes[11] = 0x01; // class: mass storage
    bytes[14] = 0x80; // general device, multifunction
    let header = PCIDeviceConfigHeader::from_bytes(&bytes).expect("valid header").expect("device present");
    assert_eq!(header.vendor_id, 0x8086);
    assert_eq!(header.header_type, LegacyHeaderType::GeneralDevice);
    assert!(header.multiple_functions);
    assert_eq!(
        header.class,
        rust_os::devices::PCIDeviceClass::MassStorageController(
            rust_os::devices::PCIDeviceMassStorageControllerSubclass::SATA(1)
        )
    );

    bytes[14] = 0x03;
    assert_eq!(PCIDeviceConfigHeader::from_bytes(&bytes), Err("invalid PCI header type"));
    bytes[14] = 0x00;
    bytes[10] = 0x42;
    assert_eq!(
        PCIDeviceConfigHeader::from_bytes(&bytes),
        Err("invalid PCI device mass storage controller subclass")
    );
    bytes[0] = 0xFF;
    bytes[1] = 0xFF;
    assert_eq!(PCIDeviceConfigHeader::from_bytes(&bytes), Ok(None));
}
