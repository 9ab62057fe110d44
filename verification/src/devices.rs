//! Decoding of the first 16 bytes of a PCI function's configuration header
//! into a description of the device, as the early device probe prints it.

use vstd::prelude::*;

use crate::bytes::{le_u16, read_u16_le};

verus! {

pub type PCIDeviceUnknownSubclass = u8;

pub type PCIDeviceUnknownProgIF = u8;

#[derive(Debug, Clone, Copy, PartialEq, Eq, Structural)]
pub enum PCIDeviceMassStorageControllerSubclass {
    SCSI(PCIDeviceUnknownProgIF),
    IDE(PCIDeviceUnknownProgIF),
    FloppyDisk(PCIDeviceUnknownProgIF),
    IPIBus(PCIDeviceUnknownProgIF),
    RAID(PCIDeviceUnknownProgIF),
    ATA(PCIDeviceUnknownProgIF),
    SATA(PCIDeviceUnknownProgIF),
    SAS(PCIDeviceUnknownProgIF),
    NVM(PCIDeviceUnknownProgIF),
    Other(PCIDeviceUnknownProgIF),
}

/// The mass storage controller that a subclass stands for, if any.
pub open spec fn mass_storage_subclass_of(subclass: u8, prog_if: u8) -> Option<PCIDeviceMassStorageControllerSubclass> {
    match subclass {
        0x00 => Some(PCIDeviceMassStorageControllerSubclass::SCSI(prog_if)),
        0x01 => Some(PCIDeviceMassStorageControllerSubclass::IDE(prog_if)),
        0x02 => Some(PCIDeviceMassStorageControllerSubclass::FloppyDisk(prog_if)),
        0x03 => Some(PCIDeviceMassStorageControllerSubclass::IPIBus(prog_if)),
        0x04 => Some(PCIDeviceMassStorageControllerSubclass::RAID(prog_if)),
        0x05 => Some(PCIDeviceMassStorageControllerSubclass::ATA(prog_if)),
        0x06 => Some(PCIDeviceMassStorageControllerSubclass::SATA(prog_if)),
        0x07 => Some(PCIDeviceMassStorageControllerSubclass::SAS(prog_if)),
        0x08 => Some(PCIDeviceMassStorageControllerSubclass::NVM(prog_if)),
        0x80 => Some(PCIDeviceMassStorageControllerSubclass::Other(prog_if)),
        _ => None,
    }
}

impl PCIDeviceMassStorageControllerSubclass {
    pub fn from_bytes(subclass: u8, prog_if: u8) -> (r: Result<PCIDeviceMassStorageControllerSubclass, &'static str>)
        ensures
            match r {
                Ok(s) => mass_storage_subclass_of(subclass, prog_if) == Some(s),
                Err(e) => mass_storage_subclass_of(subclass, prog_if) is None
                    && e@ == "invalid PCI device mass storage controller subclass"@,
            },
    {
        match subclass {
            0x00 => Ok(PCIDeviceMassStorageControllerSubclass::SCSI(prog_if)),
            0x01 => Ok(PCIDeviceMassStorageControllerSubclass::IDE(prog_if)),
            0x02 => Ok(PCIDeviceMassStorageControllerSubclass::FloppyDisk(prog_if)),
            0x03 => Ok(PCIDeviceMassStorageControllerSubclass::IPIBus(prog_if)),
            0x04 => Ok(PCIDeviceMassStorageControllerSubclass::RAID(prog_if)),
            0x05 => Ok(PCIDeviceMassStorageControllerSubclass::ATA(prog_if)),
            0x06 => Ok(PCIDeviceMassStorageControllerSubclass::SATA(prog_if)),
            0x07 => Ok(PCIDeviceMassStorageControllerSubclass::SAS(prog_if)),
            0x08 => Ok(PCIDeviceMassStorageControllerSubclass::NVM(prog_if)),
            0x80 => Ok(PCIDeviceMassStorageControllerSubclass::Other(prog_if)),
            _ => Err("invalid PCI device mass storage controller subclass"),
        }
    }
}

#[derive(Debug, Clone, Copy, PartialEq, Eq, Structural)]
pub enum PCIDeviceClass {
    Unclassified { subclass: PCIDeviceUnknownSubclass, prog_if: PCIDeviceUnknownProgIF },
    MassStorageController(PCIDeviceMassStorageControllerSubclass),
    NetworkController { subclass: PCIDeviceUnknownSubclass, prog_if: PCIDeviceUnknownProgIF },
    DisplayController { subclass: PCIDeviceUnknownSubclass, prog_if: PCIDeviceUnknownProgIF },
    MultimediaController { subclass: PCIDeviceUnknownSubclass, prog_if: PCIDeviceUnknownProgIF },
    MemoryController { subclass: PCIDeviceUnknownSubclass, prog_if: PCIDeviceUnknownProgIF },
    BridgeDevice { subclass: PCIDeviceUnknownSubclass, prog_if: PCIDeviceUnknownProgIF },
    SimpleCommunicationController { subclass: PCIDeviceUnknownSubclass, prog_if: PCIDeviceUnknownProgIF },
    BaseSystemPeripheral { subclass: PCIDeviceUnknownSubclass, prog_if: PCIDeviceUnknownProgIF },
    InputDeviceController { subclass: PCIDeviceUnknownSubclass, prog_if: PCIDeviceUnknownProgIF },
    DockingStation { subclass: PCIDeviceUnknownSubclass, prog_if: PCIDeviceUnknownProgIF },
    Processor { subclass: PCIDeviceUnknownSubclass, prog_if: PCIDeviceUnknownProgIF },
    SerialBusController { subclass: PCIDeviceUnknownSubclass, prog_if: PCIDeviceUnknownProgIF },
    WirelessController { subclass: PCIDeviceUnknownSubclass, prog_if: PCIDeviceUnknownProgIF },
    IntelligentController { subclass: PCIDeviceUnknownSubclass, prog_if: PCIDeviceUnknownProgIF },
    SatelliteCommunicationController { subclass: PCIDeviceUnknownSubclass, prog_if: PCIDeviceUnknownProgIF },
    EncryptionController { subclass: PCIDeviceUnknownSubclass, prog_if: PCIDeviceUnknownProgIF },
    SignalProcessingController { subclass: PCIDeviceUnknownSubclass, prog_if: PCIDeviceUnknownProgIF },
    ProcessingAccelerator { subclass: PCIDeviceUnknownSubclass, prog_if: PCIDeviceUnknownProgIF },
    NonEssentialInstrumentation { subclass: PCIDeviceUnknownSubclass, prog_if: PCIDeviceUnknownProgIF },
    Coprocessor { subclass: PCIDeviceUnknownSubclass, prog_if: PCIDeviceUnknownProgIF },
    Unassigned { subclass: PCIDeviceUnknownSubclass, prog_if: PCIDeviceUnknownProgIF },
}

/// The device class that the class, subclass and programming interface
/// bytes stand for, if any.
pub open spec fn device_class_of(class: u8, subclass: u8, prog_if: u8) -> Option<PCIDeviceClass> {
    match class {
        0x00 => Some(PCIDeviceClass::Unclassified { subclass, prog_if }),
        0x01 => match mass_storage_subclass_of(subclass, prog_if) {
            Some(s) => Some(PCIDeviceClass::MassStorageController(s)),
            None => None,
        },
        0x02 => Some(PCIDeviceClass::NetworkController { subclass, prog_if }),
        0x03 => Some(PCIDeviceClass::DisplayController { subclass, prog_if }),
        0x04 => Some(PCIDeviceClass::MultimediaController { subclass, prog_if }),
        0x05 => Some(PCIDeviceClass::MemoryController { subclass, prog_if }),
        0x06 => Some(PCIDeviceClass::BridgeDevice { subclass, prog_if }),
        0x07 => Some(PCIDeviceClass::SimpleCommunicationController { subclass, prog_if }),
        0x08 => Some(PCIDeviceClass::BaseSystemPeripheral { subclass, prog_if }),
        0x09 => Some(PCIDeviceClass::InputDeviceController { subclass, prog_if }),
        0x0A => Some(PCIDeviceClass::DockingStation { subclass, prog_if }),
        0x0B => Some(PCIDeviceClass::Processor { subclass, prog_if }),
        0x0C => Some(PCIDeviceClass::SerialBusController { subclass, prog_if }),
        0x0D => Some(PCIDeviceClass::WirelessController { subclass, prog_if }),
        0x0E => Some(PCIDeviceClass::IntelligentController { subclass, prog_if }),
        0x0F => Some(PCIDeviceClass::SatelliteCommunicationController { subclass, prog_if }),
        0x10 => Some(PCIDeviceClass::EncryptionController { subclass, prog_if }),
        0x11 => Some(PCIDeviceClass::SignalProcessingController { subclass, prog_if }),
        0x12 => Some(PCIDeviceClass::ProcessingAccelerator { subclass, prog_if }),
        0x13 => Some(PCIDeviceClass::NonEssentialInstrumentation { subclass, prog_if }),
        0x40 => Some(PCIDeviceClass::Coprocessor { subclass, prog_if }),
        0xFF => Some(PCIDeviceClass::Unassigned { subclass, prog_if }),
        _ => None,
    }
}

impl PCIDeviceClass {
    /// The class of a device; an error for an unknown class, and for an
    /// unknown mass storage controller subclass.
    pub fn from_bytes(class: u8, subclass: u8, prog_if: u8) -> (r: Result<PCIDeviceClass, &'static str>)
        ensures
            match r {
                Ok(c) => device_class_of(class, subclass, prog_if) == Some(c),
                Err(e) => device_class_of(class, subclass, prog_if) is None && (if class == 0x01 {
                    e@ == "invalid PCI device mass storage controller subclass"@
                } else {
                    e@ == "invalid PCI device class"@
                }),
            },
    {
        match class {
            0x00 => Ok(PCIDeviceClass::Unclassified { subclass, prog_if }),
            0x01 => match PCIDeviceMassStorageControllerSubclass::from_bytes(subclass, prog_if) {
                Ok(s) => Ok(PCIDeviceClass::MassStorageController(s)),
                Err(e) => Err(e),
            },
            0x02 => Ok(PCIDeviceClass::NetworkController { subclass, prog_if }),
            0x03 => Ok(PCIDeviceClass::DisplayController { subclass, prog_if }),
            0x04 => Ok(PCIDeviceClass::MultimediaController { subclass, prog_if }),
            0x05 => Ok(PCIDeviceClass::MemoryController { subclass, prog_if }),
            0x06 => Ok(PCIDeviceClass::BridgeDevice { subclass, prog_if }),
            0x07 => Ok(PCIDeviceClass::SimpleCommunicationController { subclass, prog_if }),
            0x08 => Ok(PCIDeviceClass::BaseSystemPeripheral { subclass, prog_if }),
            0x09 => Ok(PCIDeviceClass::InputDeviceController { subclass, prog_if }),
            0x0A => Ok(PCIDeviceClass::DockingStation { subclass, prog_if }),
            0x0B => Ok(PCIDeviceClass::Processor { subclass, prog_if }),
            0x0C => Ok(PCIDeviceClass::SerialBusController { subclass, prog_if }),
            0x0D => Ok(PCIDeviceClass::WirelessController { subclass, prog_if }),
            0x0E => Ok(PCIDeviceClass::IntelligentController { subclass, prog_if }),
            0x0F => Ok(PCIDeviceClass::SatelliteCommunicationController { subclass, prog_if }),
            0x10 => Ok(PCIDeviceClass::EncryptionController { subclass, prog_if }),
            0x11 => Ok(PCIDeviceClass::SignalProcessingController { subclass, prog_if }),
            0x12 => Ok(PCIDeviceClass::ProcessingAccelerator { subclass, prog_if }),
            0x13 => Ok(PCIDeviceClass::NonEssentialInstrumentation { subclass, prog_if }),
            0x40 => Ok(PCIDeviceClass::Coprocessor { subclass, prog_if }),
            0xFF => Ok(PCIDeviceClass::Unassigned { subclass, prog_if }),
            _ => Err("invalid PCI device class"),
        }
    }
}

#[derive(Debug, Clone, Copy, PartialEq, Eq, Structural)]
pub enum PCIDeviceConfigHeaderType {
    GeneralDevice,
    PCIToPCIBridge,
    PCIToCardBusBridge,
}

/// The header type that the low four bits of the header type byte stand
/// for, if any.
pub open spec fn legacy_header_type_of(raw: u8) -> Option<PCIDeviceConfigHeaderType> {
    if raw & 0xF == 0 {
        Some(PCIDeviceConfigHeaderType::GeneralDevice)
    } else if raw & 0xF == 1 {
        Some(PCIDeviceConfigHeaderType::PCIToPCIBridge)
    } else if raw & 0xF == 2 {
        Some(PCIDeviceConfigHeaderType::PCIToCardBusBridge)
    } else {
        None
    }
}

/// The first 16 bytes of a configuration header, as they lie in memory.
/// See <https://wiki.osdev.org/PCI#Common_Header_Fields>
#[derive(Debug, Clone, Copy)]
pub struct RawPCIDeviceConfigHeader {
    pub vendor_id: u16,
    pub device_id: u16,
    pub command: u16,
    pub status: u16,
    pub revision_id: u8,
    pub prog_if: u8,
    pub subclass: u8,
    pub class: u8,
    pub cache_line_size: u8,
    pub latency_timer: u8,
    pub header_type: u8,
    pub bist: u8,
}

/// Whether `r` holds the fields of the header bytes `b`.
pub open spec fn parses_raw_header(b: Seq<u8>, r: RawPCIDeviceConfigHeader) -> bool {
    &&& r.vendor_id == le_u16(b, 0)
    &&& r.device_id == le_u16(b, 2)
    &&& r.command == le_u16(b, 4)
    &&& r.status == le_u16(b, 6)
    &&& r.revision_id == b[8]
    &&& r.prog_if == b[9]
    &&& r.subclass == b[10]
    &&& r.class == b[11]
    &&& r.cache_line_size == b[12]
    &&& r.latency_timer == b[13]
    &&& r.header_type == b[14]
    &&& r.bist == b[15]
}

impl RawPCIDeviceConfigHeader {
    pub fn from_bytes(bytes: &[u8; 16]) -> (r: RawPCIDeviceConfigHeader)
        ensures
            parses_raw_header(bytes@, r),
    {
        let b = bytes.as_slice();
        RawPCIDeviceConfigHeader {
            vendor_id: read_u16_le(b, 0),
            device_id: read_u16_le(b, 2),
            command: read_u16_le(b, 4),
            status: read_u16_le(b, 6),
            revision_id: b[8],
            prog_if: b[9],
            subclass: b[10],
            class: b[11],
            cache_line_size: b[12],
            latency_timer: b[13],
            header_type: b[14],
            bist: b[15],
        }
    }
}

/// A decoded configuration header. See
/// <https://wiki.osdev.org/PCI#Common_Header_Fields>
#[derive(Debug, Clone, Copy, PartialEq, Eq, Structural)]
pub struct PCIDeviceConfigHeader {
    pub vendor_id: u16,
    pub device_id: u16,
    pub command: u16,
    pub status: u16,
    pub revision_id: u8,
    pub class: PCIDeviceClass,
    pub cache_line_size: u8,
    pub latency_timer: u8,
    pub header_type: PCIDeviceConfigHeaderType,
    pub multiple_functions: bool,
    pub bist: u8,
}

/// What the 16 header bytes `b` describe: no device (vendor ID 0xFFFF), a
/// device, or why they describe none.
pub open spec fn config_header_of(b: Seq<u8>) -> Result<Option<PCIDeviceConfigHeader>, Seq<char>> {
    if le_u16(b, 0) == 0xffff {
        Ok(None)
    } else {
        match legacy_header_type_of(b[14]) {
            None => Err("invalid PCI header type"@),
            Some(header_type) => match device_class_of(b[11], b[10], b[9]) {
                None => Err(
                    if b[11] == 0x01 {
                        "invalid PCI device mass storage controller subclass"@
                    } else {
                        "invalid PCI device class"@
                    },
                ),
                Some(class) => Ok(
                    Some(
                        PCIDeviceConfigHeader {
                            vendor_id: le_u16(b, 0),
                            device_id: le_u16(b, 2),
                            command: le_u16(b, 4),
                            status: le_u16(b, 6),
                            revision_id: b[8],
                            class,
                            cache_line_size: b[12],
                            latency_timer: b[13],
                            header_type,
                            multiple_functions: b[14] & 0x80 != 0,
                            bist: b[15],
                        },
                    ),
                ),
            },
        }
    }
}

impl PCIDeviceConfigHeader {
    pub fn from_bytes(bytes: &[u8; 16]) -> (r: Result<Option<PCIDeviceConfigHeader>, &'static str>)
        ensures
            match r {
                Ok(h) => config_header_of(bytes@) == Ok::<Option<PCIDeviceConfigHeader>, Seq<char>>(h),
                Err(e) => config_header_of(bytes@) == Err::<Option<PCIDeviceConfigHeader>, Seq<char>>(e@),
            },
    {
        let raw = RawPCIDeviceConfigHeader::from_bytes(bytes);

        // If the vendor ID is 0xffff, then the device doesn't exist
        if raw.vendor_id == 0xffff {
            return Ok(None);
        }

        let header_type = match raw.header_type & 0xF {
            0x0 => PCIDeviceConfigHeaderType::GeneralDevice,
            0x1 => PCIDeviceConfigHeaderType::PCIToPCIBridge,
            0x2 => PCIDeviceConfigHeaderType::PCIToCardBusBridge,
            _ => return Err("invalid PCI header type"),
        };

        let multiple_functions = raw.header_type & 0x80 != 0;

        let class = match PCIDeviceClass::from_bytes(raw.class, raw.subclass, raw.prog_if) {
            Ok(c) => c,
            Err(e) => return Err(e),
        };

        Ok(
            Some(
                PCIDeviceConfigHeader {
                    vendor_id: raw.vendor_id,
                    device_id: raw.device_id,
                    command: raw.command,
                    status: raw.status,
                    revision_id: raw.revision_id,
                    class,
                    cache_line_size: raw.cache_line_size,
                    latency_timer: raw.latency_timer,
                    header_type,
                    multiple_functions,
                    bist: raw.bist,
                },
            ),
        )
    }
}

} // verus!
