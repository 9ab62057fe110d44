//! PCI device classes, and the names of the kinds of device that the class,
//! subclass and programming interface registers stand for.

use vstd::prelude::*;

verus! {

#[derive(Debug, Clone, Copy, PartialEq, Eq, Structural)]
pub enum PCIDeviceClass {
    Unclassified,
    MassStorageController,
    NetworkController,
    DisplayController,
    MultimediaController,
    MemoryController,
    BridgeDevice,
    SimpleCommunicationController,
    BaseSystemPeripheral,
    InputDeviceController,
    DockingStation,
    Processor,
    SerialBusController,
    WirelessController,
    IntelligentController,
    SatelliteCommunicationController,
    EncryptionController,
    SignalProcessingController,
    ProcessingAccelerator,
    NonEssentialInstrumentation,
    Coprocessor,
    Unassigned,
}

/// The class that a class code stands for, if any.
pub open spec fn class_of(class: u8) -> Option<PCIDeviceClass> {
    match class {
        0x00 => Some(PCIDeviceClass::Unclassified),
        0x01 => Some(PCIDeviceClass::MassStorageController),
        0x02 => Some(PCIDeviceClass::NetworkController),
        0x03 => Some(PCIDeviceClass::DisplayController),
        0x04 => Some(PCIDeviceClass::MultimediaController),
        0x05 => Some(PCIDeviceClass::MemoryController),
        0x06 => Some(PCIDeviceClass::BridgeDevice),
        0x07 => Some(PCIDeviceClass::SimpleCommunicationController),
        0x08 => Some(PCIDeviceClass::BaseSystemPeripheral),
        0x09 => Some(PCIDeviceClass::InputDeviceController),
        0x0A => Some(PCIDeviceClass::DockingStation),
        0x0B => Some(PCIDeviceClass::Processor),
        0x0C => Some(PCIDeviceClass::SerialBusController),
        0x0D => Some(PCIDeviceClass::WirelessController),
        0x0E => Some(PCIDeviceClass::IntelligentController),
        0x0F => Some(PCIDeviceClass::SatelliteCommunicationController),
        0x10 => Some(PCIDeviceClass::EncryptionController),
        0x11 => Some(PCIDeviceClass::SignalProcessingController),
        0x12 => Some(PCIDeviceClass::ProcessingAccelerator),
        0x13 => Some(PCIDeviceClass::NonEssentialInstrumentation),
        0x40 => Some(PCIDeviceClass::Coprocessor),
        0xFF => Some(PCIDeviceClass::Unassigned),
        _ => None,
    }
}

impl PCIDeviceClass {
    pub fn from_byte(class: u8) -> (r: Result<PCIDeviceClass, &'static str>)
        ensures
            match r {
                Ok(c) => class_of(class) == Some(c),
                Err(e) => class_of(class) is None && e@ == "invalid PCI device class"@,
            },
    {
        match class {
            0x00 => Ok(PCIDeviceClass::Unclassified),
            0x01 => Ok(PCIDeviceClass::MassStorageController),
            0x02 => Ok(PCIDeviceClass::NetworkController),
            0x03 => Ok(PCIDeviceClass::DisplayController),
            0x04 => Ok(PCIDeviceClass::MultimediaController),
            0x05 => Ok(PCIDeviceClass::MemoryController),
            0x06 => Ok(PCIDeviceClass::BridgeDevice),
            0x07 => Ok(PCIDeviceClass::SimpleCommunicationController),
            0x08 => Ok(PCIDeviceClass::BaseSystemPeripheral),
            0x09 => Ok(PCIDeviceClass::InputDeviceController),
            0x0A => Ok(PCIDeviceClass::DockingStation),
            0x0B => Ok(PCIDeviceClass::Processor),
            0x0C => Ok(PCIDeviceClass::SerialBusController),
            0x0D => Ok(PCIDeviceClass::WirelessController),
            0x0E => Ok(PCIDeviceClass::IntelligentController),
            0x0F => Ok(PCIDeviceClass::SatelliteCommunicationController),
            0x10 => Ok(PCIDeviceClass::EncryptionController),
            0x11 => Ok(PCIDeviceClass::SignalProcessingController),
            0x12 => Ok(PCIDeviceClass::ProcessingAccelerator),
            0x13 => Ok(PCIDeviceClass::NonEssentialInstrumentation),
            0x40 => Ok(PCIDeviceClass::Coprocessor),
            0xFF => Ok(PCIDeviceClass::Unassigned),
            _ => Err("invalid PCI device class"),
        }
    }
}

/// The kind of mass storage controller that a subclass and programming
/// interface stand for, or why they stand for none.
pub open spec fn mass_storage_type_of(subclass: u8, prog_if: u8) -> Result<Seq<char>, Seq<char>> {
    match subclass {
        0x00 => Ok("Mass Storage Controller: SCSI"@),
        0x01 => Ok("Mass Storage Controller: IDE"@),
        0x02 => Ok("Mass Storage Controller: FloppyDisk"@),
        0x03 => Ok("Mass Storage Controller: IPIBus"@),
        0x04 => Ok("Mass Storage Controller: RAID"@),
        0x05 => Ok("Mass Storage Controller: ATA"@),
        0x06 => match prog_if {
            0x00 => Ok("Mass Storage Controller: SATA: VendorSpecific"@),
            0x01 => Ok("Mass Storage Controller: SATA: AHCI1_0"@),
            0x02 => Ok("Mass Storage Controller: SATA: SerialStorageBus"@),
            _ => Err("invalid PCI device mass storage controller SATA prog_if"@),
        },
        0x07 => Ok("Mass Storage Controller: SAS"@),
        0x08 => Ok("Mass Storage Controller: NVM"@),
        0x80 => Ok("Mass Storage Controller: Other"@),
        _ => Err("invalid PCI device mass storage controller subclass"@),
    }
}

/// The kind of device that a class, subclass and programming interface stand
/// for, or why they stand for none.
pub open spec fn device_type_of(class: u8, subclass: u8, prog_if: u8) -> Result<Seq<char>, Seq<char>> {
    match class_of(class) {
        None => Err("invalid PCI device class"@),
        Some(c) => match c {
            PCIDeviceClass::Unclassified => Ok("Unclassified"@),
            PCIDeviceClass::MassStorageController => mass_storage_type_of(subclass, prog_if),
            PCIDeviceClass::NetworkController => Ok("Network Controller"@),
            PCIDeviceClass::DisplayController => Ok("Display Controller"@),
            PCIDeviceClass::MultimediaController => Ok("Multimedia Controller"@),
            PCIDeviceClass::MemoryController => Ok("Memory Controller"@),
            PCIDeviceClass::BridgeDevice => Ok("Bridge Device"@),
            PCIDeviceClass::SimpleCommunicationController => Ok("Simple Communication Controller"@),
            PCIDeviceClass::BaseSystemPeripheral => Ok("Base System Peripheral"@),
            PCIDeviceClass::InputDeviceController => Ok("Input Device Controller"@),
            PCIDeviceClass::DockingStation => Ok("Docking Station"@),
            PCIDeviceClass::Processor => Ok("Processor"@),
            PCIDeviceClass::SerialBusController => Ok("Serial Bus Controller"@),
            PCIDeviceClass::WirelessController => Ok("Wireless Controller"@),
            PCIDeviceClass::IntelligentController => Ok("Intelligent Controller"@),
            PCIDeviceClass::SatelliteCommunicationController => Ok("Satellite Communication Controller"@),
            PCIDeviceClass::EncryptionController => Ok("Encryption Controller"@),
            PCIDeviceClass::SignalProcessingController => Ok("Signal Processing Controller"@),
            PCIDeviceClass::ProcessingAccelerator => Ok("Processing Accelerator"@),
            PCIDeviceClass::NonEssentialInstrumentation => Ok("Non Essential Instrumentation"@),
            PCIDeviceClass::Coprocessor => Ok("Coprocessor"@),
            PCIDeviceClass::Unassigned => Ok("Unassigned"@),
        },
    }
}

/// Whether `r` is the result `expected`, strings taken by their characters.
pub open spec fn str_result_is(
    r: Result<&'static str, &'static str>,
    expected: Result<Seq<char>, Seq<char>>,
) -> bool {
    match r {
        Ok(s) => expected == Ok::<Seq<char>, Seq<char>>(s@),
        Err(e) => expected == Err::<Seq<char>, Seq<char>>(e@),
    }
}

fn mass_storage_type(subclass: u8, prog_if: u8) -> (r: Result<&'static str, &'static str>)
    ensures
        str_result_is(r, mass_storage_type_of(subclass, prog_if)),
{
    match subclass {
        0x00 => Ok("Mass Storage Controller: SCSI"),
        0x01 => Ok("Mass Storage Controller: IDE"),
        0x02 => Ok("Mass Storage Controller: FloppyDisk"),
        0x03 => Ok("Mass Storage Controller: IPIBus"),
        0x04 => Ok("Mass Storage Controller: RAID"),
        0x05 => Ok("Mass Storage Controller: ATA"),
        0x06 => match prog_if {
            0x00 => Ok("Mass Storage Controller: SATA: VendorSpecific"),
            0x01 => Ok("Mass Storage Controller: SATA: AHCI1_0"),
            0x02 => Ok("Mass Storage Controller: SATA: SerialStorageBus"),
            _ => Err("invalid PCI device mass storage controller SATA prog_if"),
        },
        0x07 => Ok("Mass Storage Controller: SAS"),
        0x08 => Ok("Mass Storage Controller: NVM"),
        0x80 => Ok("Mass Storage Controller: Other"),
        _ => Err("invalid PCI device mass storage controller subclass"),
    }
}

/// The kind of device that a class, subclass and programming interface
/// stand for; an error where the class is not known, or where a mass storage
/// controller's subclass or SATA programming interface is not.
pub fn device_type(class: u8, subclass: u8, prog_if: u8) -> (r: Result<&'static str, &'static str>)
    ensures
        str_result_is(r, device_type_of(class, subclass, prog_if)),
{
    let class_name = match PCIDeviceClass::from_byte(class) {
        Ok(c) => c,
        Err(e) => return Err(e),
    };
    match class_name {
        PCIDeviceClass::Unclassified => Ok("Unclassified"),
        PCIDeviceClass::MassStorageController => mass_storage_type(subclass, prog_if),
        PCIDeviceClass::NetworkController => Ok("Network Controller"),
        PCIDeviceClass::DisplayController => Ok("Display Controller"),
        PCIDeviceClass::MultimediaController => Ok("Multimedia Controller"),
        PCIDeviceClass::MemoryController => Ok("Memory Controller"),
        PCIDeviceClass::BridgeDevice => Ok("Bridge Device"),
        PCIDeviceClass::SimpleCommunicationController => Ok("Simple Communication Controller"),
        PCIDeviceClass::BaseSystemPeripheral => Ok("Base System Peripheral"),
        PCIDeviceClass::InputDeviceController => Ok("Input Device Controller"),
        PCIDeviceClass::DockingStation => Ok("Docking Station"),
        PCIDeviceClass::Processor => Ok("Processor"),
        PCIDeviceClass::SerialBusController => Ok("Serial Bus Controller"),
        PCIDeviceClass::WirelessController => Ok("Wireless Controller"),
        PCIDeviceClass::IntelligentController => Ok("Intelligent Controller"),
        PCIDeviceClass::SatelliteCommunicationController => Ok("Satellite Communication Controller"),
        PCIDeviceClass::EncryptionController => Ok("Encryption Controller"),
        PCIDeviceClass::SignalProcessingController => Ok("Signal Processing Controller"),
        PCIDeviceClass::ProcessingAccelerator => Ok("Processing Accelerator"),
        PCIDeviceClass::NonEssentialInstrumentation => Ok("Non Essential Instrumentation"),
        PCIDeviceClass::Coprocessor => Ok("Coprocessor"),
        PCIDeviceClass::Unassigned => Ok("Unassigned"),
    }
}

} // verus!
