//! Identification of PCI devices: the vendor and device ID registers, and
//! the names of the vendors and devices that this kernel knows about.

use vstd::prelude::*;

use crate::bytes::{le_u16, read_u16_le};
use super::class::{device_type, device_type_of};

verus! {

/// The name of a vendor ID, as far as this kernel knows it.
///
/// Great resource for vendor IDs: <https://www.pcilookup.com>
pub open spec fn vendor_name(vendor_id: u16) -> Seq<char> {
    if vendor_id == 0xFFFF {
        "INVALID (0xFFFF)"@
    } else if vendor_id == 0x8086 || vendor_id == 0x8087 {
        "Intel Corp."@
    } else if vendor_id == 0x1af4 {
        "virtio"@
    } else if vendor_id == 0x1002 {
        "Advanced Micro Devices, Inc. [AMD/ATI]"@
    } else {
        "UNKNOWN"@
    }
}

/// Reports some known PCI vendor IDs. This is absolutely not exhaustive, but
/// known vendor IDs are useful for debugging. A vendor ID of 0xFFFF means that
/// no device exists at the location; 0x1af4 (Red Hat, Inc.) means virtio.
pub fn lookup_vendor_id(vendor_id: u16) -> (r: &'static str)
    ensures
        r@ == vendor_name(vendor_id),
{
    match vendor_id {
        0xFFFF => "INVALID (0xFFFF)",
        0x8086 | 0x8087 => "Intel Corp.",
        0x1af4 => "virtio",
        0x1002 => "Advanced Micro Devices, Inc. [AMD/ATI]",
        _ => "UNKNOWN",
    }
}

/// The name of a (vendor ID, device ID) pair, as far as this kernel knows it.
///
/// For virtio (vendor 0x1AF4) the transitional device IDs come first, then the
/// non-transitional ones, which are 0x1040 plus the virtio device number. See
/// section 4.1.2 "PCI Device Discovery" and section 5 "Device Types" of the
/// virtio specification.
pub open spec fn device_name(vendor_id: u16, device_id: u16) -> Seq<char> {
    match (vendor_id, device_id) {
        (0x8086, 0x10d3) => "82574L Gigabit Network Connection"@,
        (0x8086, 0x2918) => "82801IB (ICH9) LPC Interface Controller"@,
        (0x8086, 0x2922) => "82801IR/IO/IH (ICH9R/DO/DH) 6 port SATA Controller [AHCI mode]"@,
        (0x8086, 0x2930) => "82801I (ICH9 Family) SMBus Controller"@,
        (0x8086, 0x29c0) => "82G33/G31/P35/P31 Express DRAM Controller"@,
        (0x1af4, 0x1000) => "network card"@,
        (0x1af4, 0x1001) => "block device"@,
        (0x1af4, 0x1002) => "memory ballooning (traditional)"@,
        (0x1af4, 0x1003) => "console"@,
        (0x1af4, 0x1004) => "SCSI host"@,
        (0x1af4, 0x1005) => "entropy source"@,
        (0x1af4, 0x1009) => "9P transport"@,
        (0x1af4, 0x1040) => "reserved (invalid)"@,
        (0x1af4, 0x1041) => "network card"@,
        (0x1af4, 0x1042) => "block device"@,
        (0x1af4, 0x1043) => "console"@,
        (0x1af4, 0x1044) => "entropy source"@,
        (0x1af4, 0x1045) => "memory ballooning (traditional)"@,
        (0x1af4, 0x1046) => "ioMemory"@,
        (0x1af4, 0x1047) => "rpmsg"@,
        (0x1af4, 0x1048) => "SCSI host"@,
        (0x1af4, 0x1049) => "9P transport"@,
        (0x1af4, 0x104A) => "mac80211 wlan"@,
        (0x1af4, 0x104B) => "rproc serial"@,
        (0x1af4, 0x104C) => "virtio CAIF"@,
        (0x1af4, 0x104D) => "memory balloon"@,
        (0x1af4, 0x1050) => "GPU device"@,
        (0x1af4, 0x1051) => "Timer/Clock device"@,
        (0x1af4, 0x1052) => "Input device"@,
        (0x1af4, 0x1053) => "Socket device"@,
        (0x1af4, 0x1054) => "Crypto device"@,
        (0x1af4, 0x1055) => "Signal Distribution Module"@,
        (0x1af4, 0x1056) => "pstore device"@,
        (0x1af4, 0x1057) => "IOMMU device"@,
        (0x1af4, 0x1058) => "Memory device"@,
        (0x1af4, 0x1059) => "Audio device"@,
        (0x1af4, 0x105A) => "file system device"@,
        (0x1af4, 0x105B) => "PMEM device"@,
        (0x1af4, 0x105C) => "RPMB device"@,
        (0x1af4, 0x105D) => "mac80211 hwsim wireless simulation device"@,
        (0x1af4, 0x105E) => "Video encoder device"@,
        (0x1af4, 0x105F) => "Video decoder device"@,
        (0x1af4, 0x1060) => "SCMI device"@,
        (0x1af4, 0x1061) => "NitroSecureModule"@,
        (0x1af4, 0x1062) => "I2C adapter"@,
        (0x1af4, 0x1063) => "Watchdog"@,
        (0x1af4, 0x1064) => "CAN device"@,
        (0x1af4, 0x1066) => "Parameter Server"@,
        (0x1af4, 0x1067) => "Audio policy device"@,
        (0x1af4, 0x1068) => "Bluetooth device"@,
        (0x1af4, 0x1069) => "GPIO device"@,
        (0x1af4, 0x106A) => "RDMA device"@,
        _ => "UNKNOWN"@,
    }
}

/// The virtio device ID of a transitional virtio PCI device ID, as the
/// virtio specification lists them ("PCI Device Discovery"): network card
/// 1, block device 2, memory ballooning 5, console 3, SCSI host 8, entropy
/// source 4, 9P transport 9.
pub open spec fn transitional_virtio_id(device_id: u16) -> Option<int> {
    if device_id == 0x1000 {
        Some(1)
    } else if device_id == 0x1001 {
        Some(2)
    } else if device_id == 0x1002 {
        Some(5)
    } else if device_id == 0x1003 {
        Some(3)
    } else if device_id == 0x1004 {
        Some(8)
    } else if device_id == 0x1005 {
        Some(4)
    } else if device_id == 0x1009 {
        Some(9)
    } else {
        None
    }
}

/// A transitional virtio device ID names the same device as the
/// non-transitional ID of its device type, 0x1040 plus the virtio device ID;
/// and both are known devices.
pub proof fn lemma_transitional_virtio_names(device_id: u16)
    requires
        transitional_virtio_id(device_id) is Some,
    ensures
        device_name(0x1af4, device_id) == device_name(
            0x1af4,
            (0x1040 + transitional_virtio_id(device_id)->0) as u16,
        ),
        device_name(0x1af4, device_id) != device_name(0x1af4, 0xffff),
{
    reveal_strlit("UNKNOWN");
    reveal_strlit("network card");
    reveal_strlit("block device");
    reveal_strlit("memory ballooning (traditional)");
    reveal_strlit("console");
    reveal_strlit("SCSI host");
    reveal_strlit("entropy source");
    reveal_strlit("9P transport");
    assert(device_name(0x1af4, 0xffff)[0] == 'U');
    assert(device_name(0x1af4, device_id)[0] != 'U');
}

/// Reports on known PCI device IDs. This is absolutely not exhaustive, but
/// known device IDs are useful for debugging.
///
/// Great resource for device IDs: <https://www.pcilookup.com>
pub fn lookup_known_device_id(vendor_id: u16, device_id: u16) -> (r: &'static str)
    ensures
        r@ == device_name(vendor_id, device_id),
{
    match (vendor_id, device_id) {
        (0x8086, 0x10d3) => "82574L Gigabit Network Connection",
        (0x8086, 0x2918) => "82801IB (ICH9) LPC Interface Controller",
        (0x8086, 0x2922) => "82801IR/IO/IH (ICH9R/DO/DH) 6 port SATA Controller [AHCI mode]",
        (0x8086, 0x2930) => "82801I (ICH9 Family) SMBus Controller",
        (0x8086, 0x29c0) => "82G33/G31/P35/P31 Express DRAM Controller",
        (0x1af4, 0x1000) => "network card",
        (0x1af4, 0x1001) => "block device",
        (0x1af4, 0x1002) => "memory ballooning (traditional)",
        (0x1af4, 0x1003) => "console",
        (0x1af4, 0x1004) => "SCSI host",
        (0x1af4, 0x1005) => "entropy source",
        (0x1af4, 0x1009) => "9P transport",
        (0x1af4, 0x1040) => "reserved (invalid)",
        (0x1af4, 0x1041) => "network card",
        (0x1af4, 0x1042) => "block device",
        (0x1af4, 0x1043) => "console",
        (0x1af4, 0x1044) => "entropy source",
        (0x1af4, 0x1045) => "memory ballooning (traditional)",
        (0x1af4, 0x1046) => "ioMemory",
        (0x1af4, 0x1047) => "rpmsg",
        (0x1af4, 0x1048) => "SCSI host",
        (0x1af4, 0x1049) => "9P transport",
        (0x1af4, 0x104A) => "mac80211 wlan",
        (0x1af4, 0x104B) => "rproc serial",
        (0x1af4, 0x104C) => "virtio CAIF",
        (0x1af4, 0x104D) => "memory balloon",
        (0x1af4, 0x1050) => "GPU device",
        (0x1af4, 0x1051) => "Timer/Clock device",
        (0x1af4, 0x1052) => "Input device",
        (0x1af4, 0x1053) => "Socket device",
        (0x1af4, 0x1054) => "Crypto device",
        (0x1af4, 0x1055) => "Signal Distribution Module",
        (0x1af4, 0x1056) => "pstore device",
        (0x1af4, 0x1057) => "IOMMU device",
        (0x1af4, 0x1058) => "Memory device",
        (0x1af4, 0x1059) => "Audio device",
        (0x1af4, 0x105A) => "file system device",
        (0x1af4, 0x105B) => "PMEM device",
        (0x1af4, 0x105C) => "RPMB device",
        (0x1af4, 0x105D) => "mac80211 hwsim wireless simulation device",
        (0x1af4, 0x105E) => "Video encoder device",
        (0x1af4, 0x105F) => "Video decoder device",
        (0x1af4, 0x1060) => "SCMI device",
        (0x1af4, 0x1061) => "NitroSecureModule",
        (0x1af4, 0x1062) => "I2C adapter",
        (0x1af4, 0x1063) => "Watchdog",
        (0x1af4, 0x1064) => "CAN device",
        (0x1af4, 0x1066) => "Parameter Server",
        (0x1af4, 0x1067) => "Audio policy device",
        (0x1af4, 0x1068) => "Bluetooth device",
        (0x1af4, 0x1069) => "GPIO device",
        (0x1af4, 0x106A) => "RDMA device",
        _ => "UNKNOWN",
    }
}

/// The identification registers of a PCI function's configuration space. See
/// <https://wiki.osdev.org/PCI#Common_Header_Fields> and "7.5.1.1 Type 0/1
/// Common Configuration Space" in the PCI Express specification.
#[derive(Debug, Clone, Copy)]
pub struct PCIConfigDeviceIDRegisters {
    pub vendor_id: u16,
    pub device_id: u16,
    pub revision_id: u8,
    pub prog_if: u8,
    pub subclass: u8,
    pub class: u8,
}

/// Whether `r` holds the identification registers found in the configuration
/// space bytes `config`.
pub open spec fn parses_device_id_registers(config: Seq<u8>, r: PCIConfigDeviceIDRegisters) -> bool {
    &&& r.vendor_id == le_u16(config, 0x00)
    &&& r.device_id == le_u16(config, 0x02)
    &&& r.revision_id == config[0x08]
    &&& r.prog_if == config[0x09]
    &&& r.subclass == config[0x0A]
    &&& r.class == config[0x0B]
}

impl PCIConfigDeviceIDRegisters {
    /// Reads the registers from the first bytes of a configuration space.
    pub fn from_config_space(config: &[u8]) -> (r: PCIConfigDeviceIDRegisters)
        requires
            config.len() >= 0x0C,
        ensures
            parses_device_id_registers(config@, r),
    {
        PCIConfigDeviceIDRegisters {
            vendor_id: read_u16_le(config, 0x00),
            device_id: read_u16_le(config, 0x02),
            revision_id: config[0x08],
            prog_if: config[0x09],
            subclass: config[0x0A],
            class: config[0x0B],
        }
    }
}

/// The identity of a PCI function: who made it and what it is.
#[derive(Debug, Clone, Copy)]
pub struct PCIConfigDeviceID {
    pub registers: PCIConfigDeviceIDRegisters,
}

impl PCIConfigDeviceID {
    /// Reads the identity of the function whose configuration space is
    /// `config`.
    pub fn from_config_space(config: &[u8]) -> (r: PCIConfigDeviceID)
        requires
            config.len() >= 0x0C,
        ensures
            parses_device_id_registers(config@, r.registers),
    {
        PCIConfigDeviceID { registers: PCIConfigDeviceIDRegisters::from_config_space(config) }
    }

    pub fn registers(&self) -> (r: PCIConfigDeviceIDRegisters)
        ensures
            r == self.registers,
    {
        self.registers
    }

    pub fn vendor_id(&self) -> (r: u16)
        ensures
            r == self.registers.vendor_id,
    {
        self.registers.vendor_id
    }

    pub fn device_id(&self) -> (r: u16)
        ensures
            r == self.registers.device_id,
    {
        self.registers.device_id
    }

    /// Whether a device exists at all: a vendor ID of 0xFFFF means that
    /// nothing answered at the location.
    pub fn is_present(&self) -> (r: bool)
        ensures
            r == (self.registers.vendor_id != 0xFFFF),
    {
        self.registers.vendor_id != 0xFFFF
    }

    pub fn known_vendor_id(&self) -> (r: &'static str)
        ensures
            r@ == vendor_name(self.registers.vendor_id),
    {
        lookup_vendor_id(self.registers.vendor_id)
    }

    pub fn known_device_id(&self) -> (r: &'static str)
        ensures
            r@ == device_name(self.registers.vendor_id, self.registers.device_id),
    {
        lookup_known_device_id(self.registers.vendor_id, self.registers.device_id)
    }

    /// The kind of device, from its class, subclass and programming interface
    /// registers, or "UNKNOWN" where they name none.
    pub fn known_device_type(&self) -> (r: &'static str)
        ensures
            r@ == match device_type_of(
                self.registers.class,
                self.registers.subclass,
                self.registers.prog_if,
            ) {
                Ok(name) => name,
                Err(_) => "UNKNOWN"@,
            },
    {
        match device_type(self.registers.class, self.registers.subclass, self.registers.prog_if) {
            Ok(name) => name,
            Err(_) => "UNKNOWN",
        }
    }
}

} // verus!
