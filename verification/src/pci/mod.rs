//! PCI Express configuration space: device identification, classes, the
//! common header registers, base address registers and the capability list.
//!
//! The functions here work on a copy of a function's configuration space,
//! read out of the memory mapped configuration region (ECAM) by the caller.

pub mod bar;
pub mod capabilities;
pub mod class;
pub mod config;
pub mod device;
pub mod device_id;

pub use self::bar::{BARAddress, BARAddresses};
pub use self::capabilities::{
    MSIXCapability, MSIXMessageControl, MSIXPendingBitArrayOffset, MSIXTableOffset,
    PCIDeviceCapability, PCIDeviceCapabilityHeader, PCIDeviceCapabilityIterator,
};
pub use self::class::{device_type, PCIDeviceClass};
pub use self::config::{
    PCIDeviceCommonConfigRegisters, PCIDeviceConfigCommand, PCIDeviceConfigHeaderLayout,
    PCIDeviceConfigHeaderType, PCIDeviceConfigStatus,
};
pub use self::device::{
    PCIDeviceConfig, PCIDeviceConfigType0, PCIDeviceConfigType0Registers, PCIDeviceConfigTypes,
    PCIDeviceLocation,
};
pub use self::device_id::{
    lookup_known_device_id, lookup_vendor_id, PCIConfigDeviceID, PCIConfigDeviceIDRegisters,
};
