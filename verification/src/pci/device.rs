//! A PCI function found in the configuration region: where it is, its common
//! header, and the registers of a general device (header type 0).

use vstd::prelude::*;

use crate::bytes::{le_u16, le_u32, read_u16_le, read_u32_le};
use crate::memory::address::{in_physical_mapping, KernPhysAddr};
use super::bar::{bar_interpretation, bars_interpretable, BARAddress, BARAddresses};
use super::capabilities::{
    capability_space_ok, header_at, PCIDeviceCapabilityHeader, PCIDeviceCapabilityIterator,
    PCI_CONFIG_SPACE_SIZE,
};
use super::config::{
    bit_set_u16, header_layout_of, parses_common_registers, PCIDeviceCommonConfigRegisters,
    PCIDeviceConfigHeaderLayout,
};
use super::device_id::{parses_device_id_registers, PCIConfigDeviceID};

verus! {

broadcast use vstd::array::group_array_axioms;

/// Offset of a function's configuration space in the ECAM region.
pub open spec fn ecam_offset(bus: u8, device: u8, function: u8) -> u64 {
    ((bus as u64) << 20u64) | ((device as u64) << 15u64) | ((function as u64) << 12u64)
}

proof fn lemma_ecam_offset_bound(bus: u8, device: u8, function: u8)
    ensures
        ecam_offset(bus, device, function) < 0x1000_0000,
{
    let b = bus as u64;
    let d = device as u64;
    let f = function as u64;
    assert((b << 20u64) | (d << 15u64) | (f << 12u64) < 0x1000_0000) by (bit_vector)
        requires
            b < 256,
            d < 256,
            f < 256,
    ;
}

/// Location within the PCI Express Enhanced Configuration Mechanism memory
/// region. See "7.2.2 PCI Express Enhanced Configuration Access Mechanism
/// (ECAM)" of the PCI Express Base Specification, as well as
/// <https://wiki.osdev.org/PCI_Express>.
#[derive(Debug, Clone, Copy)]
pub struct PCIDeviceLocation {
    /// Where the PCI Express extended configuration region starts.
    pub ecam_base_address: KernPhysAddr,
    /// Which PCIe bus this device is on.
    pub bus_number: u8,
    /// Device number of the device within the bus.
    pub device_number: u8,
    /// Function number of the device if the device is a multifunction device.
    pub function_number: u8,
}

impl PCIDeviceLocation {
    /// The address of the function's configuration space.
    pub open spec fn base_address_spec(self) -> int {
        self.ecam_base_address.0 + ecam_offset(self.bus_number, self.device_number, self.function_number)
    }

    pub fn device_base_address(&self) -> (r: KernPhysAddr)
        requires
            in_physical_mapping(self.base_address_spec()),
        ensures
            r.0 == self.base_address_spec(),
    {
        let bus = self.bus_number as u64;
        let device = self.device_number as u64;
        let function = self.function_number as u64;
        proof {
            lemma_ecam_offset_bound(self.bus_number, self.device_number, self.function_number);
        }
        self.ecam_base_address.add((bus << 20u64) | (device << 15u64) | (function << 12u64))
    }
}

/// The registers of a general device's header (type 0). See "7.5.1.2 Type 0
/// Configuration Space Header" in the PCI Express specification.
#[derive(Debug, Clone, Copy)]
pub struct PCIDeviceConfigType0Registers {
    pub raw_bars: [u32; 6],
    pub cardbus_cis_pointer: u32,
    pub subsystem_vendor_id: u16,
    pub subsystem_id: u16,
    pub expansion_rom_base_address: u32,
    pub capabilities_pointer: u8,
    pub interrupt_line: u8,
    pub interrupt_pin: u8,
    pub min_grant: u8,
    pub max_latency: u8,
}

/// Whether `r` holds the type 0 header registers of the configuration space
/// bytes `config`.
pub open spec fn parses_type0_registers(config: Seq<u8>, r: PCIDeviceConfigType0Registers) -> bool {
    &&& forall|k: int| 0 <= k < 6 ==> #[trigger] r.raw_bars@[k] == le_u32(config, 0x10 + 4 * k)
    &&& r.cardbus_cis_pointer == le_u32(config, 0x28)
    &&& r.subsystem_vendor_id == le_u16(config, 0x2C)
    &&& r.subsystem_id == le_u16(config, 0x2E)
    &&& r.expansion_rom_base_address == le_u32(config, 0x30)
    &&& r.capabilities_pointer == config[0x34]
    &&& r.interrupt_line == config[0x3C]
    &&& r.interrupt_pin == config[0x3D]
    &&& r.min_grant == config[0x3E]
    &&& r.max_latency == config[0x3F]
}

impl PCIDeviceConfigType0Registers {
    pub fn from_config_space(config: &[u8]) -> (r: PCIDeviceConfigType0Registers)
        requires
            config.len() >= 0x40,
        ensures
            parses_type0_registers(config@, r),
    {
        let raw_bars = [
            read_u32_le(config, 0x10),
            read_u32_le(config, 0x14),
            read_u32_le(config, 0x18),
            read_u32_le(config, 0x1C),
            read_u32_le(config, 0x20),
            read_u32_le(config, 0x24),
        ];
        let r = PCIDeviceConfigType0Registers {
            raw_bars,
            cardbus_cis_pointer: read_u32_le(config, 0x28),
            subsystem_vendor_id: read_u16_le(config, 0x2C),
            subsystem_id: read_u16_le(config, 0x2E),
            expansion_rom_base_address: read_u32_le(config, 0x30),
            capabilities_pointer: config[0x34],
            interrupt_line: config[0x3C],
            interrupt_pin: config[0x3D],
            min_grant: config[0x3E],
            max_latency: config[0x3F],
        };
        assert forall|k: int| 0 <= k < 6 implies #[trigger] r.raw_bars@[k] == le_u32(config@, 0x10 + 4 * k) by {
            if k == 0 {
            } else if k == 1 {
            } else if k == 2 {
            } else if k == 3 {
            } else if k == 4 {
            } else {
            }
        }
        r
    }
}

/// A PCI function that answered at its location: its identity and common
/// header registers. All PCI devices share some common configuration. See
/// <https://wiki.osdev.org/PCI#Common_Header_Fields> and "7.5.1.1 Type 0/1
/// Common Configuration Space" in the PCI Express specification.
#[derive(Debug, Clone, Copy)]
pub struct PCIDeviceConfig {
    pub location: PCIDeviceLocation,
    pub device_id: PCIConfigDeviceID,
    pub common_registers: PCIDeviceCommonConfigRegisters,
}

#[derive(Debug, Clone, Copy)]
pub enum PCIDeviceConfigTypes {
    GeneralDevice(PCIDeviceConfigType0),
    PCIToPCIBridge,
}

impl PCIDeviceConfig {
    /// The function whose configuration space `config` was read at
    /// `location`; `None` if no device exists there (vendor ID 0xFFFF).
    pub fn new(location: PCIDeviceLocation, config: &[u8]) -> (r: Option<PCIDeviceConfig>)
        requires
            config.len() >= 0x40,
        ensures
            r is None <==> le_u16(config@, 0) == 0xFFFF,
            r matches Some(c) ==> {
                &&& c.location == location
                &&& parses_device_id_registers(config@, c.device_id.registers)
                &&& parses_common_registers(config@, c.common_registers)
            },
    {
        let device_id = PCIConfigDeviceID::from_config_space(config);
        if device_id.registers.vendor_id == 0xFFFF {
            return None;
        }
        let common_registers = PCIDeviceCommonConfigRegisters::from_config_space(config);
        Some(PCIDeviceConfig { location, device_id, common_registers })
    }

    pub fn device_id(self) -> (r: PCIConfigDeviceID)
        ensures
            r == self.device_id,
    {
        self.device_id
    }

    pub fn common_registers(self) -> (r: PCIDeviceCommonConfigRegisters)
        ensures
            r == self.common_registers,
    {
        self.common_registers
    }

    /// The layout-specific part of the header; an error if the header type
    /// names no layout.
    pub fn config_type(&self, config: &[u8]) -> (r: Result<PCIDeviceConfigTypes, &'static str>)
        requires
            config.len() >= 0x40,
        ensures
            match r {
                Ok(PCIDeviceConfigTypes::GeneralDevice(t)) => {
                    &&& header_layout_of(self.common_registers.header_type.0) == Some(
                        PCIDeviceConfigHeaderLayout::GeneralDevice,
                    )
                    &&& t.common_config == *self
                    &&& parses_type0_registers(config@, t.registers)
                },
                Ok(PCIDeviceConfigTypes::PCIToPCIBridge) => header_layout_of(
                    self.common_registers.header_type.0,
                ) == Some(PCIDeviceConfigHeaderLayout::PCIToPCIBridge),
                Err(e) => header_layout_of(self.common_registers.header_type.0) is None
                    && e@ == "invalid PCI device header type"@,
            },
    {
        let layout = match self.common_registers.header_type.layout() {
            Ok(l) => l,
            Err(e) => return Err(e),
        };
        match layout {
            PCIDeviceConfigHeaderLayout::GeneralDevice => Ok(
                PCIDeviceConfigTypes::GeneralDevice(
                    PCIDeviceConfigType0::from_common_config(*self, config),
                ),
            ),
            PCIDeviceConfigHeaderLayout::PCIToPCIBridge => Ok(PCIDeviceConfigTypes::PCIToPCIBridge),
        }
    }
}

/// A general device (header type 0).
#[derive(Debug, Clone, Copy)]
pub struct PCIDeviceConfigType0 {
    pub common_config: PCIDeviceConfig,
    pub registers: PCIDeviceConfigType0Registers,
}

impl PCIDeviceConfigType0 {
    pub fn from_common_config(common_config: PCIDeviceConfig, config: &[u8]) -> (r: PCIDeviceConfigType0)
        requires
            config.len() >= 0x40,
        ensures
            r.common_config == common_config,
            parses_type0_registers(config@, r.registers),
    {
        PCIDeviceConfigType0 {
            common_config,
            registers: PCIDeviceConfigType0Registers::from_config_space(config),
        }
    }

    /// The capability list, which is empty unless the status register says
    /// that the device has one. `config_base_address` is where the
    /// configuration space `config` is mapped.
    pub fn iter_capabilities(self, config_base_address: usize, config: &[u8]) -> (r: PCIDeviceCapabilityIterator)
        requires
            capability_space_ok(config@, config_base_address),
        ensures
            r.ptr == (if bit_set_u16(self.common_config.common_registers.status.0, 4) {
                header_at(config@, config_base_address, self.registers.capabilities_pointer)
            } else {
                None
            }),
    {
        // Check if the device even has capabilities.
        let has_caps = self.common_config.common_registers.status.capabilities_list();
        if !has_caps {
            return PCIDeviceCapabilityIterator::new(None);
        }
        let cap_ptr = PCIDeviceCapabilityHeader::new(
            config_base_address,
            config,
            self.registers.capabilities_pointer,
        );
        PCIDeviceCapabilityIterator::new(cap_ptr)
    }

    pub fn bar_addresses(self) -> (r: BARAddresses<6>)
        ensures
            r.bars == self.registers.raw_bars,
    {
        BARAddresses { bars: self.registers.raw_bars }
    }

    /// What BAR `bar_idx` describes. Only a BAR that holds an address on its
    /// own can be asked for: not an unimplemented one, nor the upper half of
    /// a 64-bit address.
    pub fn bar(&self, bar_idx: usize) -> (r: BARAddress)
        requires
            bars_interpretable(self.registers.raw_bars@, 0),
            bar_idx < 6,
            bar_interpretation(self.registers.raw_bars@, 0)[bar_idx as int] is Some,
        ensures
            Some(r) == bar_interpretation(self.registers.raw_bars@, 0)[bar_idx as int],
    {
        let bar_addresses = self.bar_addresses().interpreted();
        match bar_addresses[bar_idx] {
            Some(address) => address,
            None => vstd::pervasive::unreached(),
        }
    }
}

} // verus!
