//! The registers of the configuration header that every PCI function has:
//! command, status and header type. See "7.5.1.1 Type 0/1 Common
//! Configuration Space" in the PCI Express specification.

use vstd::prelude::*;

use crate::bytes::{le_u16, read_u16_le};

verus! {

/// Whether bit `bit` of `value` is set.
pub open spec fn bit_set_u16(value: u16, bit: u16) -> bool {
    (value >> bit) & 1 == 1
}

/// Whether bit `bit` of `value` is set.
pub open spec fn bit_set_u8(value: u8, bit: u8) -> bool {
    (value >> bit) & 1 == 1
}

/// See "7.5.1.1.3 Command Register (Offset 04h)" in the PCI Express
/// specification. Bits 0 to 10 are flags; the rest are reserved.
#[derive(Debug, Clone, Copy, PartialEq, Eq, Structural)]
pub struct PCIDeviceConfigCommand(pub u16);

impl PCIDeviceConfigCommand {
    pub fn io_space_enable(&self) -> (r: bool)
        ensures
            r == bit_set_u16(self.0, 0),
    {
        (self.0 >> 0u16) & 1 == 1
    }

    pub fn memory_space_enable(&self) -> (r: bool)
        ensures
            r == bit_set_u16(self.0, 1),
    {
        (self.0 >> 1u16) & 1 == 1
    }

    pub fn bus_master_enable(&self) -> (r: bool)
        ensures
            r == bit_set_u16(self.0, 2),
    {
        (self.0 >> 2u16) & 1 == 1
    }

    pub fn special_cycle_enable(&self) -> (r: bool)
        ensures
            r == bit_set_u16(self.0, 3),
    {
        (self.0 >> 3u16) & 1 == 1
    }

    pub fn memory_write_and_invalidate(&self) -> (r: bool)
        ensures
            r == bit_set_u16(self.0, 4),
    {
        (self.0 >> 4u16) & 1 == 1
    }

    pub fn vga_palette_snoop(&self) -> (r: bool)
        ensures
            r == bit_set_u16(self.0, 5),
    {
        (self.0 >> 5u16) & 1 == 1
    }

    pub fn parity_error_response(&self) -> (r: bool)
        ensures
            r == bit_set_u16(self.0, 6),
    {
        (self.0 >> 6u16) & 1 == 1
    }

    pub fn idsel_stepping_wait_cycle_control(&self) -> (r: bool)
        ensures
            r == bit_set_u16(self.0, 7),
    {
        (self.0 >> 7u16) & 1 == 1
    }

    pub fn serr_enable(&self) -> (r: bool)
        ensures
            r == bit_set_u16(self.0, 8),
    {
        (self.0 >> 8u16) & 1 == 1
    }

    pub fn fast_back_to_back_transactions_enable(&self) -> (r: bool)
        ensures
            r == bit_set_u16(self.0, 9),
    {
        (self.0 >> 9u16) & 1 == 1
    }

    pub fn interrupt_disable(&self) -> (r: bool)
        ensures
            r == bit_set_u16(self.0, 10),
    {
        (self.0 >> 10u16) & 1 == 1
    }
}

/// See "7.5.1.1.4 Status Register (Offset 06h)" in the PCI Express
/// specification. Bits 1, 2 and 6 are reserved; bits 9 and 10 hold the
/// DEVSEL timing.
#[derive(Debug, Clone, Copy, PartialEq, Eq, Structural)]
pub struct PCIDeviceConfigStatus(pub u16);

impl PCIDeviceConfigStatus {
    pub fn immediate_readiness(&self) -> (r: bool)
        ensures
            r == bit_set_u16(self.0, 0),
    {
        (self.0 >> 0u16) & 1 == 1
    }

    pub fn interrupt_status(&self) -> (r: bool)
        ensures
            r == bit_set_u16(self.0, 3),
    {
        (self.0 >> 3u16) & 1 == 1
    }

    pub fn capabilities_list(&self) -> (r: bool)
        ensures
            r == bit_set_u16(self.0, 4),
    {
        (self.0 >> 4u16) & 1 == 1
    }

    pub fn mhz_66_capable(&self) -> (r: bool)
        ensures
            r == bit_set_u16(self.0, 5),
    {
        (self.0 >> 5u16) & 1 == 1
    }

    pub fn fast_back_to_back_transactions_capable(&self) -> (r: bool)
        ensures
            r == bit_set_u16(self.0, 7),
    {
        (self.0 >> 7u16) & 1 == 1
    }

    pub fn master_data_parity_error(&self) -> (r: bool)
        ensures
            r == bit_set_u16(self.0, 8),
    {
        (self.0 >> 8u16) & 1 == 1
    }

    pub fn signaled_target_abort(&self) -> (r: bool)
        ensures
            r == bit_set_u16(self.0, 11),
    {
        (self.0 >> 11u16) & 1 == 1
    }

    pub fn received_target_abort(&self) -> (r: bool)
        ensures
            r == bit_set_u16(self.0, 12),
    {
        (self.0 >> 12u16) & 1 == 1
    }

    pub fn received_master_abort(&self) -> (r: bool)
        ensures
            r == bit_set_u16(self.0, 13),
    {
        (self.0 >> 13u16) & 1 == 1
    }

    pub fn signaled_system_error(&self) -> (r: bool)
        ensures
            r == bit_set_u16(self.0, 14),
    {
        (self.0 >> 14u16) & 1 == 1
    }

    pub fn detected_parity_error(&self) -> (r: bool)
        ensures
            r == bit_set_u16(self.0, 15),
    {
        (self.0 >> 15u16) & 1 == 1
    }

    pub fn devsel_timing(&self) -> (r: u8)
        ensures
            r == (self.0 >> 9u16) & 3,
    {
        let raw: u16 = self.0;
        let t: u16 = (raw >> 9u16) & 3;
        assert(t < 4) by (bit_vector)
            requires
                t == (raw >> 9u16) & 3,
        ;
        t as u8
    }
}

#[derive(Debug, Clone, Copy, PartialEq, Eq, Structural)]
pub enum PCIDeviceConfigHeaderLayout {
    GeneralDevice,
    PCIToPCIBridge,
}

/// The layout that a header type register stands for, if any: its first 7
/// bits must be 0 (a general device) or 1 (a PCI-to-PCI bridge). CardBus
/// bridges (2) no longer exist in PCI Express.
pub open spec fn header_layout_of(raw: u8) -> Option<PCIDeviceConfigHeaderLayout> {
    if raw & 0x7F == 0 {
        Some(PCIDeviceConfigHeaderLayout::GeneralDevice)
    } else if raw & 0x7F == 1 {
        Some(PCIDeviceConfigHeaderLayout::PCIToPCIBridge)
    } else {
        None
    }
}

/// 7.5.1.1.9 Header Type Register (Offset 0Eh): the layout in bits 0 and 1,
/// bits 2 to 6 reserved, and whether the device has several functions in bit 7.
#[derive(Debug, Clone, Copy, PartialEq, Eq, Structural)]
pub struct PCIDeviceConfigHeaderType(pub u8);

impl PCIDeviceConfigHeaderType {
    pub fn raw_layout(&self) -> (r: u8)
        ensures
            r == self.0 & 3,
    {
        self.0 & 3
    }

    pub fn multifunction(&self) -> (r: bool)
        ensures
            r == bit_set_u8(self.0, 7),
    {
        (self.0 >> 7u8) & 1 == 1
    }

    /// The layout is in the first 7 bits of the Header Type register.
    pub fn layout(self) -> (r: Result<PCIDeviceConfigHeaderLayout, &'static str>)
        ensures
            match r {
                Ok(l) => header_layout_of(self.0) == Some(l),
                Err(e) => header_layout_of(self.0) is None && e@ == "invalid PCI device header type"@,
            },
    {
        match self.0 & 0x7F {
            0x00 => Ok(PCIDeviceConfigHeaderLayout::GeneralDevice),
            0x01 => Ok(PCIDeviceConfigHeaderLayout::PCIToPCIBridge),
            _ => Err("invalid PCI device header type"),
        }
    }
}

impl PCIDeviceConfigHeaderLayout {
    pub fn as_str(self) -> (r: &'static str)
        ensures
            r@ == match self {
                PCIDeviceConfigHeaderLayout::GeneralDevice => "0x00 (General Device)"@,
                PCIDeviceConfigHeaderLayout::PCIToPCIBridge => "0x01 (PCI-to-PCI Bridge)"@,
            },
    {
        match self {
            PCIDeviceConfigHeaderLayout::GeneralDevice => "0x00 (General Device)",
            PCIDeviceConfigHeaderLayout::PCIToPCIBridge => "0x01 (PCI-to-PCI Bridge)",
        }
    }
}

/// The registers of the header shared by all PCI functions, besides the
/// identification registers. See <https://wiki.osdev.org/PCI#Common_Header_Fields>.
#[derive(Debug, Clone, Copy)]
pub struct PCIDeviceCommonConfigRegisters {
    pub command: PCIDeviceConfigCommand,
    pub status: PCIDeviceConfigStatus,
    pub cache_line_size: u8,
    pub latency_timer: u8,
    pub header_type: PCIDeviceConfigHeaderType,
    pub bist: u8,
    pub capabilities_pointer: u8,
    pub interrupt_line: u8,
    pub interrupt_pin: u8,
}

/// Whether `r` holds the common header registers found in the configuration
/// space bytes `config`.
pub open spec fn parses_common_registers(config: Seq<u8>, r: PCIDeviceCommonConfigRegisters) -> bool {
    &&& r.command.0 == le_u16(config, 0x04)
    &&& r.status.0 == le_u16(config, 0x06)
    &&& r.cache_line_size == config[0x0C]
    &&& r.latency_timer == config[0x0D]
    &&& r.header_type.0 == config[0x0E]
    &&& r.bist == config[0x0F]
    &&& r.capabilities_pointer == config[0x34]
    &&& r.interrupt_line == config[0x3C]
    &&& r.interrupt_pin == config[0x3D]
}

impl PCIDeviceCommonConfigRegisters {
    pub fn from_config_space(config: &[u8]) -> (r: PCIDeviceCommonConfigRegisters)
        requires
            config.len() >= 0x40,
        ensures
            parses_common_registers(config@, r),
    {
        PCIDeviceCommonConfigRegisters {
            command: PCIDeviceConfigCommand(read_u16_le(config, 0x04)),
            status: PCIDeviceConfigStatus(read_u16_le(config, 0x06)),
            cache_line_size: config[0x0C],
            latency_timer: config[0x0D],
            header_type: PCIDeviceConfigHeaderType(config[0x0E]),
            bist: config[0x0F],
            capabilities_pointer: config[0x34],
            interrupt_line: config[0x3C],
            interrupt_pin: config[0x3D],
        }
    }
}

} // verus!
