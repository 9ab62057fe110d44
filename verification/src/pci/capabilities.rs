//! The capability list of a PCI function: a chain of headers in its
//! configuration space, each naming a capability and the offset of the next.

use vstd::prelude::*;

use crate::bytes::{le_u16, le_u32, read_u16_le, read_u32_le};

verus! {

/// Size of the configuration space of one PCI Express function (ECAM).
pub const PCI_CONFIG_SPACE_SIZE: usize = 4096;

/// Capability ID of vendor-specific capabilities.
pub const VENDOR_SPECIFIC_CAPABILITY_ID: u8 = 0x09;

/// Capability ID of MSI-X.
pub const MSIX_CAPABILITY_ID: u8 = 0x11;

/// A capability header: where it is, and the two bytes it holds.
#[derive(Debug, Clone, Copy, PartialEq, Eq, Structural)]
pub struct PCIDeviceCapabilityHeader {
    /// Address of the function's configuration space.
    pub config_base_address: usize,
    /// Address of this header.
    pub address: usize,
    /// Offset of this header in the configuration space.
    pub offset: u8,
    /// Capability ID.
    pub id: u8,
    /// Offset of the next header, or 0 at the end of the list.
    pub next: u8,
}

/// The capability header at `offset` in the configuration space `config`
/// that starts at `base`; an offset of 0 ends the list.
pub open spec fn header_at(config: Seq<u8>, base: usize, offset: u8) -> Option<PCIDeviceCapabilityHeader> {
    if offset == 0 {
        None
    } else {
        Some(
            PCIDeviceCapabilityHeader {
                config_base_address: base,
                address: (base + offset) as usize,
                offset,
                id: config[offset as int],
                next: config[offset + 1],
            },
        )
    }
}

/// Whether a configuration space copy and its address can hold a capability
/// list: the copy is a whole configuration space, and every header address
/// fits in a `usize`.
pub open spec fn capability_space_ok(config: Seq<u8>, base: usize) -> bool {
    config.len() >= PCI_CONFIG_SPACE_SIZE && base + 0xFF <= usize::MAX
}

impl PCIDeviceCapabilityHeader {
    /// The header at `offset` of the configuration space; `None` if the
    /// offset is 0.
    pub fn new(config_base_address: usize, config: &[u8], offset: u8) -> (r: Option<PCIDeviceCapabilityHeader>)
        requires
            capability_space_ok(config@, config_base_address),
        ensures
            r == header_at(config@, config_base_address, offset),
    {
        if offset == 0 {
            return None;
        }
        let address = config_base_address + offset as usize;
        let at = offset as usize;
        Some(
            PCIDeviceCapabilityHeader {
                config_base_address,
                address,
                offset,
                id: config[at],
                next: config[at + 1],
            },
        )
    }

    pub fn address(&self) -> (r: usize)
        ensures
            r == self.address,
    {
        self.address
    }

    /// Vendor-specific capability headers have an ID of 0x09.
    pub fn is_vendor_specific(&self) -> (r: bool)
        ensures
            r == (self.id == VENDOR_SPECIFIC_CAPABILITY_ID),
    {
        self.id == VENDOR_SPECIFIC_CAPABILITY_ID
    }

    /// The header that this one points to, if any.
    pub fn next_capability(&self, config: &[u8]) -> (r: Option<PCIDeviceCapabilityHeader>)
        requires
            capability_space_ok(config@, self.config_base_address),
        ensures
            r == header_at(config@, self.config_base_address, self.next),
    {
        PCIDeviceCapabilityHeader::new(self.config_base_address, config, self.next)
    }

    /// Determine the specific capability type of this capability header.
    pub fn capability(&self, config: &[u8]) -> (r: PCIDeviceCapability)
        requires
            config@.len() >= PCI_CONFIG_SPACE_SIZE,
        ensures
            r == capability_of(config@, *self),
    {
        if self.id == MSIX_CAPABILITY_ID {
            match MSIXCapability::from_capability(*self, config) {
                Some(msix) => PCIDeviceCapability::MSIX(msix),
                None => vstd::pervasive::unreached(),
            }
        } else if self.id == VENDOR_SPECIFIC_CAPABILITY_ID {
            PCIDeviceCapability::VendorSpecific(*self)
        } else {
            PCIDeviceCapability::Other(*self)
        }
    }
}

#[derive(Debug, Clone, Copy, PartialEq, Eq, Structural)]
pub enum PCIDeviceCapability {
    MSIX(MSIXCapability),
    VendorSpecific(PCIDeviceCapabilityHeader),
    Other(PCIDeviceCapabilityHeader),
}

/// The capability that a header stands for.
pub open spec fn capability_of(config: Seq<u8>, h: PCIDeviceCapabilityHeader) -> PCIDeviceCapability {
    if h.id == MSIX_CAPABILITY_ID {
        PCIDeviceCapability::MSIX(msix_at(config, h.offset))
    } else if h.id == VENDOR_SPECIFIC_CAPABILITY_ID {
        PCIDeviceCapability::VendorSpecific(h)
    } else {
        PCIDeviceCapability::Other(h)
    }
}

/// Walks the capability list: each call gives the current header and moves
/// on to the one it points to.
#[derive(Debug, Clone)]
pub struct PCIDeviceCapabilityIterator {
    pub ptr: Option<PCIDeviceCapabilityHeader>,
}

impl PCIDeviceCapabilityIterator {
    pub fn new(ptr: Option<PCIDeviceCapabilityHeader>) -> (r: PCIDeviceCapabilityIterator)
        ensures
            r.ptr == ptr,
    {
        PCIDeviceCapabilityIterator { ptr }
    }

    pub fn next(&mut self, config: &[u8]) -> (r: Option<PCIDeviceCapabilityHeader>)
        requires
            old(self).ptr matches Some(h) ==> capability_space_ok(config@, h.config_base_address),
        ensures
            r == old(self).ptr,
            final(self).ptr == match old(self).ptr {
                Some(h) => header_at(config@, h.config_base_address, h.next),
                None => None,
            },
    {
        let current = self.ptr;
        self.ptr = match current {
            Some(h) => h.next_capability(config),
            None => None,
        };
        current
    }
}

/// See "7.7.2.2 Message Control Register for MSI-X (Offset 02h)" in the PCI
/// Express specification: the table size in bits 0 to 10, bits 11 to 13
/// reserved, then the function mask and enable bits.
#[derive(Debug, Clone, Copy, PartialEq, Eq, Structural)]
pub struct MSIXMessageControl(pub u16);

impl MSIXMessageControl {
    pub fn table_size(&self) -> (r: u16)
        ensures
            r == self.0 & 0x7FF,
    {
        self.0 & 0x7FF
    }

    pub fn function_mask(&self) -> (r: bool)
        ensures
            r == ((self.0 >> 14u16) & 1 == 1),
    {
        (self.0 >> 14u16) & 1 == 1
    }

    pub fn enable(&self) -> (r: bool)
        ensures
            r == ((self.0 >> 15u16) & 1 == 1),
    {
        (self.0 >> 15u16) & 1 == 1
    }
}

/// See "7.7.2.3 Table Offset/Table BIR Register for MSI-X (Offset 04h)" in
/// the PCI Express specification.
#[derive(Debug, Clone, Copy, PartialEq, Eq, Structural)]
pub struct MSIXTableOffset(pub u32);

impl MSIXTableOffset {
    /// BIR (BAR Indicator Register) is a 3-bit field that indicates which BAR
    /// contains the MSI-X table.
    pub fn bar_indicator_register(self) -> (r: u8)
        ensures
            r == self.0 & 0b111,
    {
        let raw: u32 = self.0;
        let bir: u32 = raw & 0b111;
        assert(bir < 8) by (bit_vector)
            requires
                bir == raw & 0b111,
        ;
        bir as u8
    }

    /// The offset of the MSI-X table from the base address of the BAR
    /// indicated by the BIR field, with the low 3 bits masked off so that it
    /// is 4 byte aligned.
    pub fn table_offset(self) -> (r: u32)
        ensures
            r == self.0 & 0xFFFF_FFF8,
    {
        self.0 & 0b1111_1111_1111_1111_1111_1111_1111_1000
    }
}

/// See "7.7.2.4 PBA Offset/PBA BIR Register for MSI-X (Offset 08h)" in the
/// PCI Express specification.
#[derive(Debug, Clone, Copy, PartialEq, Eq, Structural)]
pub struct MSIXPendingBitArrayOffset(pub u32);

impl MSIXPendingBitArrayOffset {
    /// Which BAR contains the pending bit array.
    pub fn bar_indicator_register(self) -> (r: u8)
        ensures
            r == self.0 & 0b111,
    {
        let raw: u32 = self.0;
        let bir: u32 = raw & 0b111;
        assert(bir < 8) by (bit_vector)
            requires
                bir == raw & 0b111,
        ;
        bir as u8
    }

    /// The offset of the pending bit array from the base address of its
    /// BAR, 4 byte aligned.
    pub fn pba_offset(self) -> (r: u32)
        ensures
            r == self.0 & 0xFFFF_FFF8,
    {
        self.0 & 0b1111_1111_1111_1111_1111_1111_1111_1000
    }
}

/// The MSI-X capability structure. See "7.7.2 MSI-X Capability and Table
/// Structure" in the PCI Express specification.
#[derive(Debug, Clone, Copy, PartialEq, Eq, Structural)]
pub struct MSIXCapability {
    pub message_control: MSIXMessageControl,
    pub table_offset: MSIXTableOffset,
    pub pending_bit_array_offset: MSIXPendingBitArrayOffset,
}

/// The MSI-X capability whose header is at `offset`.
pub open spec fn msix_at(config: Seq<u8>, offset: u8) -> MSIXCapability {
    MSIXCapability {
        message_control: MSIXMessageControl(le_u16(config, offset + 2)),
        table_offset: MSIXTableOffset(le_u32(config, offset + 4)),
        pending_bit_array_offset: MSIXPendingBitArrayOffset(le_u32(config, offset + 8)),
    }
}

impl MSIXCapability {
    /// The MSI-X structure of a capability; `None` if the capability is not
    /// MSI-X.
    pub fn from_capability(capability: PCIDeviceCapabilityHeader, config: &[u8]) -> (r: Option<MSIXCapability>)
        requires
            config@.len() >= PCI_CONFIG_SPACE_SIZE,
        ensures
            r == (if capability.id == MSIX_CAPABILITY_ID {
                Some(msix_at(config@, capability.offset))
            } else {
                None
            }),
    {
        if capability.id != MSIX_CAPABILITY_ID {
            return None;
        }
        let at = capability.offset as usize;
        Some(
            MSIXCapability {
                message_control: MSIXMessageControl(read_u16_le(config, at + 2)),
                table_offset: MSIXTableOffset(read_u32_le(config, at + 4)),
                pending_bit_array_offset: MSIXPendingBitArrayOffset(read_u32_le(config, at + 8)),
            },
        )
    }
}

} // verus!
