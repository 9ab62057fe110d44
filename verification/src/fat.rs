//! FAT file systems: the BIOS parameter block at the start of the boot
//! sector.
//!
//! # Resources
//!
//! - <https://en.wikipedia.org/wiki/Design_of_the_FAT_file_system>
//! - <https://wiki.osdev.org/FAT>

use vstd::prelude::*;

use crate::bytes::{le_u16, le_u32, read_array_3, read_array_8, read_u16_le, read_u32_le};

verus! {

/// The BIOS parameter block is the first part of the boot sector.
#[derive(Debug, Clone, Copy)]
pub struct BIOSParameterBlock {
    pub jmp_boot: [u8; 3],
    pub oem_name: [u8; 8],
    pub bytes_per_sector: u16,
    pub sectors_per_cluster: u8,
    pub reserved_sectors: u16,
    pub fat_count: u8,
    pub root_dir_entries: u16,
    pub total_sectors: u16,
    pub media_descriptor: u8,
    pub sectors_per_fat: u16,
    pub sectors_per_track: u16,
    pub head_count: u16,
    pub hidden_sectors: u32,
    pub total_sectors_large: u32,
}

/// Whether `b` holds the fields of the packed, little-endian BIOS parameter
/// block bytes `s`.
pub open spec fn parses_bios_parameter_block(s: Seq<u8>, b: BIOSParameterBlock) -> bool {
    &&& b.jmp_boot@ == s.subrange(0, 3)
    &&& b.oem_name@ == s.subrange(3, 11)
    &&& b.bytes_per_sector == le_u16(s, 11)
    &&& b.sectors_per_cluster == s[13]
    &&& b.reserved_sectors == le_u16(s, 14)
    &&& b.fat_count == s[16]
    &&& b.root_dir_entries == le_u16(s, 17)
    &&& b.total_sectors == le_u16(s, 19)
    &&& b.media_descriptor == s[21]
    &&& b.sectors_per_fat == le_u16(s, 22)
    &&& b.sectors_per_track == le_u16(s, 24)
    &&& b.head_count == le_u16(s, 26)
    &&& b.hidden_sectors == le_u32(s, 28)
    &&& b.total_sectors_large == le_u32(s, 32)
}

impl BIOSParameterBlock {
    /// Size of the block on disk.
    pub const SIZE_BYTES: usize = 36;

    /// Reads the block from the first bytes of a boot sector.
    pub fn from_bytes(bytes: &[u8]) -> (r: BIOSParameterBlock)
        requires
            bytes.len() >= 36,
        ensures
            parses_bios_parameter_block(bytes@, r),
    {
        BIOSParameterBlock {
            jmp_boot: read_array_3(bytes, 0),
            oem_name: read_array_8(bytes, 3),
            bytes_per_sector: read_u16_le(bytes, 11),
            sectors_per_cluster: bytes[13],
            reserved_sectors: read_u16_le(bytes, 14),
            fat_count: bytes[16],
            root_dir_entries: read_u16_le(bytes, 17),
            total_sectors: read_u16_le(bytes, 19),
            media_descriptor: bytes[21],
            sectors_per_fat: read_u16_le(bytes, 22),
            sectors_per_track: read_u16_le(bytes, 24),
            head_count: read_u16_le(bytes, 26),
            hidden_sectors: read_u32_le(bytes, 28),
            total_sectors_large: read_u32_le(bytes, 32),
        }
    }
}

} // verus!
