//! The ext2 superblock, and the layout arithmetic that locates block groups,
//! inodes and blocks on the disk.

use vstd::prelude::*;

use crate::block::{BlockIndex, BlockSize};
use crate::bitmap_alloc::bootstrap::ceil_div;
use super::inode::{BlockAddress, Inode, InodeDirectBlocks};
use crate::bytes::{
    le_u16, le_u32, read_array_16, read_array_3, read_array_64, read_u16_le, read_u32_le,
};

verus! {

/// Address in bytes from the start of the disk.
#[derive(Debug, Clone, Copy, PartialEq, Eq, Structural)]
pub struct OffsetBytes(pub u64);

/// "Global" inode number within the filesystem.
#[derive(Debug, Clone, Copy, PartialEq, Eq, Structural)]
pub struct InodeNumber(pub u32);

/// The root directory of the filesystem is always inode 2.
pub const ROOT_DIRECTORY_INODE: u32 = 2;

/// A `LocalInodeIndex` is an inode's index within a block group.
#[derive(Debug, Clone, Copy, PartialEq, Eq, Structural)]
pub struct LocalInodeIndex(pub u32);

/// Index for a given block group.
#[derive(Debug, Clone, Copy, PartialEq, Eq, Structural)]
pub struct BlockGroupIndex(pub u32);

/// See <https://www.nongnu.org/ext2-doc/ext2.html#superblock>
#[derive(Debug, Clone, Copy)]
pub struct Superblock {
    pub inodes_count: u32,
    pub blocks_count: u32,
    pub reserved_blocks_count: u32,
    pub free_blocks_count: u32,
    pub free_inodes_count: u32,
    pub first_data_block: u32,
    pub log_block_size: u32,
    pub log_frag_size: u32,
    pub blocks_per_group: u32,
    pub frags_per_group: u32,
    pub inodes_per_group: u32,
    pub mount_time: u32,
    pub write_time: u32,
    pub mount_count: u16,
    pub max_mount_count: u16,
    pub magic: u16,
    pub state: u16,
    pub errors: u16,
    pub minor_rev_level: u16,
    pub lastcheck: u32,
    pub checkinterval: u32,
    pub creator_os: u32,
    pub rev_level: u32,
    pub def_resuid: u16,
    pub def_resgid: u16,
    // EXT2_DYNAMIC_REV Specific
    pub first_ino: u32,
    pub inode_size: u16,
    pub block_group_nr: u16,
    pub feature_compat: u32,
    pub feature_incompat: u32,
    pub feature_ro_compat: u32,
    pub uuid: [u8; 16],
    pub volume_name: [u8; 16],
    pub last_mounted: [u8; 64],
    pub algo_bitmap: u32,
    // Performance Hints
    pub prealloc_blocks: u8,
    pub prealloc_dir_blocks: u8,
    pub padding1: u16,
    // Journaling Support
    pub journal_uuid: [u8; 16],
    pub journal_inum: u32,
    pub journal_dev: u32,
    pub last_orphan: u32,
    // Directory Indexing Support
    pub hash_seed: [u32; 4],
    pub def_hash_version: u8,
    pub padding2: [u8; 3],
    // Other options
    pub default_mount_options: u32,
    pub first_meta_bg: u32,
}

/// Whether `sb` holds the fields of the superblock whose on-disk bytes are
/// `s` (little-endian, at the offsets of the ext2 layout).
pub open spec fn parses_superblock(s: Seq<u8>, sb: Superblock) -> bool {
    &&& sb.inodes_count == le_u32(s, 0)
    &&& sb.blocks_count == le_u32(s, 4)
    &&& sb.reserved_blocks_count == le_u32(s, 8)
    &&& sb.free_blocks_count == le_u32(s, 12)
    &&& sb.free_inodes_count == le_u32(s, 16)
    &&& sb.first_data_block == le_u32(s, 20)
    &&& sb.log_block_size == le_u32(s, 24)
    &&& sb.log_frag_size == le_u32(s, 28)
    &&& sb.blocks_per_group == le_u32(s, 32)
    &&& sb.frags_per_group == le_u32(s, 36)
    &&& sb.inodes_per_group == le_u32(s, 40)
    &&& sb.mount_time == le_u32(s, 44)
    &&& sb.write_time == le_u32(s, 48)
    &&& sb.mount_count == le_u16(s, 52)
    &&& sb.max_mount_count == le_u16(s, 54)
    &&& sb.magic == le_u16(s, 56)
    &&& sb.state == le_u16(s, 58)
    &&& sb.errors == le_u16(s, 60)
    &&& sb.minor_rev_level == le_u16(s, 62)
    &&& sb.lastcheck == le_u32(s, 64)
    &&& sb.checkinterval == le_u32(s, 68)
    &&& sb.creator_os == le_u32(s, 72)
    &&& sb.rev_level == le_u32(s, 76)
    &&& sb.def_resuid == le_u16(s, 80)
    &&& sb.def_resgid == le_u16(s, 82)
    &&& sb.first_ino == le_u32(s, 84)
    &&& sb.inode_size == le_u16(s, 88)
    &&& sb.block_group_nr == le_u16(s, 90)
    &&& sb.feature_compat == le_u32(s, 92)
    &&& sb.feature_incompat == le_u32(s, 96)
    &&& sb.feature_ro_compat == le_u32(s, 100)
    &&& sb.uuid@ == s.subrange(104, 120)
    &&& sb.volume_name@ == s.subrange(120, 136)
    &&& sb.last_mounted@ == s.subrange(136, 200)
    &&& sb.algo_bitmap == le_u32(s, 200)
    &&& sb.prealloc_blocks == s[204]
    &&& sb.prealloc_dir_blocks == s[205]
    &&& sb.padding1 == le_u16(s, 206)
    &&& sb.journal_uuid@ == s.subrange(208, 224)
    &&& sb.journal_inum == le_u32(s, 224)
    &&& sb.journal_dev == le_u32(s, 228)
    &&& sb.last_orphan == le_u32(s, 232)
    &&& sb.hash_seed@ == seq![le_u32(s, 236), le_u32(s, 240), le_u32(s, 244), le_u32(s, 248)]
    &&& sb.def_hash_version == s[252]
    &&& sb.padding2@ == s.subrange(253, 256)
    &&& sb.default_mount_options == le_u32(s, 256)
    &&& sb.first_meta_bg == le_u32(s, 260)
}

impl Superblock {
    /// The superblock is always located at byte offset 1024 from the
    /// beginning of the file, block device or partition formatted with Ext2
    /// and later variants (Ext3, Ext4).
    pub const OFFSET_BYTES: usize = 1024;

    /// Size of the superblock's fields on disk.
    pub const SIZE_BYTES: usize = 264;

    /// 16bit value identifying the file system as Ext2. The value is
    /// currently fixed to EXT2_SUPER_MAGIC of value 0xEF53.
    /// <https://www.nongnu.org/ext2-doc/ext2.html#s-magic>
    pub const MAGIC: u16 = 0xEF53;

    /// Reads the superblock's fields from its on-disk bytes.
    pub fn from_bytes(bytes: &[u8]) -> (r: Superblock)
        requires
            264 <= bytes.len(),
        ensures
            parses_superblock(bytes@, r),
    {
        let r = Superblock {
            inodes_count: read_u32_le(bytes, 0),
            blocks_count: read_u32_le(bytes, 4),
            reserved_blocks_count: read_u32_le(bytes, 8),
            free_blocks_count: read_u32_le(bytes, 12),
            free_inodes_count: read_u32_le(bytes, 16),
            first_data_block: read_u32_le(bytes, 20),
            log_block_size: read_u32_le(bytes, 24),
            log_frag_size: read_u32_le(bytes, 28),
            blocks_per_group: read_u32_le(bytes, 32),
            frags_per_group: read_u32_le(bytes, 36),
            inodes_per_group: read_u32_le(bytes, 40),
            mount_time: read_u32_le(bytes, 44),
            write_time: read_u32_le(bytes, 48),
            mount_count: read_u16_le(bytes, 52),
            max_mount_count: read_u16_le(bytes, 54),
            magic: read_u16_le(bytes, 56),
            state: read_u16_le(bytes, 58),
            errors: read_u16_le(bytes, 60),
            minor_rev_level: read_u16_le(bytes, 62),
            lastcheck: read_u32_le(bytes, 64),
            checkinterval: read_u32_le(bytes, 68),
            creator_os: read_u32_le(bytes, 72),
            rev_level: read_u32_le(bytes, 76),
            def_resuid: read_u16_le(bytes, 80),
            def_resgid: read_u16_le(bytes, 82),
            first_ino: read_u32_le(bytes, 84),
            inode_size: read_u16_le(bytes, 88),
            block_group_nr: read_u16_le(bytes, 90),
            feature_compat: read_u32_le(bytes, 92),
            feature_incompat: read_u32_le(bytes, 96),
            feature_ro_compat: read_u32_le(bytes, 100),
            uuid: read_array_16(bytes, 104),
            volume_name: read_array_16(bytes, 120),
            last_mounted: read_array_64(bytes, 136),
            algo_bitmap: read_u32_le(bytes, 200),
            prealloc_blocks: bytes[204],
            prealloc_dir_blocks: bytes[205],
            padding1: read_u16_le(bytes, 206),
            journal_uuid: read_array_16(bytes, 208),
            journal_inum: read_u32_le(bytes, 224),
            journal_dev: read_u32_le(bytes, 228),
            last_orphan: read_u32_le(bytes, 232),
            hash_seed: [read_u32_le(bytes, 236), read_u32_le(bytes, 240), read_u32_le(bytes, 244), read_u32_le(bytes, 248)],
            def_hash_version: bytes[252],
            padding2: read_array_3(bytes, 253),
            default_mount_options: read_u32_le(bytes, 256),
            first_meta_bg: read_u32_le(bytes, 260),
        };
        assert(r.hash_seed@ =~= seq![le_u32(bytes@, 236), le_u32(bytes@, 240), le_u32(bytes@, 244), le_u32(bytes@, 248)]);
        r
    }

    pub fn magic_valid(&self) -> (r: bool)
        ensures
            r == (self.magic == 0xEF53),
    {
        self.magic == Self::MAGIC
    }

    /// The block size is computed using this 32bit value as the number of
    /// bits to shift left the value 1024. This value may only be
    /// non-negative.
    ///
    /// ```text
    /// block size = 1024 << s_log_block_size;
    /// ```
    ///
    /// Common block sizes include 1KiB, 2KiB, 4KiB and 8Kib.
    pub fn block_size(&self) -> (r: usize)
        requires
            self.log_block_size < usize::BITS,
        ensures
            r == (1024usize << (self.log_block_size as usize)),
            block_size_spec(self.log_block_size) <= usize::MAX ==> r == block_size_spec(
                self.log_block_size,
            ),
    {
        let shift = self.log_block_size as usize;
        proof {
            if block_size_spec(self.log_block_size) <= usize::MAX {
                vstd::bits::lemma_usize_shl_is_mul(1024, shift);
            }
        }
        1024usize << shift
    }
}

impl Superblock {
    /// The block size as the 16-bit `BlockSize` that the kernel's block
    /// layer works with: `1024 << log_block_size` cut to 16 bits.
    pub fn block_size_u16(&self) -> (r: BlockSize)
        requires
            self.log_block_size < 16,
        ensures
            r.0 == (1024u16 << (self.log_block_size as u16)),
            block_size_spec(self.log_block_size) <= u16::MAX ==> r.0 == block_size_spec(
                self.log_block_size,
            ),
    {
        let shift = self.log_block_size as u16;
        proof {
            if block_size_spec(self.log_block_size) <= u16::MAX {
                vstd::bits::lemma_u16_shl_is_mul(1024, shift);
            }
        }
        BlockSize(1024u16 << shift)
    }

    /// The block descriptor table is usually right after the superblock, but
    /// the location is `first_data_block + 1`.
    pub fn block_descriptor_table_start_block(&self) -> (r: BlockIndex)
        ensures
            r.0 == self.first_data_block + 1,
    {
        BlockIndex(self.first_data_block as u64 + 1)
    }

    pub fn num_block_groups(&self) -> (r: usize)
        requires
            self.blocks_per_group > 0,
        ensures
            r == ceil_div(self.blocks_count as int, self.blocks_per_group as int),
    {
        let num_blocks = self.blocks_count as usize;
        let blocks_per_group = self.blocks_per_group as usize;
        let q = num_blocks / blocks_per_group;
        proof {
            assert(q < num_blocks || num_blocks % blocks_per_group == 0 || q + 1 <= num_blocks)
                by (nonlinear_arith)
                requires
                    q == num_blocks / blocks_per_group,
                    blocks_per_group > 0,
            ;
            assert(q <= u32::MAX) by (nonlinear_arith)
                requires
                    q == num_blocks / blocks_per_group,
                    blocks_per_group > 0,
                    num_blocks <= u32::MAX,
            ;
        }
        if num_blocks % blocks_per_group == 0 {
            q
        } else {
            q + 1
        }
    }

    /// Index for the block group containing the inode, and the inode's index
    /// within that group.
    pub fn inode_location(&self, inode_number: InodeNumber) -> (r: (BlockGroupIndex, LocalInodeIndex))
        requires
            inode_number.0 >= 1,
            self.inodes_per_group > 0,
        ensures
            (r.0.0 as int, r.1.0 as int) == inode_location_spec(
                self.inodes_per_group as int,
                inode_number.0 as int,
            ),
    {
        let inode_index = inode_number.0 - 1;
        let block_group_index = BlockGroupIndex(inode_index / self.inodes_per_group);
        let local_inode_index = LocalInodeIndex(inode_index % self.inodes_per_group);
        (block_group_index, local_inode_index)
    }

    /// Convert from local inode index to global inode number.
    pub fn inode_number(
        &self,
        block_group_index: BlockGroupIndex,
        local_inode_index: LocalInodeIndex,
    ) -> (r: InodeNumber)
        requires
            block_group_index.0 * self.inodes_per_group + local_inode_index.0 + 1 <= u32::MAX,
        ensures
            r.0 == inode_number_spec(
                self.inodes_per_group as int,
                block_group_index.0 as int,
                local_inode_index.0 as int,
            ),
    {
        proof {
            assert(block_group_index.0 * self.inodes_per_group <= u32::MAX) by (nonlinear_arith)
                requires
                    block_group_index.0 * self.inodes_per_group + local_inode_index.0 + 1 <= u32::MAX,
                    local_inode_index.0 >= 0,
            ;
        }
        let inode_index = block_group_index.0 * self.inodes_per_group + local_inode_index.0;
        InodeNumber(inode_index + 1)
    }

    /// See <https://www.nongnu.org/ext2-doc/ext2.html#inode-table>
    ///
    /// Returns the block containing the inode and the offset of the inode
    /// within that block.
    pub fn inode_block_and_offset(
        &self,
        table_address: BlockAddress,
        local_inode_index: LocalInodeIndex,
    ) -> (r: (BlockIndex, OffsetBytes))
        requires
            self.log_block_size < 16,
            block_size_spec(self.log_block_size) <= u16::MAX,
        ensures
            ({
                let byte_offset = self.inode_size * local_inode_index.0;
                let block_size = block_size_spec(self.log_block_size);
                &&& r.0.0 == table_address.0 + byte_offset / block_size
                &&& r.1.0 == byte_offset % block_size
            }),
    {
        proof {
            assert(self.inode_size * local_inode_index.0 <= u16::MAX * u32::MAX) by (nonlinear_arith)
                requires
                    self.inode_size <= u16::MAX,
                    local_inode_index.0 <= u32::MAX,
            ;
        }
        let byte_offset: u64 = self.inode_size as u64 * local_inode_index.0 as u64;
        let block_size: u64 = self.block_size_u16().0 as u64;
        proof {
            vstd::arithmetic::power2::lemma_pow2_pos(self.log_block_size as nat);
            assert(byte_offset / block_size <= byte_offset) by (nonlinear_arith)
                requires
                    block_size > 0,
                    byte_offset >= 0,
            ;
        }
        let block_offset = BlockIndex(byte_offset / block_size);
        let block_index = BlockIndex(table_address.0 as u64).add(block_offset);
        let relative_byte_offset = OffsetBytes(byte_offset % block_size);
        (block_index, relative_byte_offset)
    }

    /// Size of the inode's data in bytes. Revision 0 only has 32-bit sizes.
    pub fn inode_size(&self, inode: &Inode) -> (r: u64)
        ensures
            r == (if self.rev_level == 0 {
                inode.size_low as int
            } else {
                inode.size_high * 0x1_0000_0000 + inode.size_low
            }),
    {
        // In revision 0, we only have 32-bit sizes.
        if self.rev_level == 0 {
            return inode.size_low as u64;
        }
        inode.size_high as u64 * 0x1_0000_0000 + inode.size_low as u64
    }

    /// Iterates over the allocated direct blocks of the inode, as many as
    /// the inode's 512-byte block count says, with the byte offset in the
    /// file at which each block's data sits.
    pub fn iter_inode_blocks(&self, inode: &Inode) -> (r: InodeBlockIterator)
        requires
            self.log_block_size < 16,
            1 <= block_size_spec(self.log_block_size) <= u16::MAX,
            inode.blocks * 512 <= usize::MAX,
        ensures
            r.direct_blocks == inode.direct_blocks,
            r.block_size == block_size_spec(self.log_block_size),
            r.num_blocks == ceil_div(inode.blocks * 512, block_size_spec(self.log_block_size)),
            r.seen_blocks == 0,
            r.index == 0,
    {
        let block_size = self.block_size_u16().0 as u64;

        // Remember, inode.blocks is number of 512 byte blocks, not
        // filesystem-sized blocks. Need to divide by block size to get actual
        // number of blocks.
        let bytes = inode.blocks as usize * 512;
        let bs = block_size as usize;
        let q = bytes / bs;
        proof {
            assert(q <= bytes) by (nonlinear_arith)
                requires
                    q == bytes / bs,
                    bs >= 1,
            ;
            if bytes % bs != 0 && q == bytes {
                assert(false) by (nonlinear_arith)
                    requires
                        q == bytes / bs,
                        bs >= 1,
                        bytes % bs != 0,
                        q == bytes,
                ;
            }
        }
        let num_blocks = if bytes % bs == 0 {
            q
        } else {
            q + 1
        };

        InodeBlockIterator {
            direct_blocks: inode.direct_blocks,
            block_size,
            num_blocks,
            seen_blocks: 0,
            index: 0,
        }
    }
}

/// Iterator over the allocated direct blocks of an inode.
pub struct InodeBlockIterator {
    pub direct_blocks: InodeDirectBlocks,
    pub block_size: u64,
    pub num_blocks: usize,
    pub seen_blocks: usize,
    pub index: usize,
}

/// The index of the first allocated (non-zero) direct block at or after
/// `from`, if there is one.
pub open spec fn next_allocated(blocks: Seq<BlockAddress>, from: int, j: int) -> bool {
    &&& from <= j < 12
    &&& blocks[j].0 != 0
    &&& forall|k: int| from <= k < j ==> (#[trigger] blocks[k]).0 == 0
}

impl InodeBlockIterator {
    /// The next allocated direct block and the byte offset in the file of
    /// its data, skipping unallocated blocks (holes in the file). `None` once
    /// as many blocks as the inode holds have been seen.
    pub fn next(&mut self) -> (r: Option<(OffsetBytes, BlockAddress)>)
        requires
            old(self).block_size <= u16::MAX,
            old(self).index <= 12,
            old(self).seen_blocks < old(self).num_blocks ==> exists|j: int|
                next_allocated(old(self).direct_blocks.0@, old(self).index as int, j),
        ensures
            final(self).direct_blocks == old(self).direct_blocks,
            final(self).block_size == old(self).block_size,
            final(self).num_blocks == old(self).num_blocks,
            old(self).seen_blocks >= old(self).num_blocks ==> r is None && *final(self) == *old(
                self,
            ),
            old(self).seen_blocks < old(self).num_blocks ==> {
                let j = final(self).index - 1;
                &&& next_allocated(old(self).direct_blocks.0@, old(self).index as int, j)
                &&& final(self).seen_blocks == old(self).seen_blocks + 1
                &&& r == Some((OffsetBytes((j * old(self).block_size) as u64), old(self).direct_blocks.0@[j]))
            },
    {
        // Iterate through blocks, skipping blocks that aren't allocated (for
        // e.g. file holes).
        let ghost start = self.index as int;
        while self.seen_blocks < self.num_blocks
            invariant
                self.direct_blocks == old(self).direct_blocks,
                self.block_size == old(self).block_size,
                self.num_blocks == old(self).num_blocks,
                self.seen_blocks == old(self).seen_blocks,
                self.block_size <= u16::MAX,
                start == old(self).index,
                start <= self.index <= 12,
                self.seen_blocks >= self.num_blocks ==> self.index == start,
                self.seen_blocks < self.num_blocks ==> exists|j: int|
                    next_allocated(self.direct_blocks.0@, start, j),
                forall|k: int| start <= k < self.index ==> (#[trigger] self.direct_blocks.0@[k]).0 == 0,
            decreases 12 - self.index,
        {
            if self.index == 12 {
                proof {
                    let j = choose|j: int| next_allocated(self.direct_blocks.0@, start, j);
                    assert(self.direct_blocks.0@[j].0 == 0);
                }
            }
            let index = self.index;
            self.index += 1;

            let block = self.direct_blocks.0[index];

            if block.0 == 0 {
                continue;
            }

            self.seen_blocks += 1;
            proof {
                assert(next_allocated(self.direct_blocks.0@, start, index as int));
                assert(index as u64 * self.block_size <= 12 * 0xFFFF) by (nonlinear_arith)
                    requires
                        index < 12,
                        self.block_size <= u16::MAX,
                ;
            }
            let offset = OffsetBytes(index as u64 * self.block_size);
            let address = BlockAddress(block.0);

            return Some((offset, address));
        }
        None
    }
}

/// The block group holding inode number `n`, and the inode's index in it,
/// with `inodes_per_group` inodes per group. Inode numbers start at 1.
pub open spec fn inode_location_spec(inodes_per_group: int, n: int) -> (int, int) {
    ((n - 1) / inodes_per_group, (n - 1) % inodes_per_group)
}

/// The inode number of the inode at `local` in block group `group`.
pub open spec fn inode_number_spec(inodes_per_group: int, group: int, local: int) -> int {
    group * inodes_per_group + local + 1
}

/// Locating an inode and numbering what was located gives back the inode
/// number.
pub proof fn lemma_inode_number_of_location(inodes_per_group: int, n: int)
    requires
        inodes_per_group > 0,
        n >= 1,
    ensures
        inode_number_spec(
            inodes_per_group,
            inode_location_spec(inodes_per_group, n).0,
            inode_location_spec(inodes_per_group, n).1,
        ) == n,
        0 <= inode_location_spec(inodes_per_group, n).1 < inodes_per_group,
{
    vstd::arithmetic::div_mod::lemma_fundamental_div_mod(n - 1, inodes_per_group);
    vstd::arithmetic::mul::lemma_mul_is_commutative(inodes_per_group, (n - 1) / inodes_per_group);
}

/// Numbering an inode by group and index within the group, then locating
/// the number, gives back the group and index.
pub proof fn lemma_location_of_inode_number(inodes_per_group: int, group: int, local: int)
    requires
        inodes_per_group > 0,
        group >= 0,
        0 <= local < inodes_per_group,
    ensures
        inode_location_spec(inodes_per_group, inode_number_spec(inodes_per_group, group, local))
            == (group, local),
{
    vstd::arithmetic::div_mod::lemma_fundamental_div_mod_converse(
        group * inodes_per_group + local,
        inodes_per_group,
        group,
        local,
    );
}

/// `1024 << log_block_size`, the block size of a file system whose
/// superblock holds `log_block_size`.
pub open spec fn block_size_spec(log_block_size: u32) -> int {
    1024 * (vstd::arithmetic::power2::pow2(log_block_size as nat) as int)
}

} // verus!
