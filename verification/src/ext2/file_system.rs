//! The kernel's in-memory view of an ext2 file system on a block device: it
//! reads inodes, and creates files by reserving an inode and writing it out.

use vstd::prelude::*;

use crate::bitmap_alloc::chunk::pages_of;
use crate::block::{BlockBuffer, BlockDevice, BlockDeviceDriver, BlockIndex, BlockSize};
use crate::bytes::{le_u16, le_u32, lemma_put_u16, lemma_put_u32, put_u16, put_u32, splice_bytes, write_u16_le, write_u32_le};
use super::block_group::{is_first_free, parses_block_group_descriptor, BlockGroupDescriptor, InodeBitmap};
use crate::bitmap_alloc::chunk::{lemma_page_position, lemma_pages_of_injective, lemma_pages_of_update, u8_bit, BitChunk};
use super::inode::{byte16, direct_blocks_from, inode_image, parses_inode, BlockAddress, Inode, InodeDirectBlocks, InodeMode};
use crate::bitmap_alloc::bootstrap::{ceil_div, ceil_div_exec};
use super::superblock::{
    block_size_spec, inode_location_spec, parses_superblock, BlockGroupIndex, InodeNumber,
    LocalInodeIndex, OffsetBytes, Superblock, ROOT_DIRECTORY_INODE,
};

verus! {

/// The superblock is read as block 1 of 1024 bytes.
pub const SUPERBLOCK_BLOCK_SIZE: u16 = 1024;

/// Byte offset of the superblock's free inode count.
pub const SUPERBLOCK_FREE_INODES_OFFSET: usize = 16;

/// Byte offset of the superblock's mount count.
pub const SUPERBLOCK_MOUNT_COUNT_OFFSET: usize = 52;

/// Byte offset of a block group descriptor's free inode count.
pub const DESCRIPTOR_FREE_INODES_OFFSET: usize = 14;

/// The bytes of `len` bytes from `start` on.
pub open spec fn range_of(s: Seq<u8>, start: int, len: int) -> Seq<u8> {
    s.subrange(start, start + len)
}

/// Whether `i` is the inode a new regular file gets in the directory
/// `parent`: readable by all, writable by its owner, owned by the
/// directory's owner and group, one link, no data, every other field zero.
pub open spec fn is_new_file_inode(i: Inode, parent: Inode) -> bool {
    &&& i.mode.0 == 0x81A4
    &&& i.uid == parent.uid
    &&& i.gid == parent.gid
    &&& i.links_count == 1
    &&& i.size_low == 0 && i.size_high == 0
    &&& i.atime == 0 && i.ctime == 0 && i.mtime == 0 && i.dtime == 0
    &&& i.blocks == 0 && i.flags == 0 && i.osd1 == 0
    &&& forall|j: int| 0 <= j < 12 ==> (#[trigger] i.direct_blocks.0@[j]).0 == 0
    &&& i.singly_indirect_block.0 == 0 && i.doubly_indirect_block.0 == 0 && i.triply_indirect_block.0 == 0
    &&& i.generation == 0 && i.file_acl == 0 && i.faddr == 0
    &&& forall|j: int| 0 <= j < 12 ==> #[trigger] i.osd2@[j] == 0
}

/// The on-disk bytes of the inode a new regular file gets in the directory
/// `parent`: mode 0x81A4, the directory's owner and group, one link, and
/// zero everywhere else.
pub open spec fn new_file_image(parent: Inode) -> Seq<u8> {
    Seq::new(
        128,
        |k: int|
            if k == 0 {
                0xA4u8
            } else if k == 1 {
                0x81u8
            } else if k == 2 || k == 3 {
                byte16(parent.uid, k - 2)
            } else if k == 24 || k == 25 {
                byte16(parent.gid, k - 24)
            } else if k == 26 {
                1u8
            } else {
                0u8
            },
    )
}

/// The encoding of a new file's inode is `new_file_image`.
pub proof fn lemma_new_file_image(i: Inode, parent: Inode)
    requires
        is_new_file_inode(i, parent),
    ensures
        inode_image(i) == new_file_image(parent),
{
    assert forall|k: int| 0 <= k < 128 implies inode_image(i)[k] == new_file_image(parent)[k] by {
        if 40 <= k < 88 {
            assert(0 <= (k - 40) / 4 < 12);
            assert(i.direct_blocks.0@[(k - 40) / 4].0 == 0);
        }
        if k >= 116 {
            assert(i.osd2@[k - 116] == 0);
        }
    }
    assert(inode_image(i) =~= new_file_image(parent));
}

/// `bitmap` with entry `l` marked in use.
pub open spec fn with_entry_reserved(bitmap: Seq<u8>, l: int) -> Seq<u8> {
    bitmap.update(l / 8, bitmap[l / 8] | (1u8 << ((l % 8) as u8)))
}

/// In-memory representation of an ext2 file system, and main point of
/// interaction with it. It keeps the raw superblock and block group
/// descriptor blocks, so that writing them back to the disk is a copy.
pub struct FileSystem<D> {
    pub superblock: Superblock,
    pub superblock_buffer: BlockBuffer,
    pub block_group_descriptors_blocks: BlockBuffer,
    pub num_block_groups: usize,
    pub block_size: BlockSize,
    pub device: BlockDevice<D>,
}

impl<D: BlockDeviceDriver> FileSystem<D> {
    /// What the disk holds.
    pub open spec fn disk(&self) -> Seq<u8> {
        self.device.driver.contents()
    }

    /// Size of the device's own blocks.
    pub open spec fn sector(&self) -> int {
        self.device.driver.sector_size() as int
    }

    /// Size of the file system's blocks.
    pub open spec fn bs(&self) -> int {
        self.block_size.0 as int
    }

    /// The bytes of file system block `block` on the disk.
    pub open spec fn block_bytes(&self, block: int) -> Seq<u8> {
        range_of(self.disk(), block * self.bs(), self.bs())
    }

    /// Whether file system block `block` lies on the disk.
    pub open spec fn block_on_disk(&self, block: int) -> bool {
        block * self.bs() + self.bs() <= self.disk().len() && block * self.bs() + self.bs() <= u64::MAX
    }

    /// The descriptor bytes of block group `group`, as kept in memory.
    pub open spec fn descriptor_bytes(&self, group: int) -> Seq<u8> {
        range_of(self.block_group_descriptors_blocks.data@, group * 32, 32)
    }

    /// Whether the descriptor of block group `group` is kept in memory.
    pub open spec fn has_descriptor(&self, group: int) -> bool {
        0 <= group < self.num_block_groups && group * 32 + 32 <= self.block_group_descriptors_blocks.data@.len()
    }

    /// The block of the inode bitmap of block group `group`.
    pub open spec fn inode_bitmap_block_number(&self, group: int) -> int {
        le_u32(self.descriptor_bytes(group), 4) as int
    }

    /// The inode bitmap of block group `group`, as the disk holds it.
    pub open spec fn inode_bitmap(&self, group: int) -> Seq<bool> {
        pages_of(self.block_bytes(self.inode_bitmap_block_number(group)))
    }

    /// Byte offset of entry `local` of group `group`'s inode table in the
    /// table.
    pub open spec fn inode_table_offset(&self, local: int) -> int {
        self.superblock.inode_size * local
    }

    /// The block that holds entry `local` of group `group`'s inode table.
    pub open spec fn inode_block_index(&self, group: int, local: int) -> int {
        le_u32(self.descriptor_bytes(group), 8) + self.inode_table_offset(local) / self.bs()
    }

    /// Offset of entry `local` in its block of the inode table.
    pub open spec fn inode_block_offset(&self, local: int) -> int {
        self.inode_table_offset(local) % self.bs()
    }

    /// Whether entry `local` of group `group`'s inode table can be read and
    /// written: its block lies on the disk and holds all of it.
    pub open spec fn inode_slot_ok(&self, group: int, local: int) -> bool {
        &&& self.block_on_disk(self.inode_block_index(group, local))
        &&& self.inode_block_offset(local) + 128 <= self.bs()
    }

    /// Whether the file system is sound enough to be worked with: the
    /// buffers it keeps are what they were read as, its block size is one
    /// of those the superblock can name, and blocks are whole device blocks.
    pub open spec fn wf(&self) -> bool {
        let sb = self.superblock;
        &&& self.sector() > 0
        &&& (SUPERBLOCK_BLOCK_SIZE as int) % self.sector() == 0
        &&& self.bs() % self.sector() == 0
        &&& sb.log_block_size < 6
        &&& self.bs() == block_size_spec(sb.log_block_size)
        &&& sb.inode_size <= 0xFFFF
        &&& self.superblock_buffer.data@.len() == 1024
        &&& self.superblock_buffer.device_start_block.0 * self.sector() == 1024
        &&& parses_superblock(self.superblock_buffer.data@, sb)
        &&& 2048 <= self.disk().len()
        &&& (self.block_group_descriptors_blocks.data@.len() as int) % self.sector() == 0
        &&& self.block_group_descriptors_blocks.device_start_block.0 * self.sector()
            + self.block_group_descriptors_blocks.data@.len() <= self.disk().len()
        &&& self.disk().len() <= usize::MAX
    }

    /// The superblock that a disk holds at byte 1024.
    pub open spec fn superblock_on(contents: Seq<u8>) -> Seq<u8> {
        range_of(contents, 1024, 1024)
    }

    /// Whether the disk can be mounted without running off its end: where
    /// it holds a valid superblock, that superblock names a block size of
    /// whole device blocks, block groups of at least one block, a mount count
    /// that can be increased, and block group descriptor blocks on the disk.
    pub open spec fn mountable(device: &BlockDevice<D>) -> bool {
        let contents = device.driver.contents();
        let ss = device.driver.sector_size() as int;
        &&& ss > 0
        &&& 1024int % ss == 0
        &&& 2048 <= contents.len() <= usize::MAX
        &&& forall|sb: Superblock|
            parses_superblock(Self::superblock_on(contents), sb) && sb.magic == 0xEF53 ==> {
                let bs = block_size_spec(sb.log_block_size);
                let groups = ceil_div(sb.blocks_count as int, sb.blocks_per_group as int);
                let descriptor_blocks = ceil_div(groups, bs);
                &&& sb.log_block_size < 6
                &&& sb.blocks_per_group > 0
                &&& sb.mount_count < 0xFFFF
                &&& bs % ss == 0
                &&& (sb.first_data_block + 1 + descriptor_blocks) * bs <= contents.len()
            }
    }

    /// Mounts the file system on `device`: reads the superblock and the
    /// block group descriptors, and writes the superblock back with the
    /// mount count increased. `None` if the superblock's magic number is
    /// not ext2's.
    pub fn read(device: BlockDevice<D>) -> (r: Option<Self>)
        requires
            Self::mountable(&device),
        ensures
            ({
                let contents = device.driver.contents();
                let sb_bytes = Self::superblock_on(contents);
                match r {
                    None => le_u16(sb_bytes, 56) != 0xEF53,
                    Some(fs) => {
                        &&& le_u16(sb_bytes, 56) == 0xEF53
                        &&& fs.wf()
                        &&& fs.superblock.mount_count == le_u16(sb_bytes, 52) + 1
                        &&& fs.disk() == splice_bytes(
                            contents,
                            1024,
                            put_u16(sb_bytes, 52, (le_u16(sb_bytes, 52) + 1) as u16),
                        )
                        &&& fs.num_block_groups == ceil_div(
                            fs.superblock.blocks_count as int,
                            fs.superblock.blocks_per_group as int,
                        )
                        &&& fs.block_group_descriptors_blocks.data@ == range_of(
                            contents,
                            (fs.superblock.first_data_block + 1) * fs.bs(),
                            ceil_div(fs.num_block_groups as int, fs.bs()) * fs.bs(),
                        )
                    },
                }
            }),
    {
        let ghost contents = device.driver.contents();
        let ghost ss = device.driver.sector_size() as int;
        proof {
            lemma_whole_sectors(1024, ss, 1);
        }
        let mut superblock_buffer = device.read_blocks(BlockSize(SUPERBLOCK_BLOCK_SIZE), BlockIndex(1), 1);
        let mut superblock = Superblock::from_bytes(superblock_buffer.data.as_slice());
        assert(superblock_buffer.data@ =~= Self::superblock_on(contents));
        if !superblock.magic_valid() {
            return None;
        }
        proof {
            assert(parses_superblock(Self::superblock_on(contents), superblock));
            lemma_block_size_range(superblock.log_block_size);
        }
        let block_size = superblock.block_size_u16();
        let num_block_groups = superblock.num_block_groups();
        let num_descriptor_blocks = ceil_div_exec(num_block_groups, block_size.0 as usize);
        let descriptor_block_start = superblock.block_descriptor_table_start_block();
        proof {
            let bs = block_size.0 as int;
            let first = descriptor_block_start.0 as int;
            let n = num_descriptor_blocks as int;
            assert(ceil_div(num_block_groups as int, bs) <= num_block_groups) by (nonlinear_arith)
                requires
                    bs >= 1,
                    num_block_groups >= 0,
                    ceil_div(num_block_groups as int, bs) == (if num_block_groups as int % bs == 0 {
                        num_block_groups as int / bs
                    } else {
                        num_block_groups as int / bs + 1
                    }),
            ;
            lemma_whole_span(bs, ss, first, n);
        }
        let block_group_descriptors_blocks = device.read_blocks(
            block_size,
            descriptor_block_start,
            num_descriptor_blocks,
        );
        assert(block_group_descriptors_blocks.data@.len() == num_descriptor_blocks * (block_size.0 as int));

        // Increase the mount count and write the superblock back
        let mount_count = superblock.mount_count + 1;
        let ghost sb_before = superblock_buffer.data@;
        let ghost sb_old = superblock;
        write_u16_le(&mut superblock_buffer.data, SUPERBLOCK_MOUNT_COUNT_OFFSET, mount_count);
        superblock.mount_count = mount_count;
        proof {
            lemma_superblock_mount_update(sb_before, sb_old, superblock, mount_count);
        }
        let mut device = device;
        device.flush(&superblock_buffer);
        Some(
            FileSystem {
                superblock,
                superblock_buffer,
                block_group_descriptors_blocks,
                num_block_groups,
                block_size,
                device,
            },
        )
    }

    pub fn superblock(&self) -> (r: &Superblock)
        ensures
            *r == self.superblock,
    {
        &self.superblock
    }

    /// Offset of block group `index`'s descriptor in the descriptor blocks;
    /// `None` if there is no such group.
    pub fn block_group_descriptor_offset(&self, index: BlockGroupIndex) -> (r: Option<usize>)
        ensures
            r == (if (index.0 as int) < self.num_block_groups && index.0 * 32 <= usize::MAX {
                Some((index.0 * 32) as usize)
            } else {
                None
            }),
    {
        if index.0 as usize >= self.num_block_groups {
            return None;
        }
        if index.0 as usize > usize::MAX / 32 {
            return None;
        }
        Some(index.0 as usize * BlockGroupDescriptor::SIZE_BYTES)
    }

    /// Block group `index`'s descriptor; `None` if there is no such group.
    pub fn block_group_descriptor(&self, index: BlockGroupIndex) -> (r: Option<BlockGroupDescriptor>)
        requires
            (index.0 as int) < self.num_block_groups ==> self.has_descriptor(index.0 as int),
        ensures
            r is Some <==> (index.0 as int) < self.num_block_groups,
            r matches Some(d) ==> parses_block_group_descriptor(self.descriptor_bytes(index.0 as int), d),
    {
        let len = self.block_group_descriptors_blocks.data.len();
        let offset = self.block_group_descriptor_offset(index)?;
        let bytes = crate::ext2::directory::slice_subrange(
            self.block_group_descriptors_blocks.data.as_slice(),
            offset,
            offset + BlockGroupDescriptor::SIZE_BYTES,
        );
        Some(BlockGroupDescriptor::from_bytes(bytes))
    }

    /// Reads the inode bitmap block of a block group.
    fn inode_bitmap_block(&self, group: Ghost<int>, descriptor: &BlockGroupDescriptor) -> (r: BlockBuffer)
        requires
            self.wf(),
            self.has_descriptor(group@),
            parses_block_group_descriptor(self.descriptor_bytes(group@), *descriptor),
            self.block_on_disk(self.inode_bitmap_block_number(group@)),
        ensures
            r.data@ == self.block_bytes(self.inode_bitmap_block_number(group@)),
            r.device_start_block.0 * self.sector() == self.inode_bitmap_block_number(group@) * self.bs(),
    {
        let ghost ss = self.sector();
        let ghost bs = self.bs();
        let ghost b = descriptor.inode_bitmap.0 as int;
        proof {
            lemma_block_size_range(self.superblock.log_block_size);
            lemma_whole_sectors(bs, ss, b);
        }
        self.device.read_blocks(self.block_size, BlockIndex(descriptor.inode_bitmap.0 as u64), 1)
    }

    /// Reads the block of a group's inode table that holds entry `local`,
    /// and the entry's offset in it.
    fn inode_block(
        &self,
        group: Ghost<int>,
        descriptor: &BlockGroupDescriptor,
        local: LocalInodeIndex,
    ) -> (r: (BlockBuffer, OffsetBytes))
        requires
            self.wf(),
            self.has_descriptor(group@),
            parses_block_group_descriptor(self.descriptor_bytes(group@), *descriptor),
            self.inode_slot_ok(group@, local.0 as int),
        ensures
            r.0.data@ == self.block_bytes(self.inode_block_index(group@, local.0 as int)),
            r.0.device_start_block.0 * self.sector() == self.inode_block_index(group@, local.0 as int)
                * self.bs(),
            r.1.0 == self.inode_block_offset(local.0 as int),
    {
        let ghost ss = self.sector();
        let ghost bs = self.bs();
        proof {
            vstd::arithmetic::power2::lemma2_to64();
            lemma_block_size_range(self.superblock.log_block_size);
        }
        let (inode_block_index, inode_offset) = self.superblock.inode_block_and_offset(
            descriptor.inode_table,
            local,
        );
        proof {
            lemma_whole_sectors(bs, ss, inode_block_index.0 as int);
        }
        let buf = self.device.read_blocks(self.block_size, inode_block_index, 1);
        (buf, inode_offset)
    }

    /// Reads inode number `inode_number`: `None` if its block group does not
    /// exist, or the group's bitmap does not hold it or says it is not in use.
    pub fn read_inode(&self, inode_number: InodeNumber) -> (r: Option<Inode>)
        requires
            self.wf(),
            self.superblock.inodes_per_group > 0,
            inode_number.0 >= 1,
            ({
                let (group, local) = inode_location_spec(
                    self.superblock.inodes_per_group as int,
                    inode_number.0 as int,
                );
                group < self.num_block_groups ==> {
                    &&& self.has_descriptor(group)
                    &&& self.block_on_disk(self.inode_bitmap_block_number(group))
                    &&& (local < self.inode_bitmap(group).len() && self.inode_bitmap(group)[local])
                        ==> self.inode_slot_ok(group, local)
                }
            }),
        ensures
            ({
                let (group, local) = inode_location_spec(
                    self.superblock.inodes_per_group as int,
                    inode_number.0 as int,
                );
                &&& r is Some <==> (group < self.num_block_groups && local < self.inode_bitmap(group).len()
                    && self.inode_bitmap(group)[local])
                &&& r matches Some(inode) ==> parses_inode(
                    range_of(
                        self.block_bytes(self.inode_block_index(group, local)),
                        self.inode_block_offset(local),
                        128,
                    ),
                    inode,
                )
            }),
    {
        let (block_group_index, local_inode_index) = self.superblock.inode_location(inode_number);
        let ghost group = block_group_index.0 as int;
        let block_group_descriptor = self.block_group_descriptor(block_group_index)?;
        let inode_bitmap_block = self.inode_bitmap_block(Ghost(group), &block_group_descriptor);
        let inode_bitmap = InodeBitmap::new(inode_bitmap_block.data);
        let inode_used = inode_bitmap.is_used(local_inode_index)?;
        if !inode_used {
            return None;
        }
        let (inode_block, inode_offset) = self.inode_block(
            Ghost(group),
            &block_group_descriptor,
            local_inode_index,
        );
        let off = inode_offset.0 as usize;
        let bytes = crate::ext2::directory::slice_subrange(inode_block.data.as_slice(), off, off + Inode::SIZE_BYTES);
        Some(Inode::from_bytes(bytes))
    }

    /// Reads the root directory's inode, which is always inode 2.
    pub fn read_root(&self) -> (r: (Inode, InodeNumber))
        requires
            self.wf(),
            self.superblock.inodes_per_group > 0,
            ({
                let (group, local) = inode_location_spec(self.superblock.inodes_per_group as int, 2);
                &&& group < self.num_block_groups
                &&& self.has_descriptor(group)
                &&& self.block_on_disk(self.inode_bitmap_block_number(group))
                &&& local < self.inode_bitmap(group).len() && self.inode_bitmap(group)[local]
                &&& self.inode_slot_ok(group, local)
            }),
        ensures
            r.1.0 == ROOT_DIRECTORY_INODE,
            ({
                let (group, local) = inode_location_spec(self.superblock.inodes_per_group as int, 2);
                parses_inode(
                    range_of(
                        self.block_bytes(self.inode_block_index(group, local)),
                        self.inode_block_offset(local),
                        128,
                    ),
                    r.0,
                )
            }),
    {
        match self.read_inode(InodeNumber(ROOT_DIRECTORY_INODE)) {
            Some(inode) => (inode, InodeNumber(ROOT_DIRECTORY_INODE)),
            None => vstd::pervasive::unreached(),
        }
    }

    /// Size of the inode's data in bytes. Revision 0 only has 32-bit sizes.
    pub fn inode_size(&self, inode: &Inode) -> (r: u64)
        ensures
            r == (if self.superblock.rev_level == 0 {
                inode.size_low as int
            } else {
                inode.size_high * 0x1_0000_0000 + inode.size_low
            }),
    {
        self.superblock.inode_size(inode)
    }

    /// The block group that holds inode `n`.
    pub open spec fn group_of(&self, n: int) -> int {
        inode_location_spec(self.superblock.inodes_per_group as int, n).0
    }

    /// Where a new file in the directory with inode `parent_number` would go:
    /// the first free entry of that directory's block group, if the group
    /// exists and has one.
    pub open spec fn new_file_slot(&self, parent_number: int) -> Option<int> {
        let g = self.group_of(parent_number);
        if g < self.num_block_groups && exists|l: int| is_first_free(self.inode_bitmap(g), l) {
            Some(choose|l: int| is_first_free(self.inode_bitmap(g), l))
        } else {
            None
        }
    }

    /// Free inode count of block group `g`, as kept in memory.
    pub open spec fn group_free_inodes(&self, g: int) -> int {
        le_u16(self.block_group_descriptors_blocks.data@, g * 32 + 14) as int
    }

    /// What the disk holds after a new file's inode went into entry `l` of
    /// block group `g`: the entry marked in use in the group's inode bitmap,
    /// the new inode written into the inode table, then the descriptor blocks
    /// and the superblock written back with one free inode less, in that
    /// order.
    pub open spec fn disk_with_new_file(&self, g: int, l: int, parent: Inode) -> Seq<u8> {
        let bs = self.bs();
        let bm = self.inode_bitmap_block_number(g);
        let d1 = splice_bytes(self.disk(), bm * bs, with_entry_reserved(self.block_bytes(bm), l));
        let ib = self.inode_block_index(g, l);
        let d2 = splice_bytes(
            d1,
            ib * bs,
            splice_bytes(range_of(d1, ib * bs, bs), self.inode_block_offset(l), new_file_image(parent)),
        );
        let descriptors = self.block_group_descriptors_blocks;
        let d3 = splice_bytes(
            d2,
            descriptors.device_start_block.0 * self.sector(),
            put_u16(descriptors.data@, g * 32 + 14, (self.group_free_inodes(g) - 1) as u16),
        );
        splice_bytes(
            d3,
            1024,
            put_u32(
                self.superblock_buffer.data@,
                16,
                (self.superblock.free_inodes_count - 1) as u32,
            ),
        )
    }

    /// Whether a new file in the directory with inode `parent_number` can be
    /// made without running off the disk or below zero free inodes.
    pub open spec fn can_create_in(&self, parent_number: int) -> bool {
        let g = self.group_of(parent_number);
        g < self.num_block_groups ==> {
            &&& self.has_descriptor(g)
            &&& self.block_on_disk(self.inode_bitmap_block_number(g))
            &&& self.new_file_slot(parent_number) matches Some(l) ==> {
                &&& self.inode_slot_ok(g, l)
                &&& self.group_free_inodes(g) > 0
                &&& self.superblock.free_inodes_count > 0
            }
        }
    }

    /// Makes a new regular file in the directory `parent`: reserves the first
    /// free inode of the directory's block group, writes the new inode into
    /// the group's inode table, and counts one free inode less in the group
    /// and the superblock. The entry in the directory is not made, and no
    /// inode is returned.
    pub fn create_file(&mut self, parent: &Inode, parent_number: InodeNumber, name: &str) -> (r: Option<(Inode, InodeNumber)>)
        requires
            old(self).wf(),
            old(self).superblock.inodes_per_group > 0,
            parent.is_dir_spec(),
            parent_number.0 >= 1,
            old(self).can_create_in(parent_number.0 as int),
        ensures
            r is None,
            final(self).wf(),
            match old(self).new_file_slot(parent_number.0 as int) {
                None => *final(self) == *old(self),
                Some(l) => {
                    let g = old(self).group_of(parent_number.0 as int);
                    &&& final(self).disk() == old(self).disk_with_new_file(g, l, *parent)
                    &&& final(self).superblock.free_inodes_count == old(self).superblock.free_inodes_count - 1
                    &&& final(self).group_free_inodes(g) == old(self).group_free_inodes(g) - 1
                },
            },
    {
        let ghost old_fs = *self;
        // Reserve inode number in parent's block group by finding free entry in bitmap
        let (block_group_index, _) = self.superblock.inode_location(parent_number);
        let ghost g = block_group_index.0 as int;
        let block_group_descriptor = match self.block_group_descriptor(block_group_index) {
            Some(d) => d,
            None => return None,
        };
        let inode_bitmap_block = self.inode_bitmap_block(Ghost(g), &block_group_descriptor);
        let device_start_block = inode_bitmap_block.device_start_block;
        let ghost bitmap_before = inode_bitmap_block.data@;
        let mut inode_bitmap = InodeBitmap::new(inode_bitmap_block.data);
        proof {
            lemma_block_size_range(self.superblock.log_block_size);
        }
        let local_inode_index = match inode_bitmap.reserve_next_free() {
            Some(l) => l,
            None => {
                proof {
                    assert(!exists|l: int| is_first_free(old_fs.inode_bitmap(g), l));
                }
                return None;
            },
        };
        let ghost l = local_inode_index.0 as int;
        proof {
            assert(pages_of(bitmap_before) == old_fs.inode_bitmap(g));
            assert(is_first_free(old_fs.inode_bitmap(g), l));
            let chosen = choose|k: int| is_first_free(old_fs.inode_bitmap(g), k);
            lemma_first_free_unique(old_fs.inode_bitmap(g), chosen, l);
            assert(old_fs.new_file_slot(parent_number.0 as int) == Some(l));
            lemma_reserved_bytes(bitmap_before, inode_bitmap.0.0@, l);
        }
        let bitmap_buffer = BlockBuffer { device_start_block, data: inode_bitmap.0.0 };
        self.device.flush(&bitmap_buffer);

        // Add inode entry to block group's inode table
        let inode = Self::new_file_inode(parent);
        let (mut inode_block, inode_offset) = self.inode_block(Ghost(g), &block_group_descriptor, local_inode_index);
        inode.write_to(&mut inode_block.data, inode_offset.0 as usize);
        proof {
            lemma_new_file_image(inode, *parent);
        }
        self.device.flush(&inode_block);

        // Adjust block group statistics
        let offset = (block_group_index.0 as usize) * 32 + DESCRIPTOR_FREE_INODES_OFFSET;
        let free_in_group = crate::bytes::read_u16_le(self.block_group_descriptors_blocks.data.as_slice(), offset);
        write_u16_le(&mut self.block_group_descriptors_blocks.data, offset, free_in_group - 1);
        self.device.flush(&self.block_group_descriptors_blocks);

        // Adjust superblock statistics
        let free_inodes = self.superblock.free_inodes_count - 1;
        let ghost sb_buffer_before = self.superblock_buffer.data@;
        write_u32_le(&mut self.superblock_buffer.data, SUPERBLOCK_FREE_INODES_OFFSET, free_inodes);
        self.superblock.free_inodes_count = free_inodes;
        proof {
            lemma_put_u32(sb_buffer_before, 16, free_inodes);
            lemma_superblock_count_update(sb_buffer_before, old_fs.superblock, self.superblock, free_inodes);
        }
        self.device.flush(&self.superblock_buffer);
        None
    }

    /// Size of an inode's data, as `inode_size` computes it.
    pub open spec fn inode_size_spec(&self, inode: Inode) -> int {
        if self.superblock.rev_level == 0 {
            inode.size_low as int
        } else {
            inode.size_high * 0x1_0000_0000 + inode.size_low
        }
    }

    /// Appends `data` to the inode's last direct block, after the byte one
    /// past the end of the data that the block already holds. Nothing is
    /// written if the inode has no block, or if the data does not fit in the
    /// rest of the block (no new blocks are added).
    #[verifier::rlimit(50)]
    pub fn append_to_inode_data(&mut self, inode: &Inode, data: &[u8])
        requires
            old(self).wf(),
            direct_blocks_from(inode.direct_blocks.0@, 0).len() > 0 ==> old(self).block_on_disk(
                direct_blocks_from(inode.direct_blocks.0@, 0).last().0 as int,
            ),
        ensures
            ({
                let blocks = direct_blocks_from(inode.direct_blocks.0@, 0);
                let start = old(self).inode_size_spec(*inode) % old(self).bs() + 1;
                if blocks.len() > 0 && start + data@.len() <= old(self).bs() {
                    let last = blocks.last().0 as int;
                    &&& final(self).disk() == splice_bytes(
                        old(self).disk(),
                        last * old(self).bs(),
                        splice_bytes(old(self).block_bytes(last), start, data@),
                    )
                    &&& final(self).wf()
                    &&& final(self).superblock == old(self).superblock
                } else {
                    *final(self) == *old(self)
                }
            }),
    {
        let direct_blocks = inode.direct_blocks;
        let blocks = direct_blocks.blocks();
        if blocks.len() == 0 {
            return;
        }
        let last_block = blocks[blocks.len() - 1];
        let ghost ss = self.sector();
        let ghost bs = self.bs();
        proof {
            lemma_block_size_range(self.superblock.log_block_size);
            lemma_whole_sectors(bs, ss, last_block.0 as int);
        }
        let block_size = self.block_size.0 as u64;
        let mut index_in_block = self.inode_size(inode) % block_size + 1;
        let mut block_buf = self.device.read_blocks(self.block_size, BlockIndex(last_block.0 as u64), 1);
        let ghost start = index_in_block as int;
        let ghost before = block_buf.data@;
        let ghost device_start = block_buf.device_start_block;
        let mut i: usize = 0;
        while i < data.len()
            invariant
                *self == *old(self),
                bs == old(self).bs(),
                start == old(self).inode_size_spec(*inode) % old(self).bs() + 1,
                direct_blocks_from(inode.direct_blocks.0@, 0).len() > 0,
                block_buf.device_start_block == device_start,
                i <= data@.len(),
                index_in_block == start + i,
                start <= bs,
                start + i <= bs,
                block_buf.data@.len() == bs,
                before.len() == bs,
                bs <= 32768,
                forall|j: int| 0 <= j < bs && (j < start || j >= start + i) ==> block_buf.data@[j] == before[j],
                forall|j: int| 0 <= j < i ==> block_buf.data@[start + j] == data@[j],
            decreases data@.len() - i,
        {
            if index_in_block >= block_buf.data.len() as u64 {
                // Ran out of space in the block; adding new blocks is not done.
                assert(start + data@.len() > bs);
                return;
            }
            assert(index_in_block as usize == start + i);
            let ghost prev = block_buf.data@;
            block_buf.data.set(index_in_block as usize, data[i]);
            assert(block_buf.data@ == prev.update(start + i, data@[i as int]));
            index_in_block += 1;
            i += 1;
            assert forall|j: int| 0 <= j < i implies block_buf.data@[start + j] == data@[j] by {
                if j < i - 1 {
                    assert(prev[start + j] == data@[j]);
                }
            }
        }
        assert(block_buf.data@ =~= splice_bytes(before, start, data@));
        self.device.flush(&block_buf);
    }

    /// The inode a new regular file gets in the directory `parent`.
    pub fn new_file_inode(parent: &Inode) -> (r: Inode)
        ensures
            is_new_file_inode(r, *parent),
    {
        let mode: u16 = InodeMode::IROTH | InodeMode::IRGRP | InodeMode::IWUSR | InodeMode::IRUSR
            | InodeMode::IFREG;
        assert(mode == 0x81A4) by (bit_vector)
            requires
                mode == 0x004u16 | 0x020u16 | 0x080u16 | 0x100u16 | 0x8000u16,
        ;
        Inode {
            mode: InodeMode(mode),
            uid: parent.uid,
            size_low: 0,
            atime: 0,
            ctime: 0,
            mtime: 0,
            dtime: 0,
            gid: parent.gid,
            links_count: 1,
            blocks: 0,
            flags: 0,
            osd1: 0,
            direct_blocks: InodeDirectBlocks([BlockAddress(0); 12]),
            singly_indirect_block: BlockAddress(0),
            doubly_indirect_block: BlockAddress(0),
            triply_indirect_block: BlockAddress(0),
            generation: 0,
            file_acl: 0,
            size_high: 0,
            faddr: 0,
            osd2: [0u8; 12],
        }
    }
}

/// A block of a whole number of device blocks starts at a device block,
/// and reading it reads exactly its bytes.
proof fn lemma_whole_sectors(bs: int, ss: int, block: int)
    requires
        ss > 0,
        bs % ss == 0,
        bs > 0,
        block >= 0,
    ensures
        block * (bs / ss) * ss == block * bs,
        (bs + ss - 1) / ss == bs / ss,
        (block * (bs / ss) + 1 * ((bs + ss - 1) / ss)) * ss == block * bs + bs,
        block * (bs / ss) + 1 * ((bs + ss - 1) / ss) <= block * bs + bs,
        1 * ((bs + ss - 1) / ss) <= bs,
{
    assert(bs == (bs / ss) * ss) by (nonlinear_arith)
        requires
            bs % ss == 0,
            ss > 0,
    ;
    assert((bs + ss - 1) / ss == bs / ss) by (nonlinear_arith)
        requires
            bs == (bs / ss) * ss,
            ss > 0,
    ;
    assert(block * (bs / ss) * ss == block * bs) by (nonlinear_arith)
        requires
            bs == (bs / ss) * ss,
    ;
    assert((block * (bs / ss) + (bs / ss)) * ss == block * bs + bs) by (nonlinear_arith)
        requires
            bs == (bs / ss) * ss,
    ;
    assert(bs / ss <= bs && block * (bs / ss) <= block * bs) by (nonlinear_arith)
        requires
            bs > 0,
            ss > 0,
            block >= 0,
    ;
}

proof fn lemma_block_size_range(log_block_size: u32)
    requires
        log_block_size < 6,
    ensures
        1024 <= block_size_spec(log_block_size) <= 32768,
        block_size_spec(log_block_size) <= u16::MAX,
{
    vstd::arithmetic::power2::lemma2_to64();
    if log_block_size == 0 {
    } else if log_block_size == 1 {
    } else if log_block_size == 2 {
    } else if log_block_size == 3 {
    } else if log_block_size == 4 {
    } else {
    }
}

/// The bitmap bytes after reserving entry `l` are `with_entry_reserved`.
proof fn lemma_reserved_bytes(before: Seq<u8>, after: Seq<u8>, l: int)
    requires
        0 <= l < pages_of(before).len(),
        pages_of(after) == pages_of(before).update(l, true),
    ensures
        after == with_entry_reserved(before, l),
{
    assert(after.len() == before.len()) by {
        assert(pages_of(after).len() == pages_of(before).len());
    }
    lemma_page_position(l, 8);
    crate::bitmap_alloc::chunk::lemma_page_in_chunks(l, before.len() as int, 8);
    let i = l / 8;
    let bit = (l % 8) as u8;
    let old_byte = before[i];
    let new_byte: u8 = old_byte | (1u8 << bit);
    assert forall|j: nat| j < 8 implies #[trigger] u8_bit(new_byte, j) == (j == bit || u8_bit(old_byte, j)) by {
        let jj = j as u8;
        assert(((new_byte >> jj) & 1u8 == 1u8) == (jj == bit || (old_byte >> jj) & 1u8 == 1u8)) by (bit_vector)
            requires
                bit < 8,
                jj < 8,
                new_byte == old_byte | (1u8 << bit),
        ;
    }
    lemma_pages_of_update(before, i, new_byte);
    let expected = with_entry_reserved(before, l);
    assert forall|p: int| 0 <= p < pages_of(before).len() implies #[trigger] pages_of(expected)[p] == pages_of(
        after,
    )[p] by {
        lemma_page_position(p, 8);
        if p / 8 == i {
            if p == l {
            } else {
                assert(p % 8 != l % 8);
            }
        }
    }
    assert(pages_of(expected) =~= pages_of(after));
    lemma_pages_of_injective(expected, after);
}

/// Writing a new free inode count into the superblock's bytes leaves every
/// other field as it was.
proof fn lemma_superblock_count_update(before: Seq<u8>, sb: Superblock, new_sb: Superblock, count: u32)
    requires
        before.len() == 1024,
        parses_superblock(before, sb),
        new_sb == (Superblock { free_inodes_count: count, ..sb }),
    ensures
        parses_superblock(put_u32(before, 16, count), new_sb),
{
    lemma_put_u32(before, 16, count);
    let after = put_u32(before, 16, count);
    assert(after.subrange(104, 120) =~= before.subrange(104, 120));
    assert(after.subrange(120, 136) =~= before.subrange(120, 136));
    assert(after.subrange(136, 200) =~= before.subrange(136, 200));
    assert(after.subrange(208, 224) =~= before.subrange(208, 224));
    assert(after.subrange(253, 256) =~= before.subrange(253, 256));
}

/// A bitmap has at most one first free entry.
proof fn lemma_first_free_unique(v: Seq<bool>, a: int, b: int)
    requires
        is_first_free(v, a),
        is_first_free(v, b),
    ensures
        a == b,
{
    if a < b {
        assert(v[a]);
    } else if b < a {
        assert(v[b]);
    }
}

/// Writing a new mount count into the superblock's bytes leaves every other
/// field as it was.
proof fn lemma_superblock_mount_update(before: Seq<u8>, sb: Superblock, new_sb: Superblock, count: u16)
    requires
        before.len() == 1024,
        parses_superblock(before, sb),
        new_sb == (Superblock { mount_count: count, ..sb }),
    ensures
        parses_superblock(put_u16(before, 52, count), new_sb),
{
    lemma_put_u16(before, 52, count);
    let after = put_u16(before, 52, count);
    assert(after.subrange(104, 120) =~= before.subrange(104, 120));
    assert(after.subrange(120, 136) =~= before.subrange(120, 136));
    assert(after.subrange(136, 200) =~= before.subrange(136, 200));
    assert(after.subrange(208, 224) =~= before.subrange(208, 224));
    assert(after.subrange(253, 256) =~= before.subrange(253, 256));
}

/// Reading `n` blocks of `bs` bytes from block `first` on reads exactly
/// their bytes, as whole device blocks.
proof fn lemma_whole_span(bs: int, ss: int, first: int, n: int)
    requires
        ss > 0,
        bs % ss == 0,
        bs > 0,
        first >= 0,
        n >= 0,
    ensures
        first * (bs / ss) * ss == first * bs,
        (first * (bs / ss) + n * ((bs + ss - 1) / ss)) * ss == (first + n) * bs,
        first * (bs / ss) + n * ((bs + ss - 1) / ss) <= (first + n) * bs,
        n * ((bs + ss - 1) / ss) <= n * bs,
        n * ((bs + ss - 1) / ss) * ss == n * bs,
        (first + n) * bs == first * bs + n * bs,
        (n * bs) % ss == 0,
{
    lemma_whole_sectors(bs, ss, first);
    assert(bs == (bs / ss) * ss) by (nonlinear_arith)
        requires
            bs % ss == 0,
            ss > 0,
    ;
    assert((first * (bs / ss) + n * (bs / ss)) * ss == (first + n) * bs) by (nonlinear_arith)
        requires
            bs == (bs / ss) * ss,
    ;
    assert(bs / ss <= bs && n * (bs / ss) <= n * bs && first * (bs / ss) <= first * bs) by (nonlinear_arith)
        requires
            bs > 0,
            ss > 0,
            n >= 0,
            first >= 0,
    ;
    assert((first + n) * bs == first * bs + n * bs) by (nonlinear_arith);
    assert(n * (bs / ss) * ss == n * bs) by (nonlinear_arith)
        requires
            bs == (bs / ss) * ss,
    ;
    assert((n * bs) % ss == 0) by (nonlinear_arith)
        requires
            bs == (bs / ss) * ss,
            ss > 0,
    {
        vstd::arithmetic::div_mod::lemma_mod_multiples_basic(n * (bs / ss), ss);
    }
}

} // verus!
