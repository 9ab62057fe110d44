//! Reading an ext2 file system through a device that reads bytes by address.

use vstd::prelude::*;

use crate::bitmap_alloc::chunk::{pages_of, BitChunk};
use crate::bytes::{le_u16, le_u32};
use super::block_group::BlockGroupDescriptor;
use super::directory::{chain_offsets, dir_chain_ok, parses_entry, DirectoryBlock, DirectoryEntry};
use super::inode::{direct_blocks_from, parses_inode, BlockAddress, Inode};
use super::superblock::{
    block_size_spec, inode_location_spec, parses_superblock, InodeNumber, LocalInodeIndex, OffsetBytes,
    Superblock,
};

verus! {

/// Something that knows how to read blocks from the disk backing the
/// filesystem.
pub trait BlockReader {
    /// The byte the disk holds at address `addr`.
    spec fn byte_at(&self, addr: int) -> u8;

    /// The reads made so far, in order: each its address and length.
    spec fn reads(&self) -> Seq<(int, int)>;

    /// Reads `num_bytes` bytes starting at byte address `addr`. Reading
    /// leaves what the disk holds unchanged.
    fn read_num_bytes(&mut self, addr: OffsetBytes, num_bytes: usize) -> (r: Vec<u8>)
        ensures
            r@.len() == num_bytes,
            forall|i: int| 0 <= i < num_bytes ==> #[trigger] r@[i] == old(self).byte_at(addr.0 + i),
            forall|a: int| #[trigger] final(self).byte_at(a) == old(self).byte_at(a),
            final(self).reads() == old(self).reads().push((addr.0 as int, num_bytes as int)),
    ;
}

/// The `n` bytes the reader's disk holds from address `addr` on.
pub open spec fn disk_bytes<R: BlockReader>(reader: &R, addr: int, n: int) -> Seq<u8> {
    Seq::new(n as nat, |i: int| reader.byte_at(addr + i))
}

/// Whether `func` was called with the directory entry at `off` of `block`.
pub open spec fn called_with_entry<F: Fn(DirectoryEntry)>(func: F, block: Seq<u8>, off: int) -> bool {
    exists|e: DirectoryEntry| parses_entry(block, off, e) && #[trigger] call_ensures(func, (e,), ())
}

/// A disk image held in memory. Addresses past its end read as zero.
pub struct MemoryBlockReader {
    pub bytes: Vec<u8>,
    /// The reads made so far.
    pub log: Ghost<Seq<(int, int)>>,
}

impl MemoryBlockReader {
    /// A reader of the disk image `bytes`, with no reads made yet.
    pub fn new(bytes: Vec<u8>) -> (r: MemoryBlockReader)
        ensures
            r.bytes@ == bytes@,
            r.log@ == Seq::<(int, int)>::empty(),
    {
        MemoryBlockReader { bytes, log: Ghost(Seq::empty()) }
    }
}

impl BlockReader for MemoryBlockReader {
    open spec fn byte_at(&self, addr: int) -> u8 {
        if 0 <= addr < self.bytes@.len() {
            self.bytes@[addr]
        } else {
            0
        }
    }

    open spec fn reads(&self) -> Seq<(int, int)> {
        self.log@
    }

    fn read_num_bytes(&mut self, addr: OffsetBytes, num_bytes: usize) -> (r: Vec<u8>) {
        let mut r: Vec<u8> = Vec::new();
        let mut i: usize = 0;
        while i < num_bytes
            invariant
                i <= num_bytes,
                r@.len() == i,
                forall|j: int| 0 <= j < i ==> #[trigger] r@[j] == self.byte_at(addr.0 + j),
            decreases num_bytes - i,
        {
            let in_range = addr.0 < self.bytes.len() as u64 && (i as u64) < self.bytes.len() as u64
                - addr.0;
            let b = if in_range {
                self.bytes[(addr.0 + i as u64) as usize]
            } else {
                0
            };
            r.push(b);
            i += 1;
        }
        self.log = Ghost(self.log@.push((addr.0 as int, num_bytes as int)));
        r
    }
}

pub struct FilesystemReader<R> {
    superblock: Superblock,
    block_reader: R,
}

/// The block size of a file system whose superblock is `sb`.
pub open spec fn fs_block_size(sb: Superblock) -> int {
    block_size_spec(sb.log_block_size)
}

/// Where the inode number `n` sits: the byte address of its block group's
/// descriptor, of the group's inode bitmap, the index in the group, and the
/// byte address of the inode in the group's inode table.
pub open spec fn bgd_address(sb: Superblock, n: int) -> int {
    (sb.first_data_block + 1) * fs_block_size(sb) + inode_location_spec(sb.inodes_per_group as int, n).0
        * 32
}

impl<R: BlockReader> FilesystemReader<R> {
    /// The superblock the file system was read with.
    pub closed spec fn superblock_spec(&self) -> Superblock {
        self.superblock
    }

    /// The reads made so far on the block reader.
    pub closed spec fn reads(&self) -> Seq<(int, int)> {
        self.block_reader.reads()
    }

    /// The byte the file system's disk holds at `addr`.
    pub closed spec fn disk(&self, addr: int) -> u8 {
        self.block_reader.byte_at(addr)
    }

    /// The `n` bytes the file system's disk holds from `addr` on.
    pub open spec fn disk_range(&self, addr: int, n: int) -> Seq<u8> {
        Seq::new(n as nat, |i: int| self.disk(addr + i))
    }

    /// The descriptor bytes of the block group holding inode `n`.
    pub open spec fn descriptor_bytes(&self, n: int) -> Seq<u8> {
        self.disk_range(bgd_address(self.superblock_spec(), n), 32)
    }

    /// The inode bitmap of the block group holding inode `n`.
    pub open spec fn inode_bitmap_bytes(&self, n: int) -> Seq<u8> {
        let sb = self.superblock_spec();
        self.disk_range(
            le_u32(self.descriptor_bytes(n), 4) * fs_block_size(sb),
            fs_block_size(sb),
        )
    }

    /// Whether inode `n` is marked in use in its group's inode bitmap.
    pub open spec fn inode_in_use(&self, n: int) -> bool {
        let local = inode_location_spec(self.superblock_spec().inodes_per_group as int, n).1;
        let bitmap = pages_of(self.inode_bitmap_bytes(n));
        local < bitmap.len() && bitmap[local]
    }

    /// The byte address of inode `n` in its group's inode table.
    pub open spec fn inode_address(&self, n: int) -> int {
        let sb = self.superblock_spec();
        let local = inode_location_spec(sb.inodes_per_group as int, n).1;
        let byte_offset = sb.inode_size * local;
        let bs = fs_block_size(sb);
        (le_u32(self.descriptor_bytes(n), 8) + byte_offset / bs) * bs + byte_offset % bs
    }

    /// Whether the superblock's geometry lets inodes be located: a positive
    /// number of inodes per group and a block size of 1 KiB to 32 KiB.
    pub open spec fn geometry_ok(&self) -> bool {
        let sb = self.superblock_spec();
        &&& sb.inodes_per_group > 0
        &&& sb.log_block_size <= 5
    }

    /// The reader's calls keep its superblock and disk, one call after
    /// another: what `read` found stays what `superblock` gives, whatever
    /// sequence of `read_inode`, `read_root`, `read_directory`,
    /// `directory_readable` and `iter_directory` calls follows.
    pub proof fn lemma_same_disk_chains(a: &Self, b: &Self, c: &Self)
        requires
            b.same_disk(a),
            c.same_disk(b),
        ensures
            c.same_disk(a),
            c.superblock_spec() == a.superblock_spec(),
    {
    }

    /// The reader keeps its superblock and disk over any sequence of calls:
    /// where each state in `states` comes from the one before it by a call
    /// that keeps the disk (`read_inode`, `read_root`, `read_directory`,
    /// `directory_readable`, `iter_directory`), the last state has the disk
    /// and superblock of the first, and so still the magic number that
    /// `read` checked.
    pub proof fn lemma_same_disk_sequence(states: Seq<Self>)
        requires
            states.len() > 0,
            forall|i: int| 0 <= i < states.len() - 1 ==> #[trigger] states[i + 1].same_disk(&states[i]),
        ensures
            states.last().same_disk(&states[0]),
            states.last().superblock_spec() == states[0].superblock_spec(),
            states[0].superblock_spec().magic == 0xEF53 ==> states.last().superblock_spec().magic == 0xEF53,
        decreases states.len(),
    {
        if states.len() > 1 {
            let init = states.drop_last();
            assert forall|i: int| 0 <= i < init.len() - 1 implies #[trigger] init[i + 1].same_disk(&init[i]) by {
                assert(init[i + 1] == states[i + 1] && init[i] == states[i]);
                assert(states[i + 1].same_disk(&states[i]));
            }
            Self::lemma_same_disk_sequence(init);
            let j = states.len() - 2;
            assert(states[j + 1].same_disk(&states[j]));
            assert(states[j + 1] == states.last() && states[j] == init.last());
            Self::lemma_same_disk_chains(&states[0], &init.last(), &states.last());
        } else {
            assert(states.last() == states[0]);
        }
    }

    /// Whether reading leaves the disk and superblock as they were.
    pub open spec fn same_disk(&self, other: &Self) -> bool {
        &&& self.superblock_spec() == other.superblock_spec()
        &&& forall|a: int| #[trigger] self.disk(a) == other.disk(a)
    }

    /// Reads the superblock: one read of its 264 bytes at byte 1024.
    /// `None` if its magic number is not ext2's.
    pub fn read(block_reader: R) -> (r: Option<Self>)
        ensures
            match r {
                Some(fs) => {
                    &&& fs.reads() == block_reader.reads().push((1024, 264))
                    &&& parses_superblock(disk_bytes(&block_reader, 1024, 264), fs.superblock_spec())
                    &&& fs.superblock_spec().magic == 0xEF53
                    &&& forall|a: int| #[trigger] fs.disk(a) == block_reader.byte_at(a)
                },
                None => le_u16(disk_bytes(&block_reader, 1024, 264), 56) != 0xEF53,
            },
    {
        let ghost given = block_reader;
        let mut block_reader = block_reader;
        let bytes = block_reader.read_num_bytes(OffsetBytes(Superblock::OFFSET_BYTES as u64), Superblock::SIZE_BYTES);
        assert(bytes@ =~= disk_bytes(&given, 1024, 264));
        let superblock = Superblock::from_bytes(bytes.as_slice());
        if !superblock.magic_valid() {
            return None;
        }
        Some(Self { superblock, block_reader })
    }

    pub fn superblock(&self) -> (r: &Superblock)
        ensures
            *r == self.superblock_spec(),
    {
        &self.superblock
    }

    /// Reads inode number `n`: `None` if the inode is not in use, or lies
    /// past the end of its group's inode bitmap.
    pub fn read_inode(&mut self, inode_number: InodeNumber) -> (r: Option<Inode>)
        requires
            old(self).geometry_ok(),
            inode_number.0 >= 1,
        ensures
            final(self).same_disk(old(self)),
            r is Some <==> old(self).inode_in_use(inode_number.0 as int),
            r matches Some(inode) ==> parses_inode(
                old(self).disk_range(old(self).inode_address(inode_number.0 as int), 128),
                inode,
            ),
    {
        let ghost n = inode_number.0 as int;
        let ghost sb = self.superblock;
        proof {
            vstd::arithmetic::power2::lemma2_to64();
            assert(1024 <= fs_block_size(sb) <= 32768) by {
                if sb.log_block_size == 0 {} else if sb.log_block_size == 1 {} else if sb.log_block_size == 2 {}
                else if sb.log_block_size == 3 {} else if sb.log_block_size == 4 {} else {}
            }
        }
        let (block_group_index, local_inode_index) = self.superblock.inode_location(inode_number);
        let block_size = self.superblock.block_size_u16().0 as u64;
        let table_start = self.superblock.block_descriptor_table_start_block().0;
        proof {
            assert(table_start * block_size <= 0x1_0000_0000 * 0x8000) by (nonlinear_arith)
                requires
                    table_start <= 0x1_0000_0000,
                    block_size <= 0x8000,
            ;
        }
        let block_group_offset = OffsetBytes(
            table_start * block_size + block_group_index.0 as u64 * BlockGroupDescriptor::SIZE_BYTES as u64,
        );
        let descriptor_bytes = self.block_reader.read_num_bytes(
            block_group_offset,
            BlockGroupDescriptor::SIZE_BYTES,
        );
        assert(descriptor_bytes@ =~= old(self).descriptor_bytes(n));
        let block_group_descriptor = BlockGroupDescriptor::from_bytes(descriptor_bytes.as_slice());

        proof {
            assert(block_group_descriptor.inode_bitmap.0 * block_size <= 0x1_0000_0000 * 0x8000)
                by (nonlinear_arith)
                requires
                    block_group_descriptor.inode_bitmap.0 <= 0x1_0000_0000,
                    block_size <= 0x8000,
            ;
        }
        let inode_bitmap_offset = OffsetBytes(block_group_descriptor.inode_bitmap.0 as u64 * block_size);
        let inode_bitmap_buf = self.block_reader.read_num_bytes(inode_bitmap_offset, block_size as usize);
        assert(inode_bitmap_buf@ =~= old(self).inode_bitmap_bytes(n));
        let inode_bitmap = super::block_group::InodeBitmap::new(inode_bitmap_buf);
        let inode_used = inode_bitmap.is_used(local_inode_index)?;
        if !inode_used {
            return None;
        }

        let (inode_block, inode_offset) = self.superblock.inode_block_and_offset(
            block_group_descriptor.inode_table,
            local_inode_index,
        );
        proof {
            let byte_offset = sb.inode_size * local_inode_index.0;
            assert(byte_offset <= 0xFFFF * 0xFFFF_FFFFint) by (nonlinear_arith)
                requires
                    byte_offset == sb.inode_size * local_inode_index.0,
                    sb.inode_size <= 0xFFFF,
                    local_inode_index.0 <= 0xFFFF_FFFF,
            ;
            assert(byte_offset / fs_block_size(sb) <= byte_offset) by (nonlinear_arith)
                requires
                    byte_offset >= 0,
                    fs_block_size(sb) >= 1,
            ;
            assert(inode_block.0 * block_size <= 0x1_0001_0000_0000 * 0x8000) by (nonlinear_arith)
                requires
                    inode_block.0 <= 0x1_0001_0000_0000,
                    block_size <= 0x8000,
            ;
        }
        let address = OffsetBytes(inode_block.0 * block_size + inode_offset.0);
        let inode_bytes = self.block_reader.read_num_bytes(address, Inode::SIZE_BYTES);
        assert(inode_bytes@ =~= old(self).disk_range(old(self).inode_address(n), 128));
        Some(Inode::from_bytes(inode_bytes.as_slice()))
    }

    /// The byte address of a block.
    pub open spec fn block_address(&self, block: BlockAddress) -> int {
        block.0 * fs_block_size(self.superblock_spec())
    }

    /// The bytes of a block.
    pub open spec fn block_bytes(&self, block: BlockAddress) -> Seq<u8> {
        self.disk_range(self.block_address(block), fs_block_size(self.superblock_spec()))
    }

    /// Whether the entry chain of every block in `blocks` can be followed.
    pub open spec fn directory_blocks_ok(&self, blocks: Seq<BlockAddress>) -> bool {
        forall|k: int| 0 <= k < blocks.len() ==> dir_chain_ok(self.block_bytes(#[trigger] blocks[k]), 0)
    }

    /// The positions of the entries of the directory blocks `blocks`, in
    /// order: each the block and the entry's offset in it.
    pub open spec fn entry_positions(&self, blocks: Seq<BlockAddress>) -> Seq<(BlockAddress, int)>
        decreases blocks.len(),
    {
        if blocks.len() == 0 {
            Seq::empty()
        } else {
            let last = blocks.last();
            self.entry_positions(blocks.drop_last()) + chain_offsets(self.block_bytes(last), 0).map_values(
                |off: int| (last, off),
            )
        }
    }

    /// Reads the entries of a directory: those of each of its allocated
    /// direct blocks, block after block.
    pub fn read_directory(&mut self, inode: &Inode) -> (r: Vec<DirectoryEntry>)
        requires
            old(self).geometry_ok(),
            inode.is_dir_spec(),
            old(self).directory_blocks_ok(direct_blocks_from(inode.direct_blocks.0@, 0)),
        ensures
            final(self).same_disk(old(self)),
            ({
                let positions = old(self).entry_positions(direct_blocks_from(inode.direct_blocks.0@, 0));
                &&& r@.len() == positions.len()
                &&& forall|k: int|
                    0 <= k < r@.len() ==> parses_entry(
                        old(self).block_bytes(positions[k].0),
                        positions[k].1,
                        #[trigger] r@[k],
                    )
            }),
    {
        let ghost sb = self.superblock;
        proof {
            vstd::arithmetic::power2::lemma2_to64();
            assert(1024 <= fs_block_size(sb) <= 32768) by {
                if sb.log_block_size == 0 {} else if sb.log_block_size == 1 {} else if sb.log_block_size == 2 {}
                else if sb.log_block_size == 3 {} else if sb.log_block_size == 4 {} else {}
            }
        }
        let block_size = self.superblock.block_size_u16().0 as u64;
        let direct_blocks = inode.direct_blocks;
        let blocks = direct_blocks.blocks();
        let ghost all = blocks@;
        let mut entries: Vec<DirectoryEntry> = Vec::new();
        let mut i: usize = 0;
        while i < blocks.len()
            invariant
                self.same_disk(old(self)),
                sb == self.superblock_spec(),
                block_size == fs_block_size(sb),
                1024 <= block_size <= 32768,
                all == blocks@,
                old(self).directory_blocks_ok(all),
                i <= all.len(),
                ({
                    let positions = old(self).entry_positions(all.take(i as int));
                    &&& entries@.len() == positions.len()
                    &&& forall|k: int|
                        0 <= k < entries@.len() ==> parses_entry(
                            old(self).block_bytes(positions[k].0),
                            positions[k].1,
                            #[trigger] entries@[k],
                        )
                }),
            decreases all.len() - i,
        {
            let block_addr = blocks[i];
            proof {
                assert(block_addr.0 * block_size <= 0x1_0000_0000 * 0x8000) by (nonlinear_arith)
                    requires
                        block_addr.0 <= 0x1_0000_0000,
                        block_size <= 0x8000,
                ;
            }
            let block_offset = OffsetBytes(block_addr.0 as u64 * block_size);
            let ghost pre = *self;
            let block_buf = self.block_reader.read_num_bytes(block_offset, block_size as usize);
            proof {
                assert forall|a: int| #[trigger] self.disk(a) == old(self).disk(a) by {
                    assert(self.disk(a) == pre.disk(a));
                }
            }
            proof {
                assert(old(self).block_address(block_addr) == block_offset.0);
                assert forall|k: int| 0 <= k < block_size implies #[trigger] block_buf@[k] == old(self).block_bytes(
                    block_addr,
                )[k] by {
                    assert(block_buf@[k] == pre.block_reader.byte_at(block_offset.0 + k));
                    assert(pre.disk(block_offset.0 + k) == old(self).disk(block_offset.0 + k));
                }
            }
            assert(block_buf@ =~= old(self).block_bytes(block_addr));
            let dir_block = DirectoryBlock(block_buf);
            assert(dir_chain_ok(old(self).block_bytes(all[i as int]), 0));
            let block_entries = dir_block.entries();
            let ghost block_entries_before = block_entries@;
            let ghost prev = old(self).entry_positions(all.take(i as int));
            let ghost offs = chain_offsets(old(self).block_bytes(block_addr), 0);
            proof {
                assert(all.take(i + 1).drop_last() =~= all.take(i as int));
                assert(old(self).entry_positions(all.take(i + 1)) == prev + offs.map_values(
                    |off: int| (block_addr, off),
                ));
            }
            let ghost before_append = entries@;
            let mut block_entries = block_entries;
            entries.append(&mut block_entries);
            proof {
                let positions = old(self).entry_positions(all.take(i + 1));
                assert forall|k: int| 0 <= k < entries@.len() implies parses_entry(
                    old(self).block_bytes(positions[k].0),
                    positions[k].1,
                    #[trigger] entries@[k],
                ) by {
                    if k >= prev.len() {
                        let kk = k - prev.len();
                        assert(entries@[k] == block_entries_before[kk]);
                    } else {
                        assert(entries@[k] == before_append[k]);
                    }
                }
            }
            i += 1;
        }
        assert(all.take(all.len() as int) =~= all);
        entries
    }

    /// Whether the entry chain of each allocated direct block of a directory
    /// can be followed, as `read_directory` needs.
    pub fn directory_readable(&mut self, inode: &Inode) -> (r: bool)
        requires
            old(self).geometry_ok(),
        ensures
            final(self).same_disk(old(self)),
            r == old(self).directory_blocks_ok(direct_blocks_from(inode.direct_blocks.0@, 0)),
    {
        let ghost sb = self.superblock;
        proof {
            vstd::arithmetic::power2::lemma2_to64();
            assert(1024 <= fs_block_size(sb) <= 32768) by {
                if sb.log_block_size == 0 {} else if sb.log_block_size == 1 {} else if sb.log_block_size == 2 {}
                else if sb.log_block_size == 3 {} else if sb.log_block_size == 4 {} else {}
            }
        }
        let block_size = self.superblock.block_size_u16().0 as u64;
        let blocks = inode.direct_blocks.blocks();
        let ghost all = blocks@;
        let mut i: usize = 0;
        while i < blocks.len()
            invariant
                self.same_disk(old(self)),
                sb == self.superblock_spec(),
                block_size == fs_block_size(sb),
                1024 <= block_size <= 32768,
                all == blocks@,
                all == direct_blocks_from(inode.direct_blocks.0@, 0),
                i <= all.len(),
                forall|k: int| 0 <= k < i ==> dir_chain_ok(old(self).block_bytes(#[trigger] all[k]), 0),
            decreases all.len() - i,
        {
            let block_addr = blocks[i];
            proof {
                assert(block_addr.0 * block_size <= 0x1_0000_0000 * 0x8000) by (nonlinear_arith)
                    requires
                        block_addr.0 <= 0x1_0000_0000,
                        block_size <= 0x8000,
                ;
            }
            let block_offset = OffsetBytes(block_addr.0 as u64 * block_size);
            let ghost pre = *self;
            let block_buf = self.block_reader.read_num_bytes(block_offset, block_size as usize);
            proof {
                assert forall|a: int| #[trigger] self.disk(a) == old(self).disk(a) by {
                    assert(self.disk(a) == pre.disk(a));
                }
                assert(old(self).block_address(block_addr) == block_offset.0);
                assert forall|k: int| 0 <= k < block_size implies #[trigger] block_buf@[k] == old(self).block_bytes(
                    block_addr,
                )[k] by {
                    assert(block_buf@[k] == pre.block_reader.byte_at(block_offset.0 + k));
                    assert(pre.disk(block_offset.0 + k) == old(self).disk(block_offset.0 + k));
                }
            }
            assert(block_buf@ =~= old(self).block_bytes(block_addr));
            let dir_block = DirectoryBlock(block_buf);
            if !dir_block.chain_readable() {
                return false;
            }
            i += 1;
        }
        true
    }

    /// Calls `func` with each entry of a directory, as `read_directory` reads
    /// them: for each entry position of the directory's blocks, `func` is
    /// called with the entry found there.
    pub fn iter_directory<F>(&mut self, inode: &Inode, func: F)
        where F: Fn(DirectoryEntry)
        requires
            old(self).geometry_ok(),
            inode.is_dir_spec(),
            old(self).directory_blocks_ok(direct_blocks_from(inode.direct_blocks.0@, 0)),
            forall|e: DirectoryEntry| #[trigger] func.requires((e,)),
        ensures
            final(self).same_disk(old(self)),
            forall|k: int|
                0 <= k < old(self).entry_positions(direct_blocks_from(inode.direct_blocks.0@, 0)).len()
                    ==> #[trigger] called_with_entry(
                    func,
                    old(self).block_bytes(old(self).entry_positions(direct_blocks_from(inode.direct_blocks.0@, 0))[k].0),
                    old(self).entry_positions(direct_blocks_from(inode.direct_blocks.0@, 0))[k].1,
                ),
    {
        let entries = self.read_directory(inode);
        let ghost all = entries@;
        let ghost positions = old(self).entry_positions(direct_blocks_from(inode.direct_blocks.0@, 0));
        let mut rest = entries;
        let ghost mut i: int = 0;
        while rest.len() > 0
            invariant
                0 <= i <= all.len(),
                rest@ == all.subrange(i, all.len() as int),
                forall|e: DirectoryEntry| #[trigger] func.requires((e,)),
                forall|k: int| 0 <= k < i ==> #[trigger] call_ensures(func, (all[k],), ()),
            decreases rest@.len(),
        {
            let e = rest.remove(0);
            assert(e == all[i]);
            func(e);
            proof {
                i = i + 1;
                assert(rest@ =~= all.subrange(i, all.len() as int));
            }
        }
        proof {
            assert(i == all.len());
            assert(all.len() == positions.len());
            assert(positions == old(self).entry_positions(direct_blocks_from(inode.direct_blocks.0@, 0)));
            assert forall|k: int|
                0 <= k < positions.len() implies #[trigger] called_with_entry(
                func,
                old(self).block_bytes(positions[k].0),
                positions[k].1,
            ) by {
                let e = all[k];
                assert(parses_entry(old(self).block_bytes(positions[k].0), positions[k].1, e));
                assert(call_ensures(func, (e,), ()));
            }
        }
    }

    /// Reads the root directory's inode, which is always inode 2.
    pub fn read_root(&mut self) -> (r: Inode)
        requires
            old(self).geometry_ok(),
            old(self).inode_in_use(2),
        ensures
            final(self).same_disk(old(self)),
            parses_inode(old(self).disk_range(old(self).inode_address(2), 128), r),
    {
        match self.read_inode(InodeNumber(2)) {
            Some(inode) => inode,
            None => vstd::pervasive::unreached(),
        }
    }
}

} // verus!
