//! Block group descriptors, and the block and inode bitmaps of a block group.

use vstd::prelude::*;

use crate::bitmap_alloc::chunk::{byte_is_full, lemma_page_position, lemma_pages_of_update, pages_of, BitChunk};
use crate::bytes::{le_u16, le_u32, read_array_12, read_u16_le, read_u32_le};
use super::inode::BlockAddress;
use super::superblock::LocalInodeIndex;

verus! {

/// See <https://www.nongnu.org/ext2-doc/ext2.html#block-group-descriptor-structure>
#[derive(Debug, Clone, Copy)]
pub struct BlockGroupDescriptor {
    pub block_bitmap: BlockAddress,
    pub inode_bitmap: BlockAddress,
    pub inode_table: BlockAddress,
    pub free_blocks_count: u16,
    pub free_inodes_count: u16,
    pub used_dirs_count: u16,
    pub pad: u16,
    pub reserved: [u8; 12],
}

/// Whether `d` holds the fields of the block group descriptor whose on-disk
/// bytes are `s`.
pub open spec fn parses_block_group_descriptor(s: Seq<u8>, d: BlockGroupDescriptor) -> bool {
    &&& d.block_bitmap.0 == le_u32(s, 0)
    &&& d.inode_bitmap.0 == le_u32(s, 4)
    &&& d.inode_table.0 == le_u32(s, 8)
    &&& d.free_blocks_count == le_u16(s, 12)
    &&& d.free_inodes_count == le_u16(s, 14)
    &&& d.used_dirs_count == le_u16(s, 16)
    &&& d.pad == le_u16(s, 18)
    &&& d.reserved@ == s.subrange(20, 32)
}

impl BlockGroupDescriptor {
    /// Size of a block group descriptor on disk.
    pub const SIZE_BYTES: usize = 32;

    pub fn from_bytes(bytes: &[u8]) -> (r: BlockGroupDescriptor)
        requires
            32 <= bytes.len(),
        ensures
            parses_block_group_descriptor(bytes@, r),
    {
        BlockGroupDescriptor {
            block_bitmap: BlockAddress(read_u32_le(bytes, 0)),
            inode_bitmap: BlockAddress(read_u32_le(bytes, 4)),
            inode_table: BlockAddress(read_u32_le(bytes, 8)),
            free_blocks_count: read_u16_le(bytes, 12),
            free_inodes_count: read_u16_le(bytes, 14),
            used_dirs_count: read_u16_le(bytes, 16),
            pad: read_u16_le(bytes, 18),
            reserved: read_array_12(bytes, 20),
        }
    }
}

/// Whether entry `i` of a bitmap is the first one not in use.
pub open spec fn is_first_free(v: Seq<bool>, i: int) -> bool {
    &&& 0 <= i < v.len()
    &&& !v[i]
    &&& forall|j: int| 0 <= j < i ==> #[trigger] v[j]
}

/// A bitmap over the entries of a block group: bit 0 of byte 0 is entry 0,
/// bit 7 of byte 0 is entry 7, bit 0 of byte 1 is entry 8, and a 1 means the
/// entry is in use.
#[derive(Debug)]
pub struct Bitmap(pub Vec<u8>);

impl View for Bitmap {
    type V = Seq<bool>;

    open spec fn view(&self) -> Seq<bool> {
        pages_of(self.0@)
    }
}

impl Bitmap {
    /// Whether the entry is in use, or `None` if the bitmap is too short to
    /// hold it.
    pub fn is_used(&self, index: usize) -> (r: Option<bool>)
        ensures
            r == (if index < self@.len() {
                Some(self@[index as int])
            } else {
                None
            }),
    {
        proof {
            lemma_page_position(index as int, 8);
        }
        if index / 8 >= self.0.len() {
            proof {
                assert(index >= self@.len()) by (nonlinear_arith)
                    requires
                        index / 8 >= self.0@.len(),
                        self@.len() == self.0@.len() * 8,
                ;
            }
            return None;
        }
        let byte = self.0[index / 8];
        let bit = index % 8;
        proof {
            assert(index < self@.len()) by (nonlinear_arith)
                requires
                    index / 8 < self.0@.len(),
                    index == (index / 8) * 8 + index % 8,
                    index % 8 < 8,
                    self@.len() == self.0@.len() * 8,
            ;
        }
        Some(byte.test_bit(bit))
    }

    /// Finds the next open entry in the bitmap, marks it used, and returns
    /// its index. Returns `None` if there are no more remaining entries.
    pub fn reserve_next_free(&mut self) -> (r: Option<usize>)
        requires
            old(self).0@.len() * 8 <= usize::MAX,
        ensures
            match r {
                Some(i) => is_first_free(old(self)@, i as int) && final(self)@ == old(self)@.update(
                    i as int,
                    true,
                ),
                None => (forall|j: int| 0 <= j < old(self)@.len() ==> #[trigger] old(self)@[j])
                    && final(self)@ == old(self)@,
            },
    {
        let mut index: usize = 0;
        while index < self.0.len()
            invariant
                self.0@ == old(self).0@,
                self.0@.len() * 8 <= usize::MAX,
                index <= self.0@.len(),
                forall|j: int| 0 <= j < index * 8 ==> #[trigger] self@[j],
            decreases self.0@.len() - index,
        {
            let byte = self.0[index];
            if byte_is_full(byte) {
                proof {
                    assert forall|j: int| 0 <= j < (index + 1) * 8 implies #[trigger] self@[j] by {
                        lemma_page_position(j, 8);
                        if j >= index * 8 {
                            assert(j / 8 == index);
                            assert(byte.bit_spec((j % 8) as nat));
                        }
                    }
                }
                index += 1;
                continue;
            }
            let mut bit: usize = 0;
            while bit < 8
                invariant
                    self.0@ == old(self).0@,
                    self.0@.len() * 8 <= usize::MAX,
                    index < self.0@.len(),
                    byte == self.0@[index as int],
                    bit <= 8,
                    forall|j: int| 0 <= j < index * 8 + bit ==> #[trigger] self@[j],
                decreases 8 - bit,
            {
                proof {
                    let p = index * 8 + bit;
                    lemma_page_position(p as int, 8);
                    assert(p / 8 == index && p % 8 == bit);
                }
                if !byte.test_bit(bit) {
                    let new_byte = byte.with_bit_set(bit);
                    proof {
                        lemma_pages_of_update(self.0@, index as int, new_byte);
                    }
                    let ghost old_view = self@;
                    self.0.set(index, new_byte);
                    let page = index * 8 + bit;
                    proof {
                        assert(!old_view[page as int]);
                        assert(old_view == old(self)@);
                        assert(page < old(self)@.len());
                        assert(is_first_free(old(self)@, page as int));
                        assert forall|j: int| 0 <= j < self@.len() implies #[trigger] self@[j] == old(
                            self,
                        )@.update(page as int, true)[j] by {
                            lemma_page_position(j, 8);
                            lemma_page_position(page as int, 8);
                            if j / 8 == index as int && j % 8 == bit as int {
                                assert(j == page);
                            }
                        }
                        assert(self@ =~= old(self)@.update(page as int, true));
                    }
                    return Some(page);
                }
                bit += 1;
            }
            assert(index * 8 + 8 == (index + 1) * 8);
            index += 1;
        }
        assert(self@ == old(self)@);
        assert(self@.len() == index * 8);
        None
    }
}

/// See <https://www.nongnu.org/ext2-doc/ext2.html#block-bitmap>
///
/// Each bit represent the current state of a block within that block group,
/// where 1 means "used" and 0 "free/available".
#[derive(Debug)]
pub struct BlockBitmap(pub Bitmap);

impl BlockBitmap {
    pub fn new(bytes: Vec<u8>) -> (r: BlockBitmap)
        ensures
            r.0.0@ == bytes@,
    {
        BlockBitmap(Bitmap(bytes))
    }

    /// Reserves the first free block and returns its address.
    pub fn reserve_next_free(&mut self) -> (r: Option<BlockAddress>)
        requires
            old(self).0.0@.len() * 8 <= u32::MAX,
        ensures
            match r {
                Some(a) => is_first_free(old(self).0@, a.0 as int) && final(self).0@ == old(
                    self,
                ).0@.update(a.0 as int, true),
                None => (forall|j: int| 0 <= j < old(self).0@.len() ==> #[trigger] old(self).0@[j])
                    && final(self).0@ == old(self).0@,
            },
    {
        let index = self.0.reserve_next_free()?;
        Some(BlockAddress(index as u32))
    }
}

/// See <https://www.nongnu.org/ext2-doc/ext2.html#inode-bitmap>
///
/// The "Inode Bitmap" works in a similar way as the "Block Bitmap", difference
/// being in each bit representing an inode in the "Inode Table" rather than a
/// block.
#[derive(Debug)]
pub struct InodeBitmap(pub Bitmap);

impl InodeBitmap {
    pub fn new(bytes: Vec<u8>) -> (r: InodeBitmap)
        ensures
            r.0.0@ == bytes@,
    {
        InodeBitmap(Bitmap(bytes))
    }

    pub fn is_used(&self, local_index: LocalInodeIndex) -> (r: Option<bool>)
        ensures
            r == (if local_index.0 < self.0@.len() {
                Some(self.0@[local_index.0 as int])
            } else {
                None
            }),
    {
        self.0.is_used(local_index.0 as usize)
    }

    /// Reserves the first free inode of the group and returns its index.
    pub fn reserve_next_free(&mut self) -> (r: Option<LocalInodeIndex>)
        requires
            old(self).0.0@.len() * 8 <= u32::MAX,
        ensures
            match r {
                Some(a) => is_first_free(old(self).0@, a.0 as int) && final(self).0@ == old(
                    self,
                ).0@.update(a.0 as int, true),
                None => (forall|j: int| 0 <= j < old(self).0@.len() ==> #[trigger] old(self).0@[j])
                    && final(self).0@ == old(self).0@,
            },
    {
        let index = self.0.reserve_next_free()?;
        Some(LocalInodeIndex(index as u32))
    }
}

} // verus!
