//! ext2 inodes: their on-disk layout, their mode bits, and their block lists.

use vstd::prelude::*;

use crate::bytes::{le_u16, le_u32, read_array_12, read_u16_le, read_u32_le};

verus! {

/// Address of a block in the filesystem.
#[derive(Debug, Clone, Copy, PartialEq, Eq, Structural)]
pub struct BlockAddress(pub u32);

/// See <https://www.nongnu.org/ext2-doc/ext2.html#inode-table>
#[derive(Debug, Clone, Copy)]
pub struct Inode {
    pub mode: InodeMode,
    pub uid: u16,
    pub size_low: u32,
    pub atime: u32,
    pub ctime: u32,
    pub mtime: u32,
    pub dtime: u32,
    pub gid: u16,
    pub links_count: u16,
    pub blocks: u32,
    pub flags: u32,
    pub osd1: u32,
    pub direct_blocks: InodeDirectBlocks,
    pub singly_indirect_block: BlockAddress,
    pub doubly_indirect_block: BlockAddress,
    pub triply_indirect_block: BlockAddress,
    pub generation: u32,
    pub file_acl: u32,
    /// High 32 bits of file size. This is dir_acl in revision 0.
    pub size_high: u32,
    pub faddr: u32,
    pub osd2: [u8; 12],
}

/// Whether `i` holds the fields of the inode whose on-disk bytes are `s`.
pub open spec fn parses_inode(s: Seq<u8>, i: Inode) -> bool {
    &&& i.mode.0 == le_u16(s, 0)
    &&& i.uid == le_u16(s, 2)
    &&& i.size_low == le_u32(s, 4)
    &&& i.atime == le_u32(s, 8)
    &&& i.ctime == le_u32(s, 12)
    &&& i.mtime == le_u32(s, 16)
    &&& i.dtime == le_u32(s, 20)
    &&& i.gid == le_u16(s, 24)
    &&& i.links_count == le_u16(s, 26)
    &&& i.blocks == le_u32(s, 28)
    &&& i.flags == le_u32(s, 32)
    &&& i.osd1 == le_u32(s, 36)
    &&& forall|j: int| 0 <= j < 12 ==> (#[trigger] i.direct_blocks.0@[j]).0 == le_u32(s, 40 + 4 * j)
    &&& i.singly_indirect_block.0 == le_u32(s, 88)
    &&& i.doubly_indirect_block.0 == le_u32(s, 92)
    &&& i.triply_indirect_block.0 == le_u32(s, 96)
    &&& i.generation == le_u32(s, 100)
    &&& i.file_acl == le_u32(s, 104)
    &&& i.size_high == le_u32(s, 108)
    &&& i.faddr == le_u32(s, 112)
    &&& i.osd2@ == s.subrange(116, 128)
}

/// <https://www.nongnu.org/ext2-doc/ext2.html#i-mode>
#[derive(Debug, Clone, Copy, PartialEq, Eq, Structural)]
pub struct InodeMode(pub u16);

impl InodeMode {
    // Access rights

    /// Others execute
    pub const IXOTH: u16 = 0x001;

    /// Others write
    pub const IWOTH: u16 = 0x002;

    /// Others read
    pub const IROTH: u16 = 0x004;

    /// Group execute
    pub const IXGRP: u16 = 0x008;

    /// Group write
    pub const IWGRP: u16 = 0x010;

    /// Group read
    pub const IRGRP: u16 = 0x020;

    /// User execute
    pub const IXUSR: u16 = 0x040;

    /// User write
    pub const IWUSR: u16 = 0x080;

    /// User read
    pub const IRUSR: u16 = 0x100;

    /// Sticky bit
    pub const ISVTX: u16 = 0x200;

    /// Set process group id
    pub const ISGID: u16 = 0x400;

    /// Set process user id
    pub const ISUID: u16 = 0x800;

    /// FIFO
    pub const IFIFO: u16 = 0x1000;

    /// Character device
    pub const IFCHR: u16 = 0x2000;

    /// Directory
    pub const IFDIR: u16 = 0x4000;

    /// Block device
    pub const IFBLK: u16 = 0x6000;

    /// Regular file
    pub const IFREG: u16 = 0x8000;

    /// Symbolic link
    pub const IFLNK: u16 = 0xA000;

    /// Socket
    pub const IFSOCK: u16 = 0xC000;

    /// The bits of the mode that hold the file format.
    pub const IFMT: u16 = 0xF000;

    /// The file format the mode holds: one of the `IF*` values above.
    pub fn file_format(self) -> (r: u16)
        ensures
            r == self.0 & 0xF000,
    {
        self.0 & InodeMode::IFMT
    }

    /// Whether every bit of `bits` is set in the mode.
    pub fn contains(self, bits: u16) -> (r: bool)
        ensures
            r == (self.0 & bits == bits),
    {
        self.0 & bits == bits
    }
}

impl Inode {
    /// Size of an inode's fields on disk.
    pub const SIZE_BYTES: usize = 128;

    /// Reads an inode's fields from its on-disk bytes.
    pub fn from_bytes(bytes: &[u8]) -> (r: Inode)
        requires
            128 <= bytes.len(),
        ensures
            parses_inode(bytes@, r),
    {
        Inode {
            mode: InodeMode(read_u16_le(bytes, 0)),
            uid: read_u16_le(bytes, 2),
            size_low: read_u32_le(bytes, 4),
            atime: read_u32_le(bytes, 8),
            ctime: read_u32_le(bytes, 12),
            mtime: read_u32_le(bytes, 16),
            dtime: read_u32_le(bytes, 20),
            gid: read_u16_le(bytes, 24),
            links_count: read_u16_le(bytes, 26),
            blocks: read_u32_le(bytes, 28),
            flags: read_u32_le(bytes, 32),
            osd1: read_u32_le(bytes, 36),
            direct_blocks: InodeDirectBlocks::from_bytes(bytes, 40),
            singly_indirect_block: BlockAddress(read_u32_le(bytes, 88)),
            doubly_indirect_block: BlockAddress(read_u32_le(bytes, 92)),
            triply_indirect_block: BlockAddress(read_u32_le(bytes, 96)),
            generation: read_u32_le(bytes, 100),
            file_acl: read_u32_le(bytes, 104),
            size_high: read_u32_le(bytes, 108),
            faddr: read_u32_le(bytes, 112),
            osd2: read_array_12(bytes, 116),
        }
    }

    /// Whether the mode's file format is that of a directory.
    pub open spec fn is_dir_spec(&self) -> bool {
        self.mode.0 & 0xF000 == 0x4000
    }

    /// Whether the mode's file format is that of a regular file.
    pub open spec fn is_file_spec(&self) -> bool {
        self.mode.0 & 0xF000 == 0x8000
    }

    /// Whether the inode is a directory: its mode's file format is `IFDIR`.
    pub fn is_dir(&self) -> (r: bool)
        ensures
            r == self.is_dir_spec(),
    {
        let mode = self.mode;
        mode.file_format() == InodeMode::IFDIR
    }

    /// Whether the inode is a regular file: its mode's file format is
    /// `IFREG`.
    pub fn is_file(&self) -> (r: bool)
        ensures
            r == self.is_file_spec(),
    {
        let mode = self.mode;
        mode.file_format() == InodeMode::IFREG
    }
}

/// The twelve direct block addresses of an inode.
#[derive(Debug, Clone, Copy)]
pub struct InodeDirectBlocks(pub [BlockAddress; 12]);

/// The direct blocks that iterating over an inode's direct blocks from index
/// `i` yields: every block up to the first unallocated (zero) one.
pub open spec fn direct_blocks_from(blocks: Seq<BlockAddress>, i: int) -> Seq<BlockAddress>
    decreases 12 - i,
{
    if i >= 12 || i < 0 || blocks[i].0 == 0 {
        Seq::empty()
    } else {
        seq![blocks[i]] + direct_blocks_from(blocks, i + 1)
    }
}

impl InodeDirectBlocks {
    pub fn from_bytes(bytes: &[u8], off: usize) -> (r: InodeDirectBlocks)
        requires
            off + 48 <= bytes.len(),
        ensures
            forall|j: int| 0 <= j < 12 ==> (#[trigger] r.0@[j]).0 == le_u32(bytes@, off + 4 * j),
    {
        let mut blocks = [BlockAddress(0); 12];
        let mut i: usize = 0;
        while i < 12
            invariant
                off + 48 <= bytes.len(),
                i <= 12,
                blocks@.len() == 12,
                forall|j: int| 0 <= j < i ==> (#[trigger] blocks@[j]).0 == le_u32(bytes@, off + 4 * j),
            decreases 12 - i,
        {
            blocks[i] = BlockAddress(read_u32_le(bytes, off + 4 * i));
            i += 1;
        }
        InodeDirectBlocks(blocks)
    }

    /// Iterates over the direct blocks, stopping at the first unallocated one.
    pub fn iter(&self) -> (r: InodeDirectBlockIterator)
        ensures
            r.direct_blocks == *self,
            r.index == 0,
    {
        InodeDirectBlockIterator { direct_blocks: *self, index: 0 }
    }

    /// The blocks that iterating over the direct blocks yields, in order.
    pub fn blocks(&self) -> (r: Vec<BlockAddress>)
        ensures
            r@ == direct_blocks_from(self.0@, 0),
    {
        let mut iter = self.iter();
        let mut r: Vec<BlockAddress> = Vec::new();
        loop
            invariant
                iter.direct_blocks == *self,
                iter.index <= 12,
                r@ + direct_blocks_from(self.0@, iter.index as int) == direct_blocks_from(self.0@, 0),
            decreases 12 - iter.index,
        {
            let ghost before = iter.index as int;
            match iter.next() {
                Some(block) => {
                    r.push(block);
                    assert(r@ + direct_blocks_from(self.0@, iter.index as int) =~= direct_blocks_from(
                        self.0@,
                        0,
                    ));
                },
                None => {
                    assert(r@ =~= direct_blocks_from(self.0@, 0));
                    return r;
                },
            }
        }
    }

    /// Sets the block at `index`.
    pub fn insert(&mut self, index: usize, block: BlockAddress)
        requires
            index < 12,
        ensures
            final(self).0@ == old(self).0@.update(index as int, block),
    {
        self.0[index] = block;
    }

    /// No blocks allocated.
    pub fn empty() -> (r: InodeDirectBlocks)
        ensures
            forall|j: int| 0 <= j < 12 ==> (#[trigger] r.0@[j]).0 == 0,
    {
        InodeDirectBlocks([BlockAddress(0); 12])
    }
}

pub struct InodeDirectBlockIterator {
    pub direct_blocks: InodeDirectBlocks,
    pub index: usize,
}

impl InodeDirectBlockIterator {
    /// The next direct block, or `None` at an unallocated block or past the
    /// last one. The index moves on either way, except past the end.
    pub fn next(&mut self) -> (r: Option<BlockAddress>)
        ensures
            final(self).direct_blocks == old(self).direct_blocks,
            old(self).index >= 12 ==> r is None && final(self).index == old(self).index,
            old(self).index < 12 ==> final(self).index == old(self).index + 1 && r == (if old(
                self,
            ).direct_blocks.0@[old(self).index as int].0 == 0 {
                None
            } else {
                Some(old(self).direct_blocks.0@[old(self).index as int])
            }),
    {
        if self.index >= 12 {
            return None;
        }
        let block = self.direct_blocks.0[self.index];
        self.index += 1;

        if block.0 == 0 {
            None
        } else {
            Some(block)
        }
    }
}

/// Byte `j` (0 or 1) of the little-endian encoding of `v`.
pub open spec fn byte16(v: u16, j: int) -> u8 {
    if j == 0 {
        (v % 0x100) as u8
    } else {
        (v / 0x100) as u8
    }
}

/// Byte `j` (0 to 3) of the little-endian encoding of `v`.
pub open spec fn byte32(v: u32, j: int) -> u8 {
    if j < 2 {
        byte16((v % 0x1_0000) as u16, j)
    } else {
        byte16((v / 0x1_0000) as u16, j - 2)
    }
}

/// Byte `k` of the on-disk encoding of an inode's fields.
pub open spec fn inode_byte(i: Inode, k: int) -> u8 {
    if k < 2 {
        byte16(i.mode.0, k)
    } else if k < 4 {
        byte16(i.uid, k - 2)
    } else if k < 8 {
        byte32(i.size_low, k - 4)
    } else if k < 12 {
        byte32(i.atime, k - 8)
    } else if k < 16 {
        byte32(i.ctime, k - 12)
    } else if k < 20 {
        byte32(i.mtime, k - 16)
    } else if k < 24 {
        byte32(i.dtime, k - 20)
    } else if k < 26 {
        byte16(i.gid, k - 24)
    } else if k < 28 {
        byte16(i.links_count, k - 26)
    } else if k < 32 {
        byte32(i.blocks, k - 28)
    } else if k < 36 {
        byte32(i.flags, k - 32)
    } else if k < 40 {
        byte32(i.osd1, k - 36)
    } else if k < 88 {
        byte32(i.direct_blocks.0@[(k - 40) / 4].0, (k - 40) % 4)
    } else if k < 92 {
        byte32(i.singly_indirect_block.0, k - 88)
    } else if k < 96 {
        byte32(i.doubly_indirect_block.0, k - 92)
    } else if k < 100 {
        byte32(i.triply_indirect_block.0, k - 96)
    } else if k < 104 {
        byte32(i.generation, k - 100)
    } else if k < 108 {
        byte32(i.file_acl, k - 104)
    } else if k < 112 {
        byte32(i.size_high, k - 108)
    } else if k < 116 {
        byte32(i.faddr, k - 112)
    } else {
        i.osd2@[k - 116]
    }
}

/// The 128 on-disk bytes of an inode's fields.
pub open spec fn inode_image(i: Inode) -> Seq<u8> {
    Seq::new(128, |k: int| inode_byte(i, k))
}

proof fn lemma_le_u16_of_bytes(s: Seq<u8>, off: int, v: u16)
    requires
        0 <= off,
        off + 2 <= s.len(),
        s[off] == byte16(v, 0),
        s[off + 1] == byte16(v, 1),
    ensures
        le_u16(s, off) == v,
{
}

proof fn lemma_le_u32_of_bytes(s: Seq<u8>, off: int, v: u32)
    requires
        0 <= off,
        off + 4 <= s.len(),
        s[off] == byte32(v, 0),
        s[off + 1] == byte32(v, 1),
        s[off + 2] == byte32(v, 2),
        s[off + 3] == byte32(v, 3),
    ensures
        le_u32(s, off) == v,
{
    let lo = (v % 0x1_0000) as u16;
    let hi = (v / 0x1_0000) as u16;
    assert(s[off] as int + s[off + 1] as int * 0x100 == lo);
    assert(s[off + 2] as int + s[off + 3] as int * 0x100 == hi);
}

/// Reading the fields back from an inode's encoding gives the inode.
pub proof fn lemma_inode_image_parses(i: Inode)
    ensures
        parses_inode(inode_image(i), i),
{
    let s = inode_image(i);
    lemma_le_u16_of_bytes(s, 0, i.mode.0);
    lemma_le_u16_of_bytes(s, 2, i.uid);
    lemma_le_u32_of_bytes(s, 4, i.size_low);
    lemma_le_u32_of_bytes(s, 8, i.atime);
    lemma_le_u32_of_bytes(s, 12, i.ctime);
    lemma_le_u32_of_bytes(s, 16, i.mtime);
    lemma_le_u32_of_bytes(s, 20, i.dtime);
    lemma_le_u16_of_bytes(s, 24, i.gid);
    lemma_le_u16_of_bytes(s, 26, i.links_count);
    lemma_le_u32_of_bytes(s, 28, i.blocks);
    lemma_le_u32_of_bytes(s, 32, i.flags);
    lemma_le_u32_of_bytes(s, 36, i.osd1);
    assert forall|j: int| 0 <= j < 12 implies (#[trigger] i.direct_blocks.0@[j]).0 == le_u32(s, 40 + 4 * j) by {
        let v = i.direct_blocks.0@[j].0;
        let off = 40 + 4 * j;
        assert((off - 40) / 4 == j && (off - 40) % 4 == 0);
        assert((off + 1 - 40) / 4 == j && (off + 1 - 40) % 4 == 1);
        assert((off + 2 - 40) / 4 == j && (off + 2 - 40) % 4 == 2);
        assert((off + 3 - 40) / 4 == j && (off + 3 - 40) % 4 == 3);
        lemma_le_u32_of_bytes(s, off, v);
    }
    lemma_le_u32_of_bytes(s, 88, i.singly_indirect_block.0);
    lemma_le_u32_of_bytes(s, 92, i.doubly_indirect_block.0);
    lemma_le_u32_of_bytes(s, 96, i.triply_indirect_block.0);
    lemma_le_u32_of_bytes(s, 100, i.generation);
    lemma_le_u32_of_bytes(s, 104, i.file_acl);
    lemma_le_u32_of_bytes(s, 108, i.size_high);
    lemma_le_u32_of_bytes(s, 112, i.faddr);
    assert(s.subrange(116, 128) =~= i.osd2@);
}

fn encoded_u16(v: u16, j: usize) -> (r: u8)
    requires
        j < 2,
    ensures
        r == byte16(v, j as int),
{
    if j == 0 {
        (v % 0x100) as u8
    } else {
        (v / 0x100) as u8
    }
}

fn encoded_u32(v: u32, j: usize) -> (r: u8)
    requires
        j < 4,
    ensures
        r == byte32(v, j as int),
{
    if j < 2 {
        encoded_u16((v % 0x1_0000) as u16, j)
    } else {
        encoded_u16((v / 0x1_0000) as u16, j - 2)
    }
}

impl Inode {
    /// Byte `k` of the inode's on-disk encoding.
    pub fn encoded_byte(&self, k: usize) -> (r: u8)
        requires
            k < 128,
        ensures
            r == inode_byte(*self, k as int),
    {
        if k < 2 {
            encoded_u16(self.mode.0, k)
        } else if k < 4 {
            encoded_u16(self.uid, k - 2)
        } else if k < 8 {
            encoded_u32(self.size_low, k - 4)
        } else if k < 12 {
            encoded_u32(self.atime, k - 8)
        } else if k < 16 {
            encoded_u32(self.ctime, k - 12)
        } else if k < 20 {
            encoded_u32(self.mtime, k - 16)
        } else if k < 24 {
            encoded_u32(self.dtime, k - 20)
        } else if k < 26 {
            encoded_u16(self.gid, k - 24)
        } else if k < 28 {
            encoded_u16(self.links_count, k - 26)
        } else if k < 32 {
            encoded_u32(self.blocks, k - 28)
        } else if k < 36 {
            encoded_u32(self.flags, k - 32)
        } else if k < 40 {
            encoded_u32(self.osd1, k - 36)
        } else if k < 88 {
            encoded_u32(self.direct_blocks.0[(k - 40) / 4].0, (k - 40) % 4)
        } else if k < 92 {
            encoded_u32(self.singly_indirect_block.0, k - 88)
        } else if k < 96 {
            encoded_u32(self.doubly_indirect_block.0, k - 92)
        } else if k < 100 {
            encoded_u32(self.triply_indirect_block.0, k - 96)
        } else if k < 104 {
            encoded_u32(self.generation, k - 100)
        } else if k < 108 {
            encoded_u32(self.file_acl, k - 104)
        } else if k < 112 {
            encoded_u32(self.size_high, k - 108)
        } else if k < 116 {
            encoded_u32(self.faddr, k - 112)
        } else {
            self.osd2[k - 116]
        }
    }

    /// Writes the inode's on-disk encoding into `bytes` at `off`.
    pub fn write_to(&self, bytes: &mut Vec<u8>, off: usize)
        requires
            off + 128 <= old(bytes)@.len(),
        ensures
            final(bytes)@ == crate::bytes::splice_bytes(old(bytes)@, off as int, inode_image(*self)),
            parses_inode(final(bytes)@.subrange(off as int, off + 128), *self),
    {
        let ghost before = bytes@;
        let len = bytes.len();
        let mut k: usize = 0;
        while k < 128
            invariant
                before.len() == len,
                off + 128 <= before.len(),
                k <= 128,
                bytes@.len() == before.len(),
                forall|j: int| 0 <= j < before.len() && (j < off || j >= off + k) ==> bytes@[j] == before[j],
                forall|j: int| 0 <= j < k ==> bytes@[off + j] == inode_byte(*self, j),
            decreases 128 - k,
        {
            let b = self.encoded_byte(k);
            bytes.set(off + k, b);
            k += 1;
        }
        assert(bytes@ =~= crate::bytes::splice_bytes(before, off as int, inode_image(*self)));
        assert(bytes@.subrange(off as int, off + 128) =~= inode_image(*self));
        proof {
            lemma_inode_image_parses(*self);
        }
    }
}

} // verus!
