//! Block devices: block sizes and indexes, and how a read of file system
//! blocks maps onto the device's own blocks.

use vstd::prelude::*;

use crate::bytes::splice_bytes;

verus! {

#[derive(Debug, Copy, Clone, PartialEq, Eq, Structural)]
pub struct BlockSize(pub u16);

impl BlockSize {
    pub fn new(value: u16) -> (r: BlockSize)
        ensures
            r.0 == value,
    {
        BlockSize(value)
    }
}

#[derive(Debug, Copy, Clone, PartialEq, Eq, Structural)]
pub struct BlockIndex(pub u64);

impl BlockIndex {
    pub fn new(value: u64) -> (r: BlockIndex)
        ensures
            r.0 == value,
    {
        BlockIndex(value)
    }

    pub fn add(self, rhs: BlockIndex) -> (r: BlockIndex)
        requires
            self.0 + rhs.0 <= u64::MAX,
        ensures
            r.0 == self.0 + rhs.0,
    {
        BlockIndex(self.0 + rhs.0)
    }
}

/// A disk that reads and writes whole device blocks (sectors).
pub trait BlockDeviceDriver {
    /// What the disk holds.
    spec fn contents(&self) -> Seq<u8>;

    /// Size in bytes of the device's own blocks.
    spec fn sector_size(&self) -> u16;

    fn device_block_size(&self) -> (r: BlockSize)
        ensures
            r.0 == self.sector_size(),
    ;

    /// Reads `num_blocks` device blocks from device block `start_block` on.
    fn read_device_blocks(&self, start_block: BlockIndex, num_blocks: usize) -> (r: Vec<u8>)
        requires
            (start_block.0 + num_blocks) * self.sector_size() <= self.contents().len(),
        ensures
            r@ == self.contents().subrange(
                start_block.0 * self.sector_size(),
                (start_block.0 + num_blocks) * self.sector_size(),
            ),
    ;

    /// Writes `data` over the device's bytes from device block `start_block`
    /// on.
    fn write_device_blocks(&mut self, start_block: BlockIndex, data: &[u8])
        requires
            start_block.0 * old(self).sector_size() + data.len() <= old(self).contents().len(),
        ensures
            final(self).sector_size() == old(self).sector_size(),
            final(self).contents() == splice_bytes(
                old(self).contents(),
                start_block.0 * old(self).sector_size(),
                data@,
            ),
    ;
}

/// A disk held in memory.
pub struct MemoryBlockDevice {
    pub sector_size: u16,
    pub bytes: Vec<u8>,
}

impl BlockDeviceDriver for MemoryBlockDevice {
    open spec fn contents(&self) -> Seq<u8> {
        self.bytes@
    }

    open spec fn sector_size(&self) -> u16 {
        self.sector_size
    }

    fn device_block_size(&self) -> (r: BlockSize) {
        BlockSize(self.sector_size)
    }

    fn read_device_blocks(&self, start_block: BlockIndex, num_blocks: usize) -> (r: Vec<u8>) {
        let ss = self.sector_size as u64;
        let len = self.bytes.len();
        if ss == 0 {
            assert(start_block.0 * self.sector_size == 0 && (start_block.0 + num_blocks)
                * self.sector_size == 0) by (nonlinear_arith)
                requires
                    self.sector_size == 0,
            ;
            assert(self.bytes@.subrange(0, 0) =~= Seq::<u8>::empty());
            return Vec::new();
        }
        proof {
            assert(start_block.0 * ss <= (start_block.0 + num_blocks) * ss && start_block.0 + num_blocks
                <= (start_block.0 + num_blocks) * ss) by (nonlinear_arith)
                requires
                    start_block.0 >= 0,
                    num_blocks >= 0,
                    ss >= 1,
            ;
        }
        let start = (start_block.0 * ss) as usize;
        let end = ((start_block.0 + num_blocks as u64) * ss) as usize;
        let mut r: Vec<u8> = Vec::new();
        let mut i: usize = start;
        while i < end
            invariant
                start <= i <= end,
                end <= self.bytes@.len(),
                r@ == self.bytes@.subrange(start as int, i as int),
            decreases end - i,
        {
            r.push(self.bytes[i]);
            i += 1;
            assert(r@ =~= self.bytes@.subrange(start as int, i as int));
        }
        r
    }

    fn write_device_blocks(&mut self, start_block: BlockIndex, data: &[u8]) {
        let len = self.bytes.len();
        let start = (start_block.0 * self.sector_size as u64) as usize;
        let ghost before = self.bytes@;
        let ghost ss = self.sector_size;
        let mut i: usize = 0;
        while i < data.len()
            invariant
                self.sector_size == ss,
                before.len() == len,
                start + data@.len() <= before.len(),
                i <= data@.len(),
                self.bytes@.len() == before.len(),
                forall|j: int| 0 <= j < before.len() && (j < start || j >= start + i) ==> self.bytes@[j] == before[j],
                forall|j: int| 0 <= j < i ==> self.bytes@[start + j] == data@[j],
            decreases data@.len() - i,
        {
            assert(start + i < before.len());
            self.bytes.set(start + i, data[i]);
            i += 1;
        }
        assert(self.bytes@ =~= splice_bytes(before, start as int, data@));
    }
}

/// In-memory copy of some of a disk's blocks, and where they came from.
pub struct BlockBuffer {
    pub device_start_block: BlockIndex,
    pub data: Vec<u8>,
}

/// How many device blocks of `sector` bytes a block of `block` bytes spans.
pub open spec fn device_blocks_per_block(block: u16, sector: u16) -> int {
    (block as int + sector - 1) / sector as int
}

/// Wrapper around a `BlockDeviceDriver` implementation.
pub struct BlockDevice<D> {
    pub driver: D,
}

impl<D: BlockDeviceDriver> BlockDevice<D> {
    pub fn new(driver: D) -> (r: BlockDevice<D>)
        ensures
            r.driver == driver,
    {
        BlockDevice { driver }
    }

    /// The device block where file system block `start_block` of
    /// `block_size` bytes starts.
    pub open spec fn device_start(&self, block_size: BlockSize, start_block: BlockIndex) -> int {
        start_block.0 * (block_size.0 / self.driver.sector_size())
    }

    /// Reads `num_blocks` blocks of `block_size` bytes from `start_block` on.
    pub fn read_blocks(&self, block_size: BlockSize, start_block: BlockIndex, num_blocks: usize) -> (r: BlockBuffer)
        requires
            self.driver.sector_size() > 0,
            ({
                let dsb = self.device_start(block_size, start_block);
                let dnb = num_blocks * device_blocks_per_block(block_size.0, self.driver.sector_size());
                &&& dnb <= usize::MAX
                &&& (dsb + dnb) * self.driver.sector_size() <= self.driver.contents().len()
                &&& dsb + dnb <= u64::MAX
            }),
        ensures
            ({
                let dsb = self.device_start(block_size, start_block);
                let dnb = num_blocks * device_blocks_per_block(block_size.0, self.driver.sector_size());
                &&& r.device_start_block.0 == dsb
                &&& r.data@ == self.driver.contents().subrange(
                    dsb * self.driver.sector_size(),
                    (dsb + dnb) * self.driver.sector_size(),
                )
            }),
    {
        let block_size: u16 = block_size.0;
        let device_block_size: u16 = self.driver.device_block_size().0;
        let per_block: u64 = (block_size / device_block_size) as u64;
        proof {
            assert(start_block.0 * per_block <= self.device_start(BlockSize(block_size), start_block));
        }
        let device_start_block = BlockIndex(start_block.0 * per_block);
        let span: usize = ((block_size as u32 + device_block_size as u32 - 1) / device_block_size as u32) as usize;
        proof {
            assert(num_blocks * span == num_blocks * device_blocks_per_block(block_size, device_block_size));
        }
        let device_num_blocks = num_blocks * span;
        let data = self.driver.read_device_blocks(device_start_block, device_num_blocks);
        BlockBuffer { device_start_block, data }
    }

    /// Writes a buffer back to where it was read from. Its length must be a
    /// whole number of device blocks.
    pub fn flush(&mut self, buffer: &BlockBuffer)
        requires
            old(self).driver.sector_size() > 0,
            (buffer.data@.len() as int) % (old(self).driver.sector_size() as int) == 0,
            buffer.device_start_block.0 * old(self).driver.sector_size() + buffer.data@.len()
                <= old(self).driver.contents().len(),
        ensures
            final(self).driver.sector_size() == old(self).driver.sector_size(),
            final(self).driver.contents() == splice_bytes(
                old(self).driver.contents(),
                buffer.device_start_block.0 * old(self).driver.sector_size(),
                buffer.data@,
            ),
    {
        self.driver.write_device_blocks(buffer.device_start_block, buffer.data.as_slice());
    }
}

} // verus!
