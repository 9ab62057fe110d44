//! Pages of memory of a given address type, and ranges of them.

use vstd::prelude::*;

use super::address::{
    align_down_spec, canonical, in_physical_mapping, is_power_of_two, phys_addr_valid, virt_addr_valid,
    KernPhysAddr, PhysAddr, VirtAddr,
};

verus! {

#[derive(Debug, Clone, Copy, PartialEq, Eq, Structural)]
pub enum PageSize {
    Size4KiB,
    Size2MiB,
    Size1GiB,
}

impl PageSize {
    pub open spec fn bytes(self) -> int {
        match self {
            PageSize::Size4KiB => 4096int,
            PageSize::Size2MiB => 0x20_0000int,
            PageSize::Size1GiB => 0x4000_0000int,
        }
    }

    pub fn size_bytes(self) -> (r: usize)
        ensures
            r == self.bytes(),
    {
        match self {
            PageSize::Size4KiB => 4096,
            PageSize::Size2MiB => 2 * 1024 * 1024,
            PageSize::Size1GiB => 1024 * 1024 * 1024,
        }
    }
}

/// The `Address` trait abstracts over the address types a page can have.
pub trait Address: Copy + Sized {
    /// The address as a number.
    spec fn value(&self) -> u64;

    /// Whether `v` is an address of this type.
    spec fn valid(v: u64) -> bool;

    fn as_u64(self) -> (r: u64)
        ensures
            r == self.value(),
    ;

    /// The address rounded down to a multiple of the power of two `align`;
    /// rounding keeps an address of this type valid.
    fn align_down(self, align: u64) -> (r: Self)
        requires
            is_power_of_two(align),
            align <= 0x4000_0000,
        ensures
            r.value() == align_down_spec(self.value(), align),
    ;

    /// The address `n` bytes further on.
    fn add_bytes(self, n: usize) -> (r: Self)
        requires
            self.value() + n <= u64::MAX,
            Self::valid((self.value() + n) as u64),
        ensures
            r.value() == self.value() + n,
    ;
}

impl Address for KernPhysAddr {
    open spec fn value(&self) -> u64 {
        self.0
    }

    open spec fn valid(v: u64) -> bool {
        in_physical_mapping(v as int)
    }

    fn as_u64(self) -> (r: u64) {
        self.0
    }

    fn align_down(self, align: u64) -> (r: KernPhysAddr) {
        KernPhysAddr::align_down(self, align)
    }

    fn add_bytes(self, n: usize) -> (r: KernPhysAddr) {
        self.add(n as u64)
    }
}

impl Address for PhysAddr {
    open spec fn value(&self) -> u64 {
        self.0
    }

    open spec fn valid(v: u64) -> bool {
        phys_addr_valid(v)
    }

    fn as_u64(self) -> (r: u64) {
        self.0
    }

    fn align_down(self, align: u64) -> (r: PhysAddr) {
        PhysAddr(self.0 & !(align - 1))
    }

    fn add_bytes(self, n: usize) -> (r: PhysAddr) {
        PhysAddr::new(self.0 + n as u64)
    }
}

impl Address for VirtAddr {
    open spec fn value(&self) -> u64 {
        self.0
    }

    open spec fn valid(v: u64) -> bool {
        virt_addr_valid(v) && canonical(v) == v
    }

    fn as_u64(self) -> (r: u64) {
        self.0
    }

    fn align_down(self, align: u64) -> (r: VirtAddr) {
        VirtAddr(self.0 & !(align - 1))
    }

    fn add_bytes(self, n: usize) -> (r: VirtAddr) {
        VirtAddr::new(self.0 + n as u64)
    }
}

/// Whether `addr` is a multiple of `size`.
pub open spec fn aligned(addr: u64, size: int) -> bool {
    addr as int % size == 0
}

/// A page of memory: its start address and its size.
#[derive(Debug, Clone, Copy)]
pub struct Page<A> {
    pub start_addr: A,
    pub size: PageSize,
}

impl<A: Address> Page<A> {
    /// The page that starts at `start_addr`, which must be aligned to the
    /// page size.
    pub fn from_start_addr(start_addr: A, size: PageSize) -> (r: Page<A>)
        requires
            aligned(start_addr.value(), size.bytes()),
        ensures
            r.start_addr == start_addr,
            r.size == size,
    {
        Page { start_addr, size }
    }

    /// The page of the given size that contains `addr`.
    pub fn containing_address(addr: A, size: PageSize) -> (r: Page<A>)
        ensures
            r.start_addr.value() == align_down_spec(addr.value(), size.bytes() as u64),
            r.size == size,
    {
        let align = size.size_bytes() as u64;
        proof {
            assert(4096u64 & 4095u64 == 0 && 0x20_0000u64 & 0x1F_FFFFu64 == 0 && 0x4000_0000u64
                & 0x3FFF_FFFFu64 == 0) by (bit_vector);
        }
        let start_addr = addr.align_down(align);
        Page { start_addr, size }
    }

    pub fn start_addr(&self) -> (r: A)
        ensures
            r == self.start_addr,
    {
        self.start_addr
    }

    pub fn size(&self) -> (r: PageSize)
        ensures
            r == self.size,
    {
        self.size
    }
}

/// A range of pages of one size, starting at a page.
#[derive(Debug)]
pub struct PageRange<A> {
    pub start: Page<A>,
    pub num_pages: usize,
}

impl<A: Address> PageRange<A> {
    pub fn new(start: Page<A>, num_pages: usize) -> (r: PageRange<A>)
        ensures
            r.start == start,
            r.num_pages == num_pages,
    {
        PageRange { start, num_pages }
    }

    /// The pages from `start` on that hold `num_bytes` bytes.
    pub fn from_bytes_inclusive(start: Page<A>, num_bytes: usize) -> (r: PageRange<A>)
        ensures
            r.start == start,
            r.num_pages == crate::bitmap_alloc::bootstrap::ceil_div(num_bytes as int, start.size.bytes()),
    {
        let num_pages = crate::bitmap_alloc::bootstrap::ceil_div_exec(num_bytes, start.size.size_bytes());
        PageRange { start, num_pages }
    }

    pub fn start_addr(&self) -> (r: A)
        ensures
            r == self.start.start_addr,
    {
        self.start.start_addr
    }

    pub fn page_size(&self) -> (r: PageSize)
        ensures
            r == self.start.size,
    {
        self.start.size
    }

    pub fn num_pages(&self) -> (r: usize)
        ensures
            r == self.num_pages,
    {
        self.num_pages
    }

    /// Start address of page `i` of the range.
    pub open spec fn page_start(&self, i: int) -> int {
        self.start.start_addr.value() + i * self.start.size.bytes()
    }

    /// Whether every page of the range has a start address of its type.
    pub open spec fn addressable(&self) -> bool {
        forall|i: int|
            0 <= i < self.num_pages ==> self.page_start(i) <= u64::MAX && #[trigger] A::valid(
                self.page_start(i) as u64,
            ) && i * self.start.size.bytes() <= usize::MAX
    }

    pub fn iter(&self) -> (r: PageRangeIter<A>)
        ensures
            r.start == self.start,
            r.num_pages == self.num_pages,
            r.current_page == 0,
    {
        PageRangeIter { start: self.start, num_pages: self.num_pages, current_page: 0 }
    }
}

/// Walks the pages of a range, in order.
pub struct PageRangeIter<A> {
    pub start: Page<A>,
    pub num_pages: usize,
    pub current_page: usize,
}

impl<A: Address> PageRangeIter<A> {
    /// The next page of the range, or `None` past its end.
    pub fn next(&mut self) -> (r: Option<Page<A>>)
        requires
            (PageRange { start: old(self).start, num_pages: old(self).num_pages }).addressable(),
        ensures
            final(self).start == old(self).start,
            final(self).num_pages == old(self).num_pages,
            old(self).current_page >= old(self).num_pages ==> r is None && final(self).current_page
                == old(self).current_page,
            old(self).current_page < old(self).num_pages ==> {
                &&& final(self).current_page == old(self).current_page + 1
                &&& r matches Some(p) && p.size == old(self).start.size && p.start_addr.value()
                    == old(self).start.start_addr.value() + old(self).current_page
                    * old(self).start.size.bytes()
            },
    {
        if self.current_page >= self.num_pages {
            return None;
        }
        let ghost range = PageRange { start: self.start, num_pages: self.num_pages };
        assert(A::valid(range.page_start(self.current_page as int) as u64));
        let offset = self.current_page * self.start.size.size_bytes();
        let start_addr = self.start.start_addr.add_bytes(offset);
        let page = Page { start_addr, size: self.start.size };
        self.current_page += 1;
        Some(page)
    }
}

} // verus!
