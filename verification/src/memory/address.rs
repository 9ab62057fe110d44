//! Physical and virtual addresses of x86_64, and physical addresses as seen
//! through the kernel's mapping of all physical memory.

use vstd::prelude::*;

verus! {

/// Start of the higher half of the virtual address space.
pub const HIGHER_HALF_START: u64 = 0xffff_8000_0000_0000;

/// The kernel maps all physical memory starting at this virtual address.
pub const KERNEL_PHYSICAL_MAPPING_START: u64 = 0xffff_8000_0000_0000;

/// Last address of the kernel's mapping of physical memory.
pub const KERNEL_PHYSICAL_MAPPING_END: u64 = 0xffff_b777_7777_7777;

/// Physical addresses have 52 bits.
pub open spec fn phys_addr_valid(addr: u64) -> bool {
    addr < 0x10_0000_0000_0000
}

/// Whether `align` is a power of two.
pub open spec fn is_power_of_two(align: u64) -> bool {
    align != 0 && align & ((align - 1) as u64) == 0
}

/// `addr` rounded down to a multiple of the power of two `align`.
pub open spec fn align_down_spec(addr: u64, align: u64) -> u64 {
    addr & !((align - 1) as u64)
}

/// A 52-bit physical address.
#[derive(Debug, Clone, Copy, PartialEq, Eq, Structural)]
pub struct PhysAddr(pub u64);

impl PhysAddr {
    /// The physical address `addr`, which must not have any bit in the range
    /// 52 to 64 set.
    pub fn new(addr: u64) -> (r: PhysAddr)
        requires
            phys_addr_valid(addr),
        ensures
            r.0 == addr,
    {
        PhysAddr(addr)
    }

    pub fn as_u64(self) -> (r: u64)
        ensures
            r == self.0,
    {
        self.0
    }
}

/// Bits 47 to 63 of a virtual address.
pub open spec fn virt_top_bits(addr: u64) -> u64 {
    addr >> 47u64
}

/// A virtual address can be made canonical when bits 47 to 63 are all clear,
/// all set, or only bit 47 is set (then bit 47 is copied up).
pub open spec fn virt_addr_valid(addr: u64) -> bool {
    virt_top_bits(addr) == 0 || virt_top_bits(addr) == 0x1ffff || virt_top_bits(addr) == 1
}

/// The canonical form of a virtual address: bit 47 copied into bits 48 to 63.
pub open spec fn canonical(addr: u64) -> u64 {
    if (addr >> 47u64) & 1 == 1 {
        addr | 0xffff_0000_0000_0000
    } else {
        addr & 0x0000_ffff_ffff_ffff
    }
}

/// A canonical 64-bit virtual address.
#[derive(Debug, Clone, Copy, PartialEq, Eq, Structural)]
pub struct VirtAddr(pub u64);

impl VirtAddr {
    /// The canonical virtual address for `addr`, which must not contain data
    /// in bits 48 to 64.
    pub fn new(addr: u64) -> (r: VirtAddr)
        requires
            virt_addr_valid(addr),
        ensures
            r.0 == canonical(addr),
    {
        let top: u64 = addr >> 47u64;
        if top == 1 {
            assert(canonical(addr) == addr | 0xffff_0000_0000_0000) by (bit_vector)
                requires
                    top == addr >> 47u64,
                    top == 1,
            ;
            VirtAddr(addr | 0xffff_0000_0000_0000)
        } else {
            assert(top == 0 || top == 0x1ffff);
            assert(canonical(addr) == addr) by (bit_vector)
                requires
                    top == addr >> 47u64,
                    top == 0 || top == 0x1ffff,
            ;
            VirtAddr(addr)
        }
    }

    /// The canonical virtual address for `addr`, or `None` if `addr` holds
    /// data in bits 48 to 64.
    pub fn try_new(addr: u64) -> (r: Option<VirtAddr>)
        ensures
            r == (if virt_addr_valid(addr) {
                Some(VirtAddr(canonical(addr)))
            } else {
                None
            }),
    {
        let top: u64 = addr >> 47u64;
        if top == 0 || top == 0x1ffff || top == 1 {
            Some(VirtAddr::new(addr))
        } else {
            None
        }
    }

    pub fn as_u64(self) -> (r: u64)
        ensures
            r == self.0,
    {
        self.0
    }
}

/// Whether `addr` lies in the kernel's mapping of physical memory.
pub open spec fn in_physical_mapping(addr: int) -> bool {
    KERNEL_PHYSICAL_MAPPING_START <= addr <= KERNEL_PHYSICAL_MAPPING_END
}

/// Physical address that has been mapped to the kernel physical address
/// space. A `KernPhysAddr` is converted to and from a `PhysAddr` by the
/// `KERNEL_PHYSICAL_MAPPING_START` offset.
#[derive(Debug, Clone, Copy, PartialEq, Eq, Structural)]
pub struct KernPhysAddr(pub u64);

impl KernPhysAddr {
    pub fn new(addr: u64) -> (r: KernPhysAddr)
        requires
            in_physical_mapping(addr as int),
        ensures
            r.0 == addr,
    {
        KernPhysAddr(addr)
    }

    pub fn as_u64(self) -> (r: u64)
        ensures
            r == self.0,
    {
        self.0
    }

    /// The physical address that this address maps.
    pub fn to_phys_addr(self) -> (r: PhysAddr)
        requires
            in_physical_mapping(self.0 as int),
        ensures
            r.0 == self.0 - KERNEL_PHYSICAL_MAPPING_START,
    {
        PhysAddr::new(self.0 - KERNEL_PHYSICAL_MAPPING_START)
    }

    /// The kernel address at which the physical address `addr` is mapped.
    pub fn from_phys_addr(addr: PhysAddr) -> (r: KernPhysAddr)
        requires
            in_physical_mapping(addr.0 + KERNEL_PHYSICAL_MAPPING_START),
        ensures
            r.0 == addr.0 + KERNEL_PHYSICAL_MAPPING_START,
    {
        KernPhysAddr::new(addr.0 + KERNEL_PHYSICAL_MAPPING_START)
    }

    /// The address rounded down to a multiple of the power of two `align`.
    pub fn align_down(self, align: u64) -> (r: KernPhysAddr)
        requires
            is_power_of_two(align),
        ensures
            r.0 == align_down_spec(self.0, align),
    {
        KernPhysAddr(self.0 & !(align - 1))
    }

    pub fn add(self, rhs: u64) -> (r: KernPhysAddr)
        requires
            in_physical_mapping(self.0 + rhs),
        ensures
            r.0 == self.0 + rhs,
    {
        KernPhysAddr::new(self.0 + rhs)
    }

    pub fn sub(self, rhs: u64) -> (r: KernPhysAddr)
        requires
            in_physical_mapping(self.0 - rhs),
        ensures
            r.0 == self.0 - rhs,
    {
        KernPhysAddr::new(self.0 - rhs)
    }
}

/// Physical addresses and their kernel mapping convert both ways.
pub proof fn lemma_phys_addr_round_trip(addr: u64)
    requires
        in_physical_mapping(addr as int),
    ensures
        in_physical_mapping((addr - KERNEL_PHYSICAL_MAPPING_START) + KERNEL_PHYSICAL_MAPPING_START),
        phys_addr_valid((addr - KERNEL_PHYSICAL_MAPPING_START) as u64),
{
}

} // verus!
