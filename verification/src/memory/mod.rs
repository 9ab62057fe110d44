//! Memory management: addresses, pages, page table entries, and the
//! kernel's physical page allocator.

pub mod address;
pub mod page;
pub mod page_table;
pub mod physical;
pub mod tables;

pub use self::address::{KernPhysAddr, PhysAddr, VirtAddr};
pub use self::page::{Address, Page, PageRange, PageRangeIter, PageSize};
