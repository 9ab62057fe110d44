//! Verified core of a small x86_64 hobby kernel: the physical page bitmap
//! allocator and its bootstrapping, ext2 on-disk structures and file system
//! operations, page table entries and the four-level page table walk (translate,
//! map, unmap), totals of the boot memory map, ELF executable headers, PCI configuration decoding, and assorted
//! device register encodings.

pub mod ansiterm;
pub mod apic;
pub mod bitmap_alloc;
pub mod block;
pub mod boot_info;
pub mod bytes;
pub mod devices;
pub mod elf;
pub mod fat;
pub mod hpet;
pub mod ioapic;
pub mod ext2;
pub mod memory;
pub mod pci;
pub mod vfs;
