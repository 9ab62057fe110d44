# rust_os

The verified core of a small x86_64 hobby kernel, written in Verus.

- `src/` is the library, every function of it proved against its contract:
  the page bitmap allocator and its bootstrapping from a memory map
  (`bitmap_alloc`), addresses, pages, page table entries, the physical page
  allocator and the four-level page table walk (`memory`), ext2 on-disk
  structures, a read-only reader and the kernel's file system operations
  (`ext2`), the block layer (`block`), ELF executable headers (`elf`, which
  calls the `elf` crate), PCI configuration space decoding (`pci`, `devices`),
  FAT boot sectors (`fat`), totals of the boot loader's memory map
  (`boot_info`), and the register encodings of the local APIC,
  I/O APIC and HPET, ANSI escape sequences and the sysfs file reader.
- `tests/` runs the library on concrete values.
- `app/` holds two command-line tools over the file system code: one prints an
  ext2 disk image's superblock, root directory and an inode, the other a FAT
  disk image's BIOS parameter block.
