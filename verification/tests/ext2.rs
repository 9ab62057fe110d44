use rust_os::block::{BlockDevice, MemoryBlockDevice};
use rust_os::ext2::directory::DIRECTORY_ENTRY_HEADER_SIZE;
use rust_os::ext2::file_system::FileSystem;
use rust_os::ext2::strings::c_str_from_bytes;
use rust_os::ext2::{
    DirectoryBlock, DirectoryEntryFileType, DirectoryEntryHeader, FilesystemReader, Inode, InodeBitmap,
    InodeNumber, LoadedDirectoryBlock, LocalInodeIndex, MemoryBlockReader, Superblock,
};

const BLOCK: usize = 1024;

fn put_u16(bytes: &mut [u8], off: usize, v: u16) {
    bytes[off..off + 2].copy_from_slice(&v.to_le_bytes());
}

fn put_u32(bytes: &mut [u8], off: usize, v: u32) {
    bytes[off..off + 4].copy_from_slice(&v.to_le_bytes());
}

fn put_entry(block: &mut [u8], off: usize, inode: u32, rec_len: u16, name: &str, file_type: u8) {
    put_u32(block, off, inode);
    put_u16(block, off + 4, rec_len);
    block[off + 6] = name.len() as u8;
    block[off + 7] = file_type;
    block[off + 8..off + 8 + name.len()].copy_from_slice(name.as_bytes());
}

/// A one-group file system of 16 blocks of 1 KiB: superblock in block 1,
/// descriptors in block 2, inode bitmap in block 4, inode table in blocks 5
/// and 6, and the root directory's entries in block 10. Inodes 1 and 2 are
/// in use.
fn test_image() -> Vec<u8> {
    let mut disk = vec![0u8; 16 * BLOCK];
    let sb = BLOCK;
    put_u32(&mut disk, sb, 16); // inodes_count
    put_u32(&mut disk, sb + 4, 16); // blocks_count
    put_u32(&mut disk, sb + 16, 5); // free_inodes_count
    put_u32(&mut disk, sb + 20, 1); // first_data_block
    put_u32(&mut disk, sb + 24, 0); // log_block_size
    put_u32(&mut disk, sb + 32, 8192); // blocks_per_group
    put_u32(&mut disk, sb + 40, 16); // inodes_per_group
    put_u16(&mut disk, sb + 52, 3); // mount_count
    put_u16(&mut disk, sb + 56, 0xEF53); // magic
    put_u32(&mut disk, sb + 76, 1); // rev_level
    put_u16(&mut disk, sb + 88, 128); // inode_size

    let bgd = 2 * BLOCK;
    put_u32(&mut disk, bgd, 3); // block_bitmap
    put_u32(&mut disk, bgd + 4, 4); // inode_bitmap
    put_u32(&mut disk, bgd + 8, 5); // inode_table
    put_u16(&mut disk, bgd + 14, 5); // free_inodes_count

    disk[4 * BLOCK] = 0b0000_0011;

    let root = 5 * BLOCK + 128;
    put_u16(&mut disk, root, 0x41ED); // directory, rwxr-xr-x
    put_u16(&mut disk, root + 2, 1000); // uid
    put_u32(&mut disk, root + 4, 1024); // size_low
    put_u16(&mut disk, root + 24, 100); // gid
    put_u16(&mut disk, root + 26, 2); // links_count
    put_u32(&mut disk, root + 40, 10); // first direct block

    let dir = 10 * BLOCK;
    put_entry(&mut disk[dir..dir + BLOCK], 0, 2, 12, ".", 2);
    put_entry(&mut disk[dir..dir + BLOCK], 12, 2, 1012, "..", 2);
    disk
}

fn root_directory_block() -> Vec<u8> {
    let mut block = vec![0u8; BLOCK];
    put_entry(&mut block, 0, 2, 12, ".", 2);
    put_entry(&mut block, 12, 2, 1012, "..", 2);
    block
}

#[test]
fn magic_check() {
    let mut bytes = [0u8; 1024];
    bytes[56] = 0x53;
    bytes[57] = 0xEF;
    let superblock = Superblock::from_bytes(&bytes);
    assert!(superblock.magic_valid());
}

#[test]
fn magic_check_fails_on_zeroes() {
    let bytes = [0u8; 1024];
    assert!(!Superblock::from_bytes(&bytes).magic_valid());
}

#[test]
fn superblock_geometry() {
    let disk = test_image();
    let superblock = Superblock::from_bytes(&disk[1024..2048]);
    assert_eq!(superblock.block_size(), 1024);
    assert_eq!(superblock.num_block_groups(), 1);
    assert_eq!(superblock.block_descriptor_table_start_block().0, 2);
    let (group, local) = superblock.inode_location(InodeNumber(2));
    assert_eq!((group.0, local.0), (0, 1));
    assert_eq!(superblock.inode_number(group, local), InodeNumber(2));
    let (block, offset) = superblock.inode_block_and_offset(rust_os::ext2::BlockAddress(5), LocalInodeIndex(9));
    assert_eq!((block.0, offset.0), (6, 128));
}

#[test]
fn reader_reads_root_directory() {
    let mut reader = FilesystemReader::read(MemoryBlockReader::new(test_image())).expect("valid ext2 image");
    let root = reader.read_root();
    assert!(root.is_dir());
    assert!(!root.is_file());
    assert_eq!(root.uid, 1000);
    let entries = reader.read_directory(&root);
    let names: Vec<&str> = entries.iter().map(|e| e.name.as_str()).collect();
    assert_eq!(names, vec![".", ".."]);
    assert!(entries.iter().all(|e| e.is_dir()));
    assert_eq!(reader.read_inode(InodeNumber(3)).map(|i| i.mode.0), None);
}

#[test]
fn reader_refuses_bad_magic() {
    let mut disk = test_image();
    disk[1024 + 56] = 0;
    assert!(FilesystemReader::read(MemoryBlockReader::new(disk)).is_none());
}

#[test]
fn directory_block_entries() {
    let block = DirectoryBlock(root_directory_block());
    let entries = block.entries();
    assert_eq!(entries.len(), 2);
    assert_eq!(entries[1].name, "..");
    assert_eq!(entries[1].header.rec_len, 1012);
    assert_eq!(entries[1].header.file_type, DirectoryEntryFileType::Directory);
}

#[test]
fn directory_insert_entry_splits_last_record() {
    let mut block = LoadedDirectoryBlock::from_existing_block(root_directory_block());
    let entry = block.insert_entry("hello", InodeNumber(3), DirectoryEntryFileType::RegularFile).expect("room in the block");
    assert_eq!(entry.name, "hello");
    assert_eq!(entry.header.inode, InodeNumber(3));
    assert_eq!(entry.header.name_len, 5);
    // ".." needs 12 bytes, so the new entry starts at 24 and takes the
    // remaining 1000 bytes.
    assert_eq!(entry.header.rec_len, 1000);
    // The new entry is listed where ".." was, and ".." moves down the list.
    let listed = block.entries();
    let names: Vec<&str> = listed.iter().map(|e| e.name.as_str()).collect();
    assert_eq!(names, vec![".", "hello", ".."]);
    assert_eq!(listed[2].header.rec_len, 12);
    assert!(listed[1].is_file());
    // On disk, the chain runs ".", "..", then the new entry.
    let chain = DirectoryBlock(block.data().clone()).entries();
    let names: Vec<&str> = chain.iter().map(|e| e.name.as_str()).collect();
    assert_eq!(names, vec![".", "..", "hello"]);
}

#[test]
fn directory_second_insert_searches_the_list() {
    let mut block = LoadedDirectoryBlock::from_existing_block(root_directory_block());
    block.insert_entry("hello", InodeNumber(3), DirectoryEntryFileType::RegularFile).expect("room");
    // "hello" is now listed before "..", and its record has the spare room.
    block.insert_entry("a", InodeNumber(4), DirectoryEntryFileType::Directory).expect("room");
    let listed = block.entries();
    let names: Vec<&str> = listed.iter().map(|e| e.name.as_str()).collect();
    assert_eq!(names, vec![".", "a", "hello", ".."]);
    assert_eq!(listed[2].header.rec_len, 16);
    assert_eq!(listed[1].header.rec_len, 984);
    assert!(listed[1].is_dir());
}

#[test]
fn directory_insert_entry_without_room() {
    let mut raw = vec![0u8; 16];
    put_entry(&mut raw, 0, 2, 16, "abcdefgh", 1);
    let mut block = LoadedDirectoryBlock::from_existing_block(raw.clone());
    assert!(block.insert_entry("x", InodeNumber(7), DirectoryEntryFileType::RegularFile).is_none());
    assert_eq!(block.data(), &raw);
    assert_eq!(block.entries().len(), 1);
}

#[test]
fn directory_entry_header_required_space() {
    let header = DirectoryEntryHeader::new(InodeNumber(1), "abcde", DirectoryEntryFileType::Fifo);
    assert_eq!(header.required_space(), 16);
    assert_eq!(DIRECTORY_ENTRY_HEADER_SIZE, 8);
    assert_eq!(DirectoryEntryFileType::from_u8(5), DirectoryEntryFileType::Fifo);
    assert_eq!(DirectoryEntryFileType::SymbolicLink.as_u8(), 7);
}

#[test]
fn inode_write_then_read_round_trip() {
    let disk = test_image();
    let root = Inode::from_bytes(&disk[5 * BLOCK + 128..5 * BLOCK + 256]);
    let mut bytes = vec![0xAAu8; 300];
    root.write_to(&mut bytes, 100);
    assert_eq!(&bytes[100..228], &disk[5 * BLOCK + 128..5 * BLOCK + 256]);
    assert_eq!(bytes[99], 0xAA);
    assert_eq!(bytes[228], 0xAA);
    let back = Inode::from_bytes(&bytes[100..228]);
    assert_eq!(back.mode.0, 0x41ED);
    assert_eq!(back.direct_blocks.0[0].0, 10);
}

#[test]
fn inode_bitmap_reserves_first_free() {
    let mut bitmap = InodeBitmap::new(vec![0b1011_1111, 0]);
    assert_eq!(bitmap.is_used(LocalInodeIndex(6)), Some(false));
    assert_eq!(bitmap.reserve_next_free(), Some(LocalInodeIndex(6)));
    assert_eq!(bitmap.is_used(LocalInodeIndex(6)), Some(true));
    assert_eq!(bitmap.reserve_next_free(), Some(LocalInodeIndex(8)));
    assert_eq!(bitmap.is_used(LocalInodeIndex(16)), None);
}

#[test]
fn c_strings() {
    assert_eq!(c_str_from_bytes(b"root\0\0\0"), "root");
    assert_eq!(c_str_from_bytes(b"abc"), "abc");
}

fn mount(disk: Vec<u8>) -> FileSystem<MemoryBlockDevice> {
    FileSystem::read(BlockDevice::new(MemoryBlockDevice { sector_size: 512, bytes: disk })).expect("valid ext2 image")
}

#[test]
fn file_system_mount_increases_mount_count() {
    let fs = mount(test_image());
    assert_eq!(fs.superblock().mount_count, 4);
    assert_eq!(&fs.device.driver.bytes[1024 + 52..1024 + 54], &[4, 0]);
    assert_eq!(fs.num_block_groups, 1);
}

#[test]
fn file_system_mount_refuses_bad_magic() {
    let mut disk = test_image();
    disk[1024 + 57] = 0;
    let device = BlockDevice::new(MemoryBlockDevice { sector_size: 512, bytes: disk });
    assert!(FileSystem::read(device).is_none());
}

#[test]
fn file_system_reads_inodes() {
    let fs = mount(test_image());
    let (root, number) = fs.read_root();
    assert_eq!(number, InodeNumber(2));
    assert!(root.is_dir());
    assert_eq!(fs.inode_size(&root), 1024);
    assert!(fs.read_inode(InodeNumber(3)).is_none());
    assert!(fs.read_inode(InodeNumber(17)).is_none());
}

#[test]
fn file_system_create_file_reserves_and_writes_inode() {
    let mut fs = mount(test_image());
    let (root, number) = fs.read_root();
    assert!(fs.create_file(&root, number, "hello").is_none());

    let disk = &fs.device.driver.bytes;
    assert_eq!(disk[4 * BLOCK], 0b0000_0111);
    assert_eq!(&disk[2 * BLOCK + 14..2 * BLOCK + 16], &[4, 0]);
    assert_eq!(&disk[1024 + 16..1024 + 20], &[4, 0, 0, 0]);
    assert_eq!(fs.superblock().free_inodes_count, 4);

    let created = fs.read_inode(InodeNumber(3)).expect("inode 3 is now in use");
    assert_eq!(created.mode.0, 0x81A4);
    assert!(created.is_file());
    assert_eq!(created.uid, 1000);
    assert_eq!(created.gid, 100);
    assert_eq!(created.links_count, 1);
    assert_eq!(created.direct_blocks.0[0].0, 0);
}

#[test]
fn file_system_create_file_when_group_is_full() {
    let mut disk = test_image();
    disk[4 * BLOCK..5 * BLOCK].fill(0xFF);
    let mut fs = mount(disk);
    let before = fs.device.driver.bytes.clone();
    let (root, number) = fs.read_root();
    assert!(fs.create_file(&root, number, "hello").is_none());
    assert_eq!(fs.device.driver.bytes, before);
    assert_eq!(fs.superblock().free_inodes_count, 5);
}

#[test]
fn file_system_append_to_inode_data() {
    let mut fs = mount(test_image());
    let (root, _) = fs.read_root();
    // The size is 1024, a whole block, so appending starts at byte 1.
    fs.append_to_inode_data(&root, b"xyz");
    assert_eq!(&fs.device.driver.bytes[10 * BLOCK + 1..10 * BLOCK + 4], b"xyz");
    let before = fs.device.driver.bytes.clone();
    fs.append_to_inode_data(&root, &[7u8; 1024]);
    assert_eq!(fs.device.driver.bytes, before);
}

#[test]
fn directory_chain_readable_checks_record_lengths() {
    assert!(DirectoryBlock(root_directory_block()).chain_readable());
    let mut zero_rec_len = root_directory_block();
    put_u16(&mut zero_rec_len, 12 + 4, 0);
    assert!(!DirectoryBlock(zero_rec_len).chain_readable());
    let mut name_past_end = root_directory_block();
    put_u16(&mut name_past_end, 4, 1000);
    name_past_end[1000 + 6] = 200;
    assert!(!DirectoryBlock(name_past_end).chain_readable());
    let mut bad_type = root_directory_block();
    bad_type[7] = 8;
    assert!(!DirectoryBlock(bad_type).chain_readable());
}

#[test]
fn reader_directory_readable() {
    let mut reader = FilesystemReader::read(MemoryBlockReader::new(test_image())).expect("valid ext2 image");
    let root = reader.read_root();
    assert!(reader.directory_readable(&root));
    let mut disk = test_image();
    put_u16(&mut disk, 10 * BLOCK + 4, 0);
    let mut broken = FilesystemReader::read(MemoryBlockReader::new(disk)).expect("valid ext2 image");
    let root = broken.read_root();
    assert!(!broken.directory_readable(&root));
}

#[test]
fn inode_file_formats() {
    let mut bytes = [0u8; 128];
    for (mode, dir, file) in [(0x41EDu16, true, false), (0x81A4, false, true), (0x6000, false, false), (0xC000, false, false), (0xA1FF, false, false)] {
        put_u16(&mut bytes, 0, mode);
        let inode = Inode::from_bytes(&bytes);
        assert_eq!(inode.is_dir(), dir, "mode {mode:#x}");
        assert_eq!(inode.is_file(), file, "mode {mode:#x}");
    }
}

#[test]
fn reader_keeps_its_superblock() {
    let mut reader = FilesystemReader::read(MemoryBlockReader::new(test_image())).expect("valid ext2 image");
    let before = *reader.superblock();
    let root = reader.read_root();
    let _ = reader.read_inode(InodeNumber(1));
    let _ = reader.read_directory(&root);
    reader.iter_directory(&root, |_| {});
    let after = reader.superblock();
    assert!(after.magic_valid());
    assert_eq!(after.mount_count, before.mount_count);
    assert_eq!(after.inodes_per_group, before.inodes_per_group);
    assert_eq!(after.uuid, before.uuid);
}
