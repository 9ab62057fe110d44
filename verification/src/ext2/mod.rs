//! Pure code for interacting with ext2 filesystems.
//!
//! # Resources
//!
//! - <https://wiki.osdev.org/Ext2>
//! - <https://www.nongnu.org/ext2-doc/ext2.html>
//! - <https://en.wikipedia.org/wiki/Ext2>

pub mod block_group;
pub mod directory;
pub mod file_system;
pub mod inode;
pub mod reader;
pub mod strings;
pub mod superblock;

pub use self::inode::{BlockAddress, Inode, InodeDirectBlockIterator, InodeDirectBlocks, InodeMode};
pub use self::block_group::{Bitmap, BlockBitmap, BlockGroupDescriptor, InodeBitmap};
pub use self::directory::{
    DirectoryBlock, DirectoryBlockIterator, DirectoryEntry, DirectoryEntryFileType, DirectoryEntryHeader,
    LoadedDirectoryBlock,
};
pub use self::file_system::FileSystem;
pub use self::reader::{BlockReader, FilesystemReader, MemoryBlockReader};
pub use self::superblock::{BlockGroupIndex, InodeNumber, LocalInodeIndex, OffsetBytes, Superblock};
