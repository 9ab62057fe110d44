//! Linked directory blocks: the chain of entries that names the files of a
//! directory. See <https://www.nongnu.org/ext2-doc/ext2.html#linked-directories>

use vstd::prelude::*;
use vstd::string::StringSliceAdditionalSpecFns;
use vstd::utf8::encode_utf8;

use crate::bytes::{
    le_u16, le_u32, lemma_put_u16, lemma_put_u32, put_u16, put_u32, read_u16_le, read_u32_le,
    write_u16_le, write_u32_le,
};
use super::strings::{string_from_utf8_or, utf8_or};
use super::superblock::InodeNumber;

verus! {

#[derive(Debug, Copy, Clone, PartialEq, Eq, Structural)]
pub enum DirectoryEntryFileType {
    Unknown,
    RegularFile,
    Directory,
    CharacterDevice,
    BlockDevice,
    Fifo,
    Socket,
    SymbolicLink,
}

/// The file type that a directory entry's type byte stands for.
pub open spec fn file_type_of(raw: u8) -> DirectoryEntryFileType
    recommends
        raw <= 7,
{
    if raw == 0 {
        DirectoryEntryFileType::Unknown
    } else if raw == 1 {
        DirectoryEntryFileType::RegularFile
    } else if raw == 2 {
        DirectoryEntryFileType::Directory
    } else if raw == 3 {
        DirectoryEntryFileType::CharacterDevice
    } else if raw == 4 {
        DirectoryEntryFileType::BlockDevice
    } else if raw == 5 {
        DirectoryEntryFileType::Fifo
    } else if raw == 6 {
        DirectoryEntryFileType::Socket
    } else {
        DirectoryEntryFileType::SymbolicLink
    }
}

/// The type byte that stands for a file type.
pub open spec fn file_type_byte(t: DirectoryEntryFileType) -> u8 {
    match t {
        DirectoryEntryFileType::Unknown => 0,
        DirectoryEntryFileType::RegularFile => 1,
        DirectoryEntryFileType::Directory => 2,
        DirectoryEntryFileType::CharacterDevice => 3,
        DirectoryEntryFileType::BlockDevice => 4,
        DirectoryEntryFileType::Fifo => 5,
        DirectoryEntryFileType::Socket => 6,
        DirectoryEntryFileType::SymbolicLink => 7,
    }
}

/// Every file type stands for its byte.
pub proof fn lemma_file_type_byte_round_trip(t: DirectoryEntryFileType)
    ensures
        file_type_of(file_type_byte(t)) == t,
        file_type_byte(t) <= 7,
{
}

/// The type bytes are ext2's on-disk codes (`EXT2_FT_*`): 0 unknown, 1
/// regular file, 2 directory, 3 character device, 4 block device, 5 FIFO,
/// 6 socket, 7 symbolic link. For every byte up to 7, the decoded type is
/// the one that code names, and each type encodes as its code.
pub proof fn lemma_file_type_codes(raw: u8)
    requires
        raw <= 7,
    ensures
        (file_type_of(raw) == DirectoryEntryFileType::Unknown) == (raw == 0),
        (file_type_of(raw) == DirectoryEntryFileType::RegularFile) == (raw == 1),
        (file_type_of(raw) == DirectoryEntryFileType::Directory) == (raw == 2),
        (file_type_of(raw) == DirectoryEntryFileType::CharacterDevice) == (raw == 3),
        (file_type_of(raw) == DirectoryEntryFileType::BlockDevice) == (raw == 4),
        (file_type_of(raw) == DirectoryEntryFileType::Fifo) == (raw == 5),
        (file_type_of(raw) == DirectoryEntryFileType::Socket) == (raw == 6),
        (file_type_of(raw) == DirectoryEntryFileType::SymbolicLink) == (raw == 7),
        file_type_byte(DirectoryEntryFileType::Unknown) == 0,
        file_type_byte(DirectoryEntryFileType::RegularFile) == 1,
        file_type_byte(DirectoryEntryFileType::Directory) == 2,
        file_type_byte(DirectoryEntryFileType::CharacterDevice) == 3,
        file_type_byte(DirectoryEntryFileType::BlockDevice) == 4,
        file_type_byte(DirectoryEntryFileType::Fifo) == 5,
        file_type_byte(DirectoryEntryFileType::Socket) == 6,
        file_type_byte(DirectoryEntryFileType::SymbolicLink) == 7,
{
}

impl DirectoryEntryFileType {
    /// The file type of a type byte. Bytes above 7 stand for no type.
    pub fn from_u8(raw: u8) -> (r: DirectoryEntryFileType)
        requires
            raw <= 7,
        ensures
            r == file_type_of(raw),
            file_type_byte(r) == raw,
    {
        match raw {
            0 => DirectoryEntryFileType::Unknown,
            1 => DirectoryEntryFileType::RegularFile,
            2 => DirectoryEntryFileType::Directory,
            3 => DirectoryEntryFileType::CharacterDevice,
            4 => DirectoryEntryFileType::BlockDevice,
            5 => DirectoryEntryFileType::Fifo,
            6 => DirectoryEntryFileType::Socket,
            _ => DirectoryEntryFileType::SymbolicLink,
        }
    }

    /// The type byte of the file type.
    pub fn as_u8(self) -> (r: u8)
        ensures
            r == file_type_byte(self),
    {
        match self {
            DirectoryEntryFileType::Unknown => 0,
            DirectoryEntryFileType::RegularFile => 1,
            DirectoryEntryFileType::Directory => 2,
            DirectoryEntryFileType::CharacterDevice => 3,
            DirectoryEntryFileType::BlockDevice => 4,
            DirectoryEntryFileType::Fifo => 5,
            DirectoryEntryFileType::Socket => 6,
            DirectoryEntryFileType::SymbolicLink => 7,
        }
    }
}

/// See <https://www.nongnu.org/ext2-doc/ext2.html#linked-directory-entry-structure>
#[derive(Debug, Clone, Copy)]
pub struct DirectoryEntryHeader {
    pub inode: InodeNumber,
    pub rec_len: u16,
    pub name_len: u8,
    pub file_type: DirectoryEntryFileType,
}

/// Size of a directory entry header on disk.
pub const DIRECTORY_ENTRY_HEADER_SIZE: usize = 8;

/// Whether the bytes at `off` hold a directory entry that can be read: its
/// header and name lie inside the block, and its type byte names a type.
pub open spec fn entry_readable(block: Seq<u8>, off: int) -> bool {
    &&& 0 <= off
    &&& off + 8 <= block.len()
    &&& off + 8 + block[off + 6] <= block.len()
    &&& block[off + 7] <= 7
}

/// Whether `h` holds the header of the directory entry at `off`.
pub open spec fn parses_entry_header(block: Seq<u8>, off: int, h: DirectoryEntryHeader) -> bool {
    &&& h.inode.0 == le_u32(block, off)
    &&& h.rec_len == le_u16(block, off + 4)
    &&& h.name_len == block[off + 6]
    &&& h.file_type == file_type_of(block[off + 7])
}

/// The name bytes of the directory entry at `off`.
pub open spec fn entry_name_bytes(block: Seq<u8>, off: int) -> Seq<u8> {
    block.subrange(off + 8, off + 8 + block[off + 6])
}

#[derive(Debug, Clone)]
pub struct DirectoryEntry {
    pub header: DirectoryEntryHeader,
    pub name: String,
}

/// Whether `e` is the directory entry at `off`: its header, and its name
/// decoded as UTF-8 (or a marker for a name that is not UTF-8).
pub open spec fn parses_entry(block: Seq<u8>, off: int, e: DirectoryEntry) -> bool {
    &&& parses_entry_header(block, off, e.header)
    &&& e.name@ == utf8_or(entry_name_bytes(block, off), "<invalid UTF-8>"@)
}

impl DirectoryEntryHeader {
    pub fn from_bytes(block: &[u8], off: usize) -> (r: DirectoryEntryHeader)
        requires
            off + 8 <= block.len(),
            block@[off + 7] <= 7,
        ensures
            parses_entry_header(block@, off as int, r),
    {
        DirectoryEntryHeader {
            inode: InodeNumber(read_u32_le(block, off)),
            rec_len: read_u16_le(block, off + 4),
            name_len: block[off + 6],
            file_type: DirectoryEntryFileType::from_u8(block[off + 7]),
        }
    }
}

impl DirectoryEntry {
    /// Whether the entry names a regular file.
    pub fn is_file(&self) -> (r: bool)
        ensures
            r == (self.header.file_type == DirectoryEntryFileType::RegularFile),
    {
        self.header.file_type == DirectoryEntryFileType::RegularFile
    }

    /// Whether the entry names a directory.
    pub fn is_dir(&self) -> (r: bool)
        ensures
            r == (self.header.file_type == DirectoryEntryFileType::Directory),
    {
        self.header.file_type == DirectoryEntryFileType::Directory
    }
}

/// See <https://www.nongnu.org/ext2-doc/ext2.html#linked-directories>
#[derive(Debug, Clone)]
pub struct DirectoryBlock(pub Vec<u8>);

impl DirectoryBlock {
    pub fn iter(&self) -> (r: DirectoryBlockIterator)
        ensures
            r.block.0@ == self.0@,
            r.offset == 0,
    {
        DirectoryBlockIterator { block: DirectoryBlock(self.0.clone()), offset: 0 }
    }
}

pub struct DirectoryBlockIterator {
    pub block: DirectoryBlock,
    pub offset: usize,
}

impl DirectoryBlockIterator {
    /// The entry at the current offset, moving on by the entry's record
    /// length; `None` at the end of the block.
    pub fn next(&mut self) -> (r: Option<DirectoryEntry>)
        requires
            old(self).offset < old(self).block.0@.len() ==> entry_readable(
                old(self).block.0@,
                old(self).offset as int,
            ) && old(self).offset + le_u16(old(self).block.0@, old(self).offset + 4) <= usize::MAX,
        ensures
            final(self).block.0@ == old(self).block.0@,
            old(self).offset >= old(self).block.0@.len() ==> r is None && final(self).offset == old(
                self,
            ).offset,
            old(self).offset < old(self).block.0@.len() ==> {
                &&& r is Some
                &&& parses_entry(old(self).block.0@, old(self).offset as int, r->0)
                &&& final(self).offset == old(self).offset + r->0.header.rec_len
            },
    {
        if self.offset >= self.block.0.len() {
            return None;
        }

        let header = DirectoryEntryHeader::from_bytes(self.block.0.as_slice(), self.offset);

        let name_start = self.offset + DIRECTORY_ENTRY_HEADER_SIZE;
        let name_end = name_start + header.name_len as usize;
        let name_slice = slice_subrange(self.block.0.as_slice(), name_start, name_end);
        let name = string_from_utf8_or(name_slice, "<invalid UTF-8>");

        self.offset += header.rec_len as usize;

        let entry = DirectoryEntry { header, name };

        Some(entry)
    }
}

/// How far the entry at `off` is from the end of the block.
pub open spec fn chain_measure(block: Seq<u8>, off: int) -> nat {
    if off >= block.len() {
        0
    } else {
        (block.len() - off) as nat
    }
}

/// Whether the chain of entries from `off` on can be followed to the end of
/// the block: each entry can be read and has a non-zero record length.
pub open spec fn dir_chain_ok(block: Seq<u8>, off: int) -> bool
    decreases chain_measure(block, off),
{
    if off < 0 {
        false
    } else if off >= block.len() {
        true
    } else if !entry_readable(block, off) || le_u16(block, off + 4) == 0 {
        false
    } else {
        dir_chain_ok(block, off + le_u16(block, off + 4))
    }
}

/// The offsets of the entries of the chain from `off` on.
pub open spec fn chain_offsets(block: Seq<u8>, off: int) -> Seq<int>
    decreases chain_measure(block, off),
{
    if off < 0 || off >= block.len() {
        Seq::empty()
    } else if !entry_readable(block, off) || le_u16(block, off + 4) == 0 {
        Seq::empty()
    } else {
        seq![off] + chain_offsets(block, off + le_u16(block, off + 4))
    }
}

impl DirectoryBlock {
    /// The entries of the block, in chain order.
    pub fn entries(&self) -> (r: Vec<DirectoryEntry>)
        requires
            dir_chain_ok(self.0@, 0),
            self.0@.len() + 0x1_0000 <= usize::MAX,
        ensures
            r@.len() == chain_offsets(self.0@, 0).len(),
            forall|k: int|
                0 <= k < r@.len() ==> parses_entry(self.0@, chain_offsets(self.0@, 0)[k], #[trigger] r@[k]),
    {
        let block = &self.0;
        let mut iter = self.iter();
        let mut r: Vec<DirectoryEntry> = Vec::new();
        let ghost mut done: Seq<int> = Seq::empty();
        loop
            invariant
                iter.block.0@ == self.0@,
                self.0@.len() + 0x1_0000 <= usize::MAX,
                dir_chain_ok(self.0@, iter.offset as int),
                chain_offsets(self.0@, 0) == done + chain_offsets(self.0@, iter.offset as int),
                r@.len() == done.len(),
                forall|k: int| 0 <= k < r@.len() ==> parses_entry(self.0@, done[k], #[trigger] r@[k]),
            decreases chain_measure(self.0@, iter.offset as int),
        {
            let ghost before = iter.offset as int;
            match iter.next() {
                Some(entry) => {
                    proof {
                        assert(chain_offsets(self.0@, before) == seq![before] + chain_offsets(
                            self.0@,
                            iter.offset as int,
                        ));
                        done = done.push(before);
                        assert(chain_offsets(self.0@, 0) =~= done + chain_offsets(self.0@, iter.offset as int));
                    }
                    r.push(entry);
                },
                None => {
                    assert(chain_offsets(self.0@, before) =~= Seq::<int>::empty());
                    assert(done =~= chain_offsets(self.0@, 0));
                    return r;
                },
            }
        }
    }

    /// Whether the chain of entries can be followed to the end of the block,
    /// as `entries` needs.
    pub fn chain_readable(&self) -> (r: bool)
        requires
            self.0@.len() + 0x1_0000 <= usize::MAX,
        ensures
            r == dir_chain_ok(self.0@, 0),
    {
        let block = &self.0;
        let len = block.len();
        let mut off: usize = 0;
        while off < len
            invariant
                len == block@.len(),
                block@ == self.0@,
                len + 0x1_0000 <= usize::MAX,
                off <= len + 0xFFFF,
                dir_chain_ok(block@, 0) == dir_chain_ok(block@, off as int),
            decreases chain_measure(block@, off as int),
        {
            if len - off < 8 {
                return false;
            }
            if len - off - 8 < block[off + 6] as usize || block[off + 7] > 7 {
                return false;
            }
            let rec_len = read_u16_le(block.as_slice(), off + 4);
            if rec_len == 0 {
                return false;
            }
            off = off + rec_len as usize;
        }
        true
    }
}

/// The bytes `start .. end` of the slice.
pub fn slice_subrange(bytes: &[u8], start: usize, end: usize) -> (r: &[u8])
    requires
        start <= end <= bytes@.len(),
    ensures
        r@ == bytes@.subrange(start as int, end as int),
{
    vstd::slice::slice_subrange(bytes, start, end)
}


/// Space that a directory entry with a name of `name_len` bytes takes up:
/// its header and name, rounded up to a multiple of 4 bytes. From
/// <https://www.nongnu.org/ext2-doc/ext2.html#ifdir-rec-len>: directory
/// entries must be aligned on 4 bytes boundaries and there cannot be any
/// directory entry spanning multiple data blocks.
pub open spec fn required_space_spec(name_len: int) -> int {
    (8 + name_len + 3) / 4 * 4
}

/// Record length of the entry at `off`.
pub open spec fn rec_len_at(block: Seq<u8>, off: int) -> int {
    le_u16(block, off + 4) as int
}

/// Space that the record at `off` has beyond what its entry needs.
pub open spec fn slack_at(block: Seq<u8>, off: int) -> int {
    rec_len_at(block, off) - required_space_spec(block[off + 6] as int)
}

/// Whether the chain of entries from `off` on is sound: each entry can be
/// read, its record holds it and stays inside the block, and the chain ends
/// exactly at the end of the block.
pub open spec fn dir_chain_wf(block: Seq<u8>, off: int) -> bool
    decreases chain_measure(block, off),
{
    if off < 0 || off > block.len() {
        false
    } else if off == block.len() {
        true
    } else {
        &&& entry_readable(block, off)
        &&& rec_len_at(block, off) >= required_space_spec(block[off + 6] as int)
        &&& off + rec_len_at(block, off) <= block.len()
        &&& dir_chain_wf(block, off + rec_len_at(block, off))
    }
}

/// The first of the listed entries at `locs`, from position `i` on, whose
/// record has at least `need` bytes to spare: its position in `locs`.
pub open spec fn first_listed_fit(block: Seq<u8>, locs: Seq<int>, i: int, need: int) -> Option<int>
    decreases locs.len() - i,
{
    if i < 0 || i >= locs.len() {
        None
    } else if slack_at(block, locs[i]) >= need {
        Some(i)
    } else {
        first_listed_fit(block, locs, i + 1, need)
    }
}

/// Whether the offsets of `s` rise strictly.
pub open spec fn strictly_rising(s: Seq<int>) -> bool {
    forall|i: int, j: int| 0 <= i < j < s.len() ==> s[i] < s[j]
}

/// `s` with `t` written at `at`.
pub open spec fn splice(s: Seq<u8>, at: int, t: Seq<u8>) -> Seq<u8> {
    s.subrange(0, at) + t + s.subrange(at + t.len(), s.len() as int)
}

/// The block after a new entry (inode `inode`, name `name`, type byte
/// `file_type`) has been put into the spare space of the record at `off`:
/// that record is cut down to what its entry needs, and the new entry takes
/// the rest of it.
pub open spec fn with_inserted_entry(block: Seq<u8>, off: int, inode: u32, name: Seq<u8>, file_type: u8) -> Seq<u8> {
    let req = required_space_spec(block[off + 6] as int);
    let prev = rec_len_at(block, off);
    let new_off = off + req;
    let b1 = put_u16(block, off + 4, req as u16);
    let b2 = put_u32(b1, new_off, inode);
    let b3 = put_u16(b2, new_off + 4, (prev - req) as u16);
    let b4 = b3.update(new_off + 6, name.len() as u8).update(new_off + 7, file_type);
    splice(b4, new_off + 8, name)
}

proof fn lemma_chain_wf_ok(block: Seq<u8>, off: int)
    requires
        dir_chain_wf(block, off),
    ensures
        dir_chain_ok(block, off),
    decreases chain_measure(block, off),
{
    if 0 <= off < block.len() {
        lemma_chain_wf_ok(block, off + rec_len_at(block, off));
    }
}

/// Entries further down the chain lie further into the block.
proof fn lemma_chain_offsets_after(block: Seq<u8>, off: int, k: int)
    requires
        dir_chain_wf(block, off),
        0 <= k < chain_offsets(block, off).len(),
    ensures
        off <= chain_offsets(block, off)[k] < block.len(),
        k > 0 ==> chain_offsets(block, off)[k] >= off + rec_len_at(block, off),
        dir_chain_wf(block, chain_offsets(block, off)[k]),
    decreases chain_measure(block, off),
{
    let next = off + rec_len_at(block, off);
    if k > 0 {
        lemma_chain_offsets_after(block, next, k - 1);
    }
}

/// An entry of a sound chain starts a sound chain of its own inside the
/// block.
proof fn lemma_chain_member(block: Seq<u8>, off: int, x: int) -> (k: int)
    requires
        dir_chain_wf(block, off),
        chain_offsets(block, off).contains(x),
    ensures
        0 <= k < chain_offsets(block, off).len(),
        chain_offsets(block, off)[k] == x,
        off <= x < block.len(),
        dir_chain_wf(block, x),
{
    let k = choose|k: int| 0 <= k < chain_offsets(block, off).len() && chain_offsets(block, off)[k] == x;
    lemma_chain_offsets_after(block, off, k);
    k
}

/// The entries of a sound chain lie further into the block one after the
/// other.
proof fn lemma_chain_offsets_rising(block: Seq<u8>, off: int)
    requires
        dir_chain_wf(block, off),
    ensures
        strictly_rising(chain_offsets(block, off)),
    decreases chain_measure(block, off),
{
    if 0 <= off < block.len() {
        let next = off + rec_len_at(block, off);
        lemma_chain_offsets_rising(block, next);
        assert(chain_offsets(block, off) =~= seq![off] + chain_offsets(block, next));
        assert forall|j: int| 0 <= j < chain_offsets(block, next).len() implies chain_offsets(block, next)[j]
            > off by {
            lemma_chain_offsets_after(block, next, j);
        }
    }
}

/// Two blocks that agree from `off` on have the same chain from `off` on.
proof fn lemma_chain_same_suffix(b1: Seq<u8>, b2: Seq<u8>, off: int)
    requires
        b1.len() == b2.len(),
        dir_chain_wf(b1, off),
        forall|i: int| off <= i < b1.len() ==> b1[i] == b2[i],
    ensures
        dir_chain_wf(b2, off),
        chain_offsets(b1, off) == chain_offsets(b2, off),
    decreases chain_measure(b1, off),
{
    if off < b1.len() {
        assert(b1[off + 4] == b2[off + 4] && b1[off + 5] == b2[off + 5]);
        assert(b1[off + 6] == b2[off + 6] && b1[off + 7] == b2[off + 7]);
        lemma_chain_same_suffix(b1, b2, off + rec_len_at(b1, off));
    }
}

/// Facts about the block after an insertion at `off`: which bytes changed,
/// and what the new bytes hold.
proof fn lemma_inserted_bytes(block: Seq<u8>, off: int, inode: u32, name: Seq<u8>, file_type: u8)
    requires
        dir_chain_wf(block, off),
        0 <= off < block.len(),
        name.len() <= 255,
        slack_at(block, off) >= required_space_spec(name.len() as int),
    ensures
        ({
            let new = with_inserted_entry(block, off, inode, name, file_type);
            let req = required_space_spec(block[off + 6] as int);
            let prev = rec_len_at(block, off);
            let new_off = off + req;
            &&& new.len() == block.len()
            &&& forall|i: int|
                0 <= i < block.len() && (i < off + 4 || i >= off + prev) ==> new[i] == block[i]
            &&& forall|i: int| off + 6 <= i < new_off ==> new[i] == block[i]
            &&& le_u16(new, off + 4) == req
            &&& le_u32(new, new_off) == inode
            &&& le_u16(new, new_off + 4) == prev - req
            &&& new[new_off + 6] == name.len()
            &&& new[new_off + 7] == file_type
            &&& new.subrange(new_off + 8, new_off + 8 + name.len()) == name
        }),
{
    let req = required_space_spec(block[off + 6] as int);
    let prev = rec_len_at(block, off);
    let new_off = off + req;
    let b1 = put_u16(block, off + 4, req as u16);
    lemma_put_u16(block, off + 4, req as u16);
    let b2 = put_u32(b1, new_off, inode);
    lemma_put_u32(b1, new_off, inode);
    let b3 = put_u16(b2, new_off + 4, (prev - req) as u16);
    lemma_put_u16(b2, new_off + 4, (prev - req) as u16);
    let b4 = b3.update(new_off + 6, name.len() as u8).update(new_off + 7, file_type);
    let new = splice(b4, new_off + 8, name);
    assert(new.subrange(new_off + 8, new_off + 8 + name.len()) =~= name);
    assert(new[off + 4] == b4[off + 4] && new[off + 5] == b4[off + 5]);
    assert(new[new_off] == b4[new_off] && new[new_off + 1] == b4[new_off + 1]);
    assert(new[new_off + 2] == b4[new_off + 2] && new[new_off + 3] == b4[new_off + 3]);
    assert(new[new_off + 4] == b4[new_off + 4] && new[new_off + 5] == b4[new_off + 5]);
}

/// The chain from the record that was cut down: that record, the new entry,
/// then the rest of the chain as it was.
#[verifier::rlimit(60)]
#[verifier::spinoff_prover]
proof fn lemma_insert_chain_at(block: Seq<u8>, off: int, inode: u32, name: Seq<u8>, file_type: u8)
    requires
        dir_chain_wf(block, off),
        0 <= off < block.len(),
        name.len() <= 255,
        file_type <= 7,
        slack_at(block, off) >= required_space_spec(name.len() as int),
    ensures
        ({
            let new = with_inserted_entry(block, off, inode, name, file_type);
            let new_off = off + required_space_spec(block[off + 6] as int);
            &&& dir_chain_wf(new, off)
            &&& chain_offsets(new, off) == chain_offsets(block, off).insert(1, new_off)
        }),
{
    let new = with_inserted_entry(block, off, inode, name, file_type);
    let req = required_space_spec(block[off + 6] as int);
    let prev = rec_len_at(block, off);
    let new_off = off + req;
    let after = off + prev;
    lemma_inserted_bytes(block, off, inode, name, file_type);
    lemma_chain_same_suffix(block, new, after);
    assert(new[off + 6] == block[off + 6]);
    assert(new[off + 7] == block[off + 7]);
    assert(dir_chain_wf(new, new_off));
    assert(chain_offsets(new, new_off) =~= seq![new_off] + chain_offsets(block, after));
    assert(chain_offsets(new, off) =~= seq![off, new_off] + chain_offsets(block, after));
    assert(chain_offsets(block, off) =~= seq![off] + chain_offsets(block, after));
    assert(chain_offsets(new, off) =~= chain_offsets(block, off).insert(1, new_off));
}

/// Inserting an entry at a record of the chain keeps the chain sound, and
/// puts the new entry into the chain right after that record.
#[verifier::rlimit(60)]
#[verifier::spinoff_prover]
proof fn lemma_insert_chain_from(
    block: Seq<u8>,
    p: int,
    k: int,
    off: int,
    inode: u32,
    name: Seq<u8>,
    file_type: u8,
)
    requires
        dir_chain_wf(block, p),
        0 <= k < chain_offsets(block, p).len(),
        chain_offsets(block, p)[k] == off,
        name.len() <= 255,
        file_type <= 7,
        slack_at(block, off) >= required_space_spec(name.len() as int),
    ensures
        ({
            let new = with_inserted_entry(block, off, inode, name, file_type);
            let new_off = off + required_space_spec(block[off + 6] as int);
            &&& dir_chain_wf(new, p)
            &&& chain_offsets(new, p) == chain_offsets(block, p).insert(k + 1, new_off)
        }),
    decreases chain_measure(block, p),
{
    lemma_chain_offsets_after(block, p, k);
    if k == 0 {
        lemma_insert_chain_at(block, off, inode, name, file_type);
    } else {
        let new = with_inserted_entry(block, off, inode, name, file_type);
        let new_off = off + required_space_spec(block[off + 6] as int);
        let next = p + rec_len_at(block, p);
        // The entry at `p` lies before the changed bytes.
        lemma_inserted_bytes(block, off, inode, name, file_type);
        assert(new[p + 4] == block[p + 4] && new[p + 5] == block[p + 5]);
        assert(new[p + 6] == block[p + 6] && new[p + 7] == block[p + 7]);
        lemma_insert_chain_from(block, next, k - 1, off, inode, name, file_type);
        assert(chain_offsets(block, p) =~= seq![p] + chain_offsets(block, next));
        assert(chain_offsets(new, p) =~= seq![p] + chain_offsets(new, next));
        assert(chain_offsets(new, p) =~= chain_offsets(block, p).insert(k + 1, new_off));
    }
}

/// Putting a new entry into the spare room of a record of a sound
/// directory block keeps its chain of entries sound, and the new entry joins
/// the chain right after the entry whose record it was given room in; every
/// other entry stays where it was.
pub proof fn lemma_insert_entry_keeps_chain(
    block: Seq<u8>,
    off: int,
    inode: u32,
    name: Seq<u8>,
    file_type: u8,
)
    requires
        dir_chain_wf(block, 0),
        chain_offsets(block, 0).contains(off),
        name.len() <= 255,
        file_type <= 7,
        slack_at(block, off) >= required_space_spec(name.len() as int),
    ensures
        ({
            let new = with_inserted_entry(block, off, inode, name, file_type);
            let new_off = off + required_space_spec(block[off + 6] as int);
            &&& dir_chain_wf(new, 0)
            &&& exists|k: int|
                0 <= k < chain_offsets(block, 0).len() && chain_offsets(block, 0)[k] == off
                    && chain_offsets(new, 0) == chain_offsets(block, 0).insert(k + 1, new_off)
        }),
{
    let k = lemma_chain_member(block, 0, off);
    lemma_insert_chain_from(block, 0, k, off, inode, name, file_type);
}

impl DirectoryEntryHeader {
    /// The header of a new entry for `name`; its record length is set when
    /// the entry is put into a block.
    pub fn new(inode: InodeNumber, name: &str, file_type: DirectoryEntryFileType) -> (r: DirectoryEntryHeader)
        requires
            name.spec_bytes().len() <= 255,
        ensures
            r.inode == inode,
            r.rec_len == 0,
            r.name_len == name.spec_bytes().len(),
            r.file_type == file_type,
    {
        let name_len = name.len() as u8;
        DirectoryEntryHeader { inode, rec_len: 0, name_len, file_type }
    }

    /// Space the entry takes up: header and name, rounded up to 4 bytes.
    pub fn required_space(&self) -> (r: usize)
        ensures
            r == required_space_spec(self.name_len as int),
    {
        (DIRECTORY_ENTRY_HEADER_SIZE + self.name_len as usize + 3) / 4 * 4
    }
}

impl DirectoryBlock {
    /// Cuts the record at `off` (whose entry's header is `found`) down to
    /// what its entry needs, and writes the new entry into the rest.
    #[verifier::rlimit(60)]
    #[verifier::spinoff_prover]
    fn write_new_entry(
        &mut self,
        off: usize,
        found: DirectoryEntryHeader,
        inode: InodeNumber,
        name: &str,
        entry_type: DirectoryEntryFileType,
    ) -> (new_rec_len: u16)
        requires
            dir_chain_wf(old(self).0@, off as int),
            off < old(self).0@.len(),
            old(self).0@.len() + 0x1_0000 <= usize::MAX,
            parses_entry_header(old(self).0@, off as int, found),
            name.spec_bytes().len() <= 255,
            slack_at(old(self).0@, off as int) >= required_space_spec(name.spec_bytes().len() as int),
        ensures
            final(self).0@ == with_inserted_entry(
                old(self).0@,
                off as int,
                inode.0,
                name.spec_bytes(),
                file_type_byte(entry_type),
            ),
            new_rec_len == rec_len_at(old(self).0@, off as int) - required_space_spec(old(self).0@[off + 6] as int),
    {
        let ghost block = self.0@;
        let prev_rec_len = found.rec_len;
        let req = found.required_space();
        let ghost req_s = required_space_spec(block[off + 6] as int);
        assert(req == req_s);
        assert(off + prev_rec_len <= block.len());
        let new_location = off + req;
        write_u16_le(&mut self.0, off + 4, req as u16);
        let ghost b1 = self.0@;
        let new_rec_len = prev_rec_len - req as u16;
        write_u32_le(&mut self.0, new_location, inode.0);
        let ghost b2 = self.0@;
        write_u16_le(&mut self.0, new_location + 4, new_rec_len);
        let ghost b3 = self.0@;
        let bytes = name.as_bytes();
        self.0.set(new_location + 6, bytes.len() as u8);
        self.0.set(new_location + 7, entry_type.as_u8());
        assert(self.0@ == b3.update(new_location + 6, bytes@.len() as u8).update(
            new_location + 7,
            file_type_byte(entry_type),
        ));
        let ghost b4 = self.0@;
        let name_start = new_location + DIRECTORY_ENTRY_HEADER_SIZE;
        let mut j: usize = 0;
        while j < bytes.len()
            invariant
                j <= bytes@.len(),
                bytes@ == name.spec_bytes(),
                bytes@.len() <= 255,
                name_start + bytes@.len() <= b4.len(),
                b4.len() + 0x1_0000 <= usize::MAX,
                self.0@.len() == b4.len(),
                forall|i: int|
                    0 <= i < b4.len() && (i < name_start || i >= name_start + j) ==> self.0@[i] == b4[i],
                forall|i: int| 0 <= i < j ==> self.0@[name_start + i] == bytes@[i],
            decreases bytes@.len() - j,
        {
            self.0.set(name_start + j, bytes[j]);
            j += 1;
        }
        assert(self.0@ =~= splice(b4, name_start as int, bytes@));
        assert(self.0@ == with_inserted_entry(block, off as int, inode.0, bytes@, file_type_byte(entry_type)));
        new_rec_len
    }
}

/// A directory block loaded for editing, with the offset of each of its
/// entries in the order in which they are listed. A new entry is listed at
/// the place of the entry whose record it was carved from, and that entry
/// moves one place down the list.
pub struct LoadedDirectoryBlock {
    block: DirectoryBlock,
    entry_locations: Vec<usize>,
}

/// Inserting into a sequence keeps what it held.
proof fn lemma_insert_contains(s: Seq<int>, i: int, x: int, y: int)
    requires
        0 <= i <= s.len(),
        s.contains(y),
    ensures
        s.insert(i, x).contains(y),
{
    let m = choose|m: int| 0 <= m < s.len() && s[m] == y;
    s.insert_ensures(i, x);
    if m < i {
        assert(s.insert(i, x)[m] == y);
    } else {
        assert(s.insert(i, x)[m + 1] == y);
    }
}

/// Inserting a value that a sequence does not hold keeps it free of
/// duplicates.
proof fn lemma_insert_no_duplicates(s: Seq<int>, i: int, x: int)
    requires
        0 <= i <= s.len(),
        s.no_duplicates(),
        forall|j: int| 0 <= j < s.len() ==> s[j] != x,
    ensures
        s.insert(i, x).no_duplicates(),
{
    s.insert_ensures(i, x);
    let t = s.insert(i, x);
    assert forall|a: int, b: int| 0 <= a < t.len() && 0 <= b < t.len() && a != b implies t[a] != t[b] by {
        let sa = if a < i { a } else { a - 1 };
        let sb = if b < i { b } else { b - 1 };
        if a != i && b != i {
            assert(t[a] == s[sa] && t[b] == s[sb]);
        } else if a == i {
            assert(t[b] == s[sb]);
        } else {
            assert(t[a] == s[sa]);
        }
    }
}

/// Whether the chain of `block` is sound, and `locs` lists each entry of the
/// chain once.
pub open spec fn listing_ok(block: Seq<u8>, locs: Seq<int>) -> bool {
    &&& dir_chain_wf(block, 0)
    &&& block.len() + 0x1_0000 <= usize::MAX
    &&& locs.no_duplicates()
    &&& locs.len() == chain_offsets(block, 0).len()
    &&& forall|j: int| 0 <= j < locs.len() ==> chain_offsets(block, 0).contains(#[trigger] locs[j])
}

/// Carving a new entry out of the record of the listed entry at position
/// `i`, and listing the new entry at that position, keeps the listing sound;
/// the new entry reads back as written.
#[verifier::rlimit(60)]
#[verifier::spinoff_prover]
proof fn lemma_insert_listed(block: Seq<u8>, locs: Seq<int>, i: int, inode: u32, name: Seq<char>, file_type: u8)
    requires
        listing_ok(block, locs),
        0 <= i < locs.len(),
        encode_utf8(name).len() <= 255,
        file_type <= 7,
        slack_at(block, locs[i]) >= required_space_spec(encode_utf8(name).len() as int),
    ensures
        ({
            let off = locs[i];
            let new_off = off + required_space_spec(block[off + 6] as int);
            let new = with_inserted_entry(block, off, inode, encode_utf8(name), file_type);
            &&& listing_ok(new, locs.insert(i, new_off))
            &&& off < new_off
            &&& le_u32(new, new_off) == inode
            &&& le_u16(new, new_off + 4) == rec_len_at(block, off) - required_space_spec(block[off + 6] as int)
            &&& new[new_off + 6] == encode_utf8(name).len()
            &&& new[new_off + 7] == file_type
            &&& utf8_or(entry_name_bytes(new, new_off), "<invalid UTF-8>"@) == name
        }),
{
    let bytes = encode_utf8(name);
    let off = locs[i];
    let k = lemma_chain_member(block, 0, off);
    let nl = off + required_space_spec(block[off + 6] as int);
    let new = with_inserted_entry(block, off, inode, bytes, file_type);
    lemma_inserted_bytes(block, off, inode, bytes, file_type);
    lemma_insert_chain_from(block, 0, k, off, inode, bytes, file_type);
    lemma_chain_offsets_rising(new, 0);
    let oc = chain_offsets(block, 0);
    let nc = chain_offsets(new, 0);
    oc.insert_ensures(k + 1, nl);
    assert(nc[k + 1] == nl);
    assert forall|j: int| 0 <= j < oc.len() implies oc[j] != nl by {
        if j <= k {
            assert(nc[j] == oc[j]);
        } else {
            assert(nc[j + 1] == oc[j]);
        }
    }
    assert forall|j: int| 0 <= j < locs.len() implies locs[j] != nl by {
        lemma_chain_member(block, 0, locs[j]);
    }
    let nlocs = locs.insert(i, nl);
    lemma_insert_no_duplicates(locs, i, nl);
    locs.insert_ensures(i, nl);
    assert forall|j: int| 0 <= j < nlocs.len() implies nc.contains(#[trigger] nlocs[j]) by {
        if j == i {
            assert(nc[k + 1] == nl);
        } else {
            let oj = if j < i { j } else { j - 1 };
            assert(nlocs[j] == locs[oj]);
            lemma_insert_contains(oc, k + 1, nl, locs[oj]);
        }
    }
    vstd::utf8::encode_utf8_valid_utf8(name);
    vstd::utf8::encode_utf8_decode_utf8(name);
    assert(entry_name_bytes(new, nl) == bytes);
}

impl LoadedDirectoryBlock {
    /// The bytes of the block.
    pub closed spec fn bytes(&self) -> Seq<u8> {
        self.block.0@
    }

    /// The offsets of the entries, in the order in which they are listed.
    pub closed spec fn locations(&self) -> Seq<int> {
        self.entry_locations@.map_values(|l: usize| l as int)
    }

    /// The chain of the block is sound, and the list holds each entry of the
    /// chain once.
    pub open spec fn wf(&self) -> bool {
        listing_ok(self.bytes(), self.locations())
    }

    /// Loads a directory block that is known to hold sound entries, for
    /// example one just read from a known good ext2 disk; its entries are
    /// listed in chain order.
    pub fn from_existing_block(block: Vec<u8>) -> (r: LoadedDirectoryBlock)
        requires
            dir_chain_wf(block@, 0),
            block@.len() + 0x1_0000 <= usize::MAX,
        ensures
            r.wf(),
            r.bytes() == block@,
            r.locations() == chain_offsets(block@, 0),
    {
        let mut entry_locations: Vec<usize> = Vec::new();
        let mut offset: usize = 0;
        while offset < block.len()
            invariant
                dir_chain_wf(block@, offset as int),
                block@.len() + 0x1_0000 <= usize::MAX,
                chain_offsets(block@, 0) == entry_locations@.map_values(|l: usize| l as int) + chain_offsets(
                    block@,
                    offset as int,
                ),
            decreases chain_measure(block@, offset as int),
        {
            let ghost before = entry_locations@.map_values(|l: usize| l as int);
            entry_locations.push(offset);
            let rec_len = read_u16_le(block.as_slice(), offset + 4);
            let ghost at = offset as int;
            offset = offset + rec_len as usize;
            proof {
                assert(chain_offsets(block@, at) == seq![at] + chain_offsets(block@, offset as int));
                assert(entry_locations@.map_values(|l: usize| l as int) =~= before.push(at));
                assert(chain_offsets(block@, 0) =~= entry_locations@.map_values(|l: usize| l as int)
                    + chain_offsets(block@, offset as int));
            }
        }
        let r = LoadedDirectoryBlock { block: DirectoryBlock(block), entry_locations };
        proof {
            assert(chain_offsets(r.bytes(), offset as int) =~= Seq::<int>::empty());
            assert(r.locations() =~= chain_offsets(r.bytes(), 0));
            lemma_chain_offsets_rising(r.bytes(), 0);
            assert forall|j: int| 0 <= j < r.locations().len() implies chain_offsets(r.bytes(), 0).contains(
                #[trigger] r.locations()[j],
            ) by {
                assert(chain_offsets(r.bytes(), 0)[j] == r.locations()[j]);
            }
        }
        r
    }

    /// The bytes of the block.
    pub fn data(&self) -> (r: &Vec<u8>)
        ensures
            r@ == self.bytes(),
    {
        &self.block.0
    }

    /// The entry that starts at `location`.
    fn load_entry_from_location(&self, location: usize) -> (r: DirectoryEntry)
        requires
            self.wf(),
            chain_offsets(self.bytes(), 0).contains(location as int),
        ensures
            parses_entry(self.bytes(), location as int, r),
    {
        proof {
            lemma_chain_member(self.bytes(), 0, location as int);
        }
        let bytes = self.block.0.as_slice();
        let header = DirectoryEntryHeader::from_bytes(bytes, location);
        let name_start = location + DIRECTORY_ENTRY_HEADER_SIZE;
        let name_end = name_start + header.name_len as usize;
        let name_slice = slice_subrange(bytes, name_start, name_end);
        let name = string_from_utf8_or(name_slice, "<invalid UTF-8>");
        DirectoryEntry { header, name }
    }

    /// The entries of the block, in the order in which they are listed.
    pub fn entries(&self) -> (r: Vec<DirectoryEntry>)
        requires
            self.wf(),
        ensures
            r@.len() == self.locations().len(),
            forall|k: int|
                0 <= k < r@.len() ==> parses_entry(self.bytes(), self.locations()[k], #[trigger] r@[k]),
    {
        let mut r: Vec<DirectoryEntry> = Vec::new();
        let n = self.entry_locations.len();
        let mut i: usize = 0;
        while i < n
            invariant
                self.wf(),
                n == self.locations().len(),
                i <= n,
                r@.len() == i,
                forall|k: int| 0 <= k < i ==> parses_entry(self.bytes(), self.locations()[k], #[trigger] r@[k]),
            decreases n - i,
        {
            let location = self.entry_locations[i];
            assert(self.locations()[i as int] == location as int);
            let entry = self.load_entry_from_location(location);
            r.push(entry);
            i += 1;
        }
        r
    }

    /// Puts an entry for `name` into the first listed entry's record that
    /// has room to spare for it: that record is cut down to what its own
    /// entry needs, the new entry takes the rest, and the new entry is
    /// listed at the place of the entry it was carved from. `None`, with the
    /// block unchanged, if no record has room.
    pub fn insert_entry(
        &mut self,
        name: &str,
        inode_number: InodeNumber,
        entry_type: DirectoryEntryFileType,
    ) -> (r: Option<DirectoryEntry>)
        requires
            old(self).wf(),
            name.spec_bytes().len() <= 255,
        ensures
            final(self).wf(),
            ({
                let need = required_space_spec(name.spec_bytes().len() as int);
                match first_listed_fit(old(self).bytes(), old(self).locations(), 0, need) {
                    None => {
                        &&& r is None
                        &&& final(self).bytes() == old(self).bytes()
                        &&& final(self).locations() == old(self).locations()
                    },
                    Some(i) => {
                        let off = old(self).locations()[i];
                        let new_off = off + required_space_spec(old(self).bytes()[off + 6] as int);
                        &&& final(self).bytes() == with_inserted_entry(
                            old(self).bytes(),
                            off,
                            inode_number.0,
                            name.spec_bytes(),
                            file_type_byte(entry_type),
                        )
                        &&& final(self).locations() == old(self).locations().insert(i, new_off)
                        &&& r matches Some(e) && parses_entry(final(self).bytes(), new_off, e)
                        &&& r matches Some(e) && e.name@ == name@
                    },
                }
            }),
    {
        let ghost block = self.bytes();
        let ghost locs = self.locations();
        let mut new_header = DirectoryEntryHeader::new(inode_number, name, entry_type);
        let need = new_header.required_space();
        let n = self.entry_locations.len();
        let mut i: usize = 0;
        while i < n && !self.listed_has_room(i, need)
            invariant
                self.wf(),
                self.bytes() == block,
                self.locations() == locs,
                n == locs.len(),
                i <= n,
                first_listed_fit(block, locs, 0, need as int) == first_listed_fit(block, locs, i as int, need as int),
            decreases n - i,
        {
            i += 1;
        }
        if i == n {
            return None;
        }
        let loc = self.entry_locations[i];
        assert(locs[i as int] == loc as int);
        proof {
            lemma_chain_member(block, 0, loc as int);
        }
        let found = DirectoryEntryHeader::from_bytes(self.block.0.as_slice(), loc);
        let req = found.required_space();
        let new_rec_len = self.block.write_new_entry(loc, found, inode_number, name, entry_type);
        new_header.rec_len = new_rec_len;
        let new_location = loc + req;
        self.entry_locations.insert(i, new_location);
        proof {
            lemma_insert_listed(block, locs, i as int, inode_number.0, name@, file_type_byte(entry_type));
            lemma_file_type_byte_round_trip(entry_type);
            assert(self.locations() =~= locs.insert(i as int, new_location as int));
        }
        let entry = DirectoryEntry { header: new_header, name: name.to_string() };
        Some(entry)
    }

    /// Whether the record of the listed entry at position `i` has at least
    /// `need` bytes to spare.
    fn listed_has_room(&self, i: usize, need: usize) -> (r: bool)
        requires
            self.wf(),
            i < self.locations().len(),
        ensures
            r == (slack_at(self.bytes(), self.locations()[i as int]) >= need),
    {
        let loc = self.entry_locations[i];
        assert(self.locations()[i as int] == loc as int);
        proof {
            lemma_chain_member(self.bytes(), 0, loc as int);
        }
        let header = DirectoryEntryHeader::from_bytes(self.block.0.as_slice(), loc);
        header.rec_len as usize - header.required_space() >= need
    }
}

} // verus!
