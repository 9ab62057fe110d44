//! Reading files whose contents are held in memory, as the kernel's sysfs
//! serves them through the virtual file system.

use vstd::prelude::*;
use vstd::string::StringSliceAdditionalSpecFns;

verus! {

/// What a read of a file gives back.
#[derive(Debug, Clone, Copy, PartialEq, Eq, Structural)]
pub enum FileInodeReadResult {
    /// The read reached the end of the file.
    Done { bytes_read: usize },
    /// There is more to read after this read.
    Success,
}

pub open spec fn min_int(a: int, b: int) -> int {
    if a < b {
        a
    } else {
        b
    }
}

/// Reads `file_content` from byte `offset` on into the front of `buffer`,
/// as much as the buffer holds. The result says `Done`, with the length of
/// the whole content, if the read reached its end.
pub fn sysfs_read_file(file_content: &str, buffer: &mut Vec<u8>, offset: usize) -> (r: FileInodeReadResult)
    requires
        offset + old(buffer)@.len() <= usize::MAX,
    ensures
        ({
            let data = file_content.spec_bytes();
            let start = min_int(offset as int, data.len() as int);
            let end = min_int(offset + old(buffer)@.len(), data.len() as int);
            &&& final(buffer)@ == data.subrange(start, end) + old(buffer)@.subrange(
                end - start,
                old(buffer)@.len() as int,
            )
            &&& r == if end == data.len() {
                FileInodeReadResult::Done { bytes_read: data.len() as usize }
            } else {
                FileInodeReadResult::Success
            }
        }),
{
    let data = file_content.as_bytes();
    let start = if offset < data.len() {
        offset
    } else {
        data.len()
    };
    let end = if offset + buffer.len() < data.len() {
        offset + buffer.len()
    } else {
        data.len()
    };
    let ghost before = buffer@;
    let mut i: usize = 0;
    while i < end - start
        invariant
            start <= end <= data@.len(),
            end - start <= before.len(),
            i <= end - start,
            buffer@.len() == before.len(),
            forall|j: int| 0 <= j < i ==> buffer@[j] == data@[start + j],
            forall|j: int| i <= j < before.len() ==> buffer@[j] == before[j],
        decreases end - start - i,
    {
        buffer.set(i, data[start + i]);
        i += 1;
    }
    assert(buffer@ =~= data@.subrange(start as int, end as int) + before.subrange(
        end - start,
        before.len() as int,
    ));
    if end == data.len() {
        FileInodeReadResult::Done { bytes_read: file_content.len() }
    } else {
        FileInodeReadResult::Success
    }
}

} // verus!
