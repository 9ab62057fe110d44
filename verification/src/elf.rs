//! Reading the header of an ELF executable: its entry point and the
//! segments that have to be loaded into memory.

use vstd::prelude::*;

use elf::endian::AnyEndian;
use elf::ElfBytes;

use crate::memory::address::{canonical, virt_addr_valid, VirtAddr};

verus! {

#[verifier::external_type_specification]
#[verifier::external_body]
pub struct ExParseError(elf::ParseError);

/// Object file type of an executable.
pub const ET_EXEC: u16 = 2;

/// Machine type of x86_64.
pub const EM_X86_64: u16 = 62;

/// Program header type of a loadable segment.
pub const PT_LOAD: u32 = 1;

/// The fields of a program header: type, flags, offset, virtual address,
/// physical address, size in the file, size in memory and alignment.
pub type RawProgramHeader = (u32, u32, u64, u64, u64, u64, u64, u64);

/// The fields of an ELF file that a parse gives: object file type, machine,
/// entry point, and the program headers, if the file has a segment table.
pub type RawElfFile = (u16, u16, u64, Option<Vec<RawProgramHeader>>);

/// What a parse of an ELF file gives, with the program headers as a
/// sequence.
pub type RawElfFileView = (u16, u16, u64, Option<Seq<RawProgramHeader>>);

pub open spec fn raw_elf_view(f: RawElfFile) -> RawElfFileView {
    (
        f.0,
        f.1,
        f.2,
        match f.3 {
            Some(v) => Some(v@),
            None => None,
        },
    )
}

/// What `elf::ElfBytes::<AnyEndian>::minimal_parse` finds in a byte slice:
/// the file header's type, machine and entry point, and the program headers
/// of the segment table, or `None` where it fails.
pub uninterp spec fn elf_minimal_parse(bytes: Seq<u8>) -> Option<RawElfFileView>;

/// Parses the ELF file header of `bytes` and reads its program headers.
/// Calls `elf::ElfBytes::<AnyEndian>::minimal_parse`, then reads the fields
/// of the file header and iterates the segment table; claimed: the result is
/// what `elf_minimal_parse` names for these bytes, and the call fails exactly
/// where it names nothing.
#[verifier::external_body]
fn parse_elf_file(bytes: &[u8]) -> (r: Result<RawElfFile, elf::ParseError>)
    ensures
        match r {
            Ok(f) => elf_minimal_parse(bytes@) == Some(raw_elf_view(f)),
            Err(_) => elf_minimal_parse(bytes@) is None,
        },
{
    let parsed = ElfBytes::<AnyEndian>::minimal_parse(bytes)?;
    let segments = parsed.segments().map(|table| {
        table.iter().map(|p| (p.p_type, p.p_flags, p.p_offset, p.p_vaddr, p.p_paddr, p.p_filesz, p.p_memsz, p.p_align)).collect()
    });
    Ok((parsed.ehdr.e_type, parsed.ehdr.e_machine, parsed.ehdr.e_entry, segments))
}

/// A program header. See the `ProgramHeader` type of the `elf` crate.
#[derive(Debug, Clone, Copy, PartialEq, Eq, Structural)]
pub struct ProgramHeader {
    pub p_type: u32,
    pub p_flags: u32,
    pub p_offset: u64,
    pub p_vaddr: u64,
    pub p_paddr: u64,
    pub p_filesz: u64,
    pub p_memsz: u64,
    pub p_align: u64,
}

pub open spec fn program_header_of(raw: RawProgramHeader) -> ProgramHeader {
    ProgramHeader {
        p_type: raw.0,
        p_flags: raw.1,
        p_offset: raw.2,
        p_vaddr: raw.3,
        p_paddr: raw.4,
        p_filesz: raw.5,
        p_memsz: raw.6,
        p_align: raw.7,
    }
}

impl ProgramHeader {
    pub fn from_raw(raw: RawProgramHeader) -> (r: ProgramHeader)
        ensures
            r == program_header_of(raw),
    {
        ProgramHeader {
            p_type: raw.0,
            p_flags: raw.1,
            p_offset: raw.2,
            p_vaddr: raw.3,
            p_paddr: raw.4,
            p_filesz: raw.5,
            p_memsz: raw.6,
            p_align: raw.7,
        }
    }
}

/// Flags of a loadable segment: executable (1), writable (2), readable (4).
#[derive(Debug, Clone, Copy, PartialEq, Eq, Structural)]
pub struct LoadableSegmentFlags(pub u32);

pub const EXECUTABLE: u32 = 1;

pub const WRITABLE: u32 = 2;

pub const READABLE: u32 = 4;

impl LoadableSegmentFlags {
    /// The flags for `bits`; `None` if a bit other than the three flags is
    /// set.
    pub fn from_bits(bits: u32) -> (r: Option<LoadableSegmentFlags>)
        ensures
            r == (if bits & !7u32 == 0 {
                Some(LoadableSegmentFlags(bits))
            } else {
                None
            }),
    {
        if bits & !7u32 == 0 {
            Some(LoadableSegmentFlags(bits))
        } else {
            None
        }
    }

    pub fn bits(&self) -> (r: u32)
        ensures
            r == self.0,
    {
        self.0
    }

    /// Whether all of the flags in `other` are set.
    pub fn contains(&self, other: u32) -> (r: bool)
        ensures
            r == (self.0 & other == other),
    {
        self.0 & other == other
    }
}

/// A segment that is loaded into memory.
#[derive(Debug, Clone, Copy, PartialEq, Eq, Structural)]
pub struct LoadableSegment {
    pub raw_header: ProgramHeader,
    pub file_offset: u64,
    pub vaddr: VirtAddr,
    pub mem_size: u64,
    pub flags: LoadableSegmentFlags,
    pub alignment: u64,
}

/// The loadable segment that a program header describes.
pub open spec fn loadable_segment_of(ph: ProgramHeader) -> LoadableSegment {
    LoadableSegment {
        raw_header: ph,
        file_offset: ph.p_offset,
        vaddr: VirtAddr(canonical(ph.p_vaddr)),
        mem_size: ph.p_memsz,
        flags: LoadableSegmentFlags(ph.p_flags),
        alignment: ph.p_align,
    }
}

#[derive(Debug)]
pub enum ElfExecutableHeaderError {
    /// The bytes are no ELF file.
    Parse(elf::ParseError),
    /// The file is not an executable (`ET_EXEC`); holds its type.
    NotExecutable(u16),
    /// The file is not for x86_64 (`EM_X86_64`); holds its machine.
    NotX86_64(u16),
    /// The file has no segment table.
    NoSegments,
    /// A loadable segment has a physical address that is set and differs
    /// from its virtual address.
    InvalidPhysicalAddress(ProgramHeader),
    /// A loadable segment has flags other than executable, writable and
    /// readable.
    InvalidFlags(ProgramHeader),
}

/// Why a parsed ELF file is not a loadable executable, apart from a failed
/// parse.
#[derive(Debug, Clone, Copy, PartialEq, Eq, Structural)]
pub enum ElfCheckFailure {
    NotExecutable(u16),
    NotX86_64(u16),
    NoSegments,
    InvalidPhysicalAddress(ProgramHeader),
    InvalidFlags(ProgramHeader),
}

/// Whether `e` is the error that stands for `f`.
pub open spec fn error_is(e: ElfExecutableHeaderError, f: ElfCheckFailure) -> bool {
    match f {
        ElfCheckFailure::NotExecutable(t) => e == ElfExecutableHeaderError::NotExecutable(t),
        ElfCheckFailure::NotX86_64(m) => e == ElfExecutableHeaderError::NotX86_64(m),
        ElfCheckFailure::NoSegments => e == ElfExecutableHeaderError::NoSegments,
        ElfCheckFailure::InvalidPhysicalAddress(ph) => e == ElfExecutableHeaderError::InvalidPhysicalAddress(ph),
        ElfCheckFailure::InvalidFlags(ph) => e == ElfExecutableHeaderError::InvalidFlags(ph),
    }
}

/// The loadable segments among the program headers from `i` on, in order:
/// `None` where a loadable segment's virtual address holds data in bits 48
/// to 64 (which `VirtAddr::new` refuses), an error for the first loadable
/// segment with a bad physical address or bad flags.
pub open spec fn loadable_segments_from(
    phs: Seq<RawProgramHeader>,
    i: int,
) -> Option<Result<Seq<LoadableSegment>, ElfCheckFailure>>
    decreases phs.len() - i,
{
    if i < 0 || i >= phs.len() {
        Some(Ok(Seq::empty()))
    } else {
        let ph = program_header_of(phs[i]);
        if ph.p_type != PT_LOAD {
            loadable_segments_from(phs, i + 1)
        } else if ph.p_paddr > 0 && ph.p_paddr != ph.p_vaddr {
            Some(Err(ElfCheckFailure::InvalidPhysicalAddress(ph)))
        } else if !virt_addr_valid(ph.p_vaddr) {
            None
        } else if ph.p_flags & !7u32 != 0 {
            Some(Err(ElfCheckFailure::InvalidFlags(ph)))
        } else {
            match loadable_segments_from(phs, i + 1) {
                None => None,
                Some(Err(f)) => Some(Err(f)),
                Some(Ok(rest)) => Some(Ok(seq![loadable_segment_of(ph)] + rest)),
            }
        }
    }
}

/// Whether `ph` is the program header of one of the entries of `phs` from
/// `i` on.
pub open spec fn among_headers(phs: Seq<RawProgramHeader>, i: int, ph: ProgramHeader) -> bool {
    exists|j: int| i <= j < phs.len() && #[trigger] program_header_of(phs[j]) == ph
}

/// Each loadable segment found among program headers is taken from one of
/// those headers, of type `PT_LOAD`: the loader copies it from the header's
/// file offset `p_offset`, to the header's virtual address (made canonical),
/// over the header's memory size `p_memsz`, with the header's flags and
/// alignment, and its physical address is unset or equal to the virtual
/// one.
pub proof fn lemma_loadable_segments_from_headers(phs: Seq<RawProgramHeader>, i: int)
    requires
        0 <= i,
        loadable_segments_from(phs, i) is Some,
        loadable_segments_from(phs, i)->0 is Ok,
    ensures
        ({
            let segs = loadable_segments_from(phs, i)->0->Ok_0;
            forall|k: int|
                0 <= k < segs.len() ==> {
                    let seg = #[trigger] segs[k];
                    let ph = seg.raw_header;
                    &&& among_headers(phs, i, ph)
                    &&& ph.p_type == 1
                    &&& seg.file_offset == ph.p_offset
                    &&& seg.vaddr.0 == canonical(ph.p_vaddr)
                    &&& seg.mem_size == ph.p_memsz
                    &&& seg.flags.0 == ph.p_flags
                    &&& seg.alignment == ph.p_align
                    &&& (ph.p_paddr == 0 || ph.p_paddr == ph.p_vaddr)
                }
        }),
    decreases phs.len() - i,
{
    if i < phs.len() {
        let ph = program_header_of(phs[i]);
        lemma_loadable_segments_from_headers(phs, i + 1);
        if ph.p_type == PT_LOAD {
            let segs = loadable_segments_from(phs, i)->0->Ok_0;
            let rest = loadable_segments_from(phs, i + 1)->0->Ok_0;
            assert(segs == seq![loadable_segment_of(ph)] + rest);
            assert forall|k: int| 1 <= k < segs.len() implies among_headers(phs, i, #[trigger] segs[k].raw_header) by {
                assert(segs[k] == rest[k - 1]);
                let j = choose|j: int| i + 1 <= j < phs.len() && #[trigger] program_header_of(phs[j]) == rest[k - 1].raw_header;
                assert(program_header_of(phs[j]) == segs[k].raw_header);
            }
            assert(program_header_of(phs[i]) == segs[0].raw_header);
        } else {
            let segs = loadable_segments_from(phs, i)->0->Ok_0;
            assert forall|k: int| 0 <= k < segs.len() implies among_headers(phs, i, #[trigger] segs[k].raw_header) by {
                let j = choose|j: int| i + 1 <= j < phs.len() && #[trigger] program_header_of(phs[j]) == segs[k].raw_header;
                assert(program_header_of(phs[j]) == segs[k].raw_header);
            }
        }
    }
}

/// What a parsed ELF file is as an executable: its entry point and loadable
/// segments, or why it is not one. `None` where an address holds data in
/// bits 48 to 64.
pub open spec fn executable_of(f: RawElfFileView) -> Option<Result<(VirtAddr, Seq<LoadableSegment>), ElfCheckFailure>> {
    if f.0 != ET_EXEC {
        Some(Err(ElfCheckFailure::NotExecutable(f.0)))
    } else if f.1 != EM_X86_64 {
        Some(Err(ElfCheckFailure::NotX86_64(f.1)))
    } else if !virt_addr_valid(f.2) {
        None
    } else {
        match f.3 {
            None => Some(Err(ElfCheckFailure::NoSegments)),
            Some(phs) => match loadable_segments_from(phs, 0) {
                None => None,
                Some(Err(e)) => Some(Err(e)),
                Some(Ok(segs)) => Some(Ok((VirtAddr(canonical(f.2)), segs))),
            },
        }
    }
}

/// A parsed ELF executable: its file header fields, entry point and the
/// segments to load.
#[derive(Debug)]
pub struct ElfExecutableHeader {
    pub e_type: u16,
    pub e_machine: u16,
    pub e_entry: u64,
    pub entrypoint: VirtAddr,
    pub loadable_segments: Vec<LoadableSegment>,
}

/// Whether `r` is the outcome `expected` for a parsed file `f`.
pub open spec fn outcome_is(
    r: Result<ElfExecutableHeader, ElfExecutableHeaderError>,
    f: RawElfFileView,
    expected: Result<(VirtAddr, Seq<LoadableSegment>), ElfCheckFailure>,
) -> bool {
    match (r, expected) {
        (Ok(h), Ok((entry, segs))) => h.e_type == f.0 && h.e_machine == f.1 && h.e_entry == f.2
            && h.entrypoint == entry && h.loadable_segments@ == segs,
        (Err(e), Err(fail)) => error_is(e, fail),
        _ => false,
    }
}

impl ElfExecutableHeader {
    /// The loadable segments among the program headers `phs`, or `None`
    /// where a segment's address would be refused.
    fn loadable_segments(phs: &Vec<RawProgramHeader>) -> (r: Option<Result<Vec<LoadableSegment>, ElfCheckFailure>>)
        ensures
            match (r, loadable_segments_from(phs@, 0)) {
                (None, None) => true,
                (Some(Ok(v)), Some(Ok(s))) => v@ == s,
                (Some(Err(a)), Some(Err(b))) => a == b,
                _ => false,
            },
    {
        let mut loadable: Vec<LoadableSegment> = Vec::new();
        let mut i: usize = 0;
        while i < phs.len()
            invariant
                i <= phs@.len(),
                loadable_segments_from(phs@, 0) == match loadable_segments_from(phs@, i as int) {
                    None => None,
                    Some(Err(f)) => Some(Err(f)),
                    Some(Ok(rest)) => Some(Ok(loadable@ + rest)),
                },
            decreases phs@.len() - i,
        {
            let ph = ProgramHeader::from_raw(phs[i]);
            if ph.p_type != PT_LOAD {
                i += 1;
                continue;
            }
            if ph.p_paddr > 0 && ph.p_paddr != ph.p_vaddr {
                return Some(Err(ElfCheckFailure::InvalidPhysicalAddress(ph)));
            }
            let vaddr = match VirtAddr::try_new(ph.p_vaddr) {
                Some(v) => v,
                None => return None,
            };
            let flags = match LoadableSegmentFlags::from_bits(ph.p_flags) {
                Some(f) => f,
                None => return Some(Err(ElfCheckFailure::InvalidFlags(ph))),
            };
            let segment = LoadableSegment {
                raw_header: ph,
                file_offset: ph.p_offset,
                vaddr,
                mem_size: ph.p_memsz,
                flags,
                alignment: ph.p_align,
            };
            let ghost before = loadable@;
            loadable.push(segment);
            proof {
                assert(loadable@ == before + seq![loadable_segment_of(ph)]);
                match loadable_segments_from(phs@, i + 1) {
                    None => {},
                    Some(Err(f)) => {},
                    Some(Ok(rest)) => {
                        assert(before + (seq![loadable_segment_of(ph)] + rest) =~= loadable@ + rest);
                    },
                }
            }
            i += 1;
        }
        assert(loadable@ + Seq::<LoadableSegment>::empty() =~= loadable@);
        Some(Ok(loadable))
    }

    /// The executable that a parsed file describes, or why it is none;
    /// `None` where an address would be refused.
    fn check_parsed(parsed: RawElfFile) -> (r: Option<Result<ElfExecutableHeader, ElfExecutableHeaderError>>)
        ensures
            match executable_of(raw_elf_view(parsed)) {
                None => r is None,
                Some(expected) => r matches Some(res) && outcome_is(res, raw_elf_view(parsed), expected),
            },
    {
        let (e_type, e_machine, e_entry, segments) = parsed;
        if e_type != ET_EXEC {
            return Some(Err(ElfExecutableHeaderError::NotExecutable(e_type)));
        }
        if e_machine != EM_X86_64 {
            return Some(Err(ElfExecutableHeaderError::NotX86_64(e_machine)));
        }
        let entrypoint = match VirtAddr::try_new(e_entry) {
            Some(v) => v,
            None => return None,
        };
        let phs = match segments {
            Some(s) => s,
            None => return Some(Err(ElfExecutableHeaderError::NoSegments)),
        };
        match Self::loadable_segments(&phs) {
            None => None,
            Some(Err(f)) => Some(Err(Self::error_of(f))),
            Some(Ok(loadable_segments)) => Some(
                Ok(ElfExecutableHeader { e_type, e_machine, e_entry, entrypoint, loadable_segments }),
            ),
        }
    }

    fn error_of(f: ElfCheckFailure) -> (e: ElfExecutableHeaderError)
        ensures
            error_is(e, f),
    {
        match f {
            ElfCheckFailure::NotExecutable(t) => ElfExecutableHeaderError::NotExecutable(t),
            ElfCheckFailure::NotX86_64(m) => ElfExecutableHeaderError::NotX86_64(m),
            ElfCheckFailure::NoSegments => ElfExecutableHeaderError::NoSegments,
            ElfCheckFailure::InvalidPhysicalAddress(ph) => ElfExecutableHeaderError::InvalidPhysicalAddress(ph),
            ElfCheckFailure::InvalidFlags(ph) => ElfExecutableHeaderError::InvalidFlags(ph),
        }
    }

    /// The executable that a parsed ELF file describes: it must be an
    /// executable for x86_64 with a segment table, and each loadable segment
    /// must have no physical address other than its virtual one and only
    /// known flags. Requires that every address on the way is one that
    /// `VirtAddr::new` takes.
    pub fn from_parsed(parsed: RawElfFile) -> (r: Result<ElfExecutableHeader, ElfExecutableHeaderError>)
        requires
            executable_of(raw_elf_view(parsed)) is Some,
        ensures
            outcome_is(r, raw_elf_view(parsed), executable_of(raw_elf_view(parsed))->0),
    {
        match Self::check_parsed(parsed) {
            Some(r) => r,
            None => vstd::pervasive::unreached(),
        }
    }

    /// Parses the ELF executable in `bytes`.
    pub fn parse(bytes: &[u8]) -> (r: Result<ElfExecutableHeader, ElfExecutableHeaderError>)
        requires
            elf_minimal_parse(bytes@) matches Some(f) ==> executable_of(f) is Some,
        ensures
            match elf_minimal_parse(bytes@) {
                None => r matches Err(ElfExecutableHeaderError::Parse(_)),
                Some(f) => outcome_is(r, f, executable_of(f)->0),
            },
    {
        match parse_elf_file(bytes) {
            Ok(parsed) => Self::from_parsed(parsed),
            Err(e) => Err(ElfExecutableHeaderError::Parse(e)),
        }
    }

    /// Parses the ELF executable in `bytes`; `None` where an address in it
    /// holds data in bits 48 to 64.
    pub fn try_parse(bytes: &[u8]) -> (r: Option<Result<ElfExecutableHeader, ElfExecutableHeaderError>>)
        ensures
            match elf_minimal_parse(bytes@) {
                None => r matches Some(Err(ElfExecutableHeaderError::Parse(_))),
                Some(f) => match executable_of(f) {
                    None => r is None,
                    Some(expected) => r matches Some(res) && outcome_is(res, f, expected),
                },
            },
    {
        let loadable = match parse_elf_file(bytes) {
            Ok(parsed) => Self::check_parsed(parsed).is_some(),
            Err(_) => true,
        };
        if loadable {
            Some(Self::parse(bytes))
        } else {
            None
        }
    }
}

} // verus!
