//! Reading the program headers of a received ELF64 image.
//!
//! The loader consults nothing but the identification bytes, the entry
//! point and the `PT_LOAD` program headers: each names one contiguous
//! segment with its file bytes, physical and virtual placement, sizes
//! and permissions. Sections, symbols and relocations are never read.

use vstd::prelude::*;

use crate::codec::read_le16;
use crate::codec::read_le32;
use crate::codec::read_le64;
use crate::codec::spec_le16;
use crate::codec::spec_le32;
use crate::codec::spec_le64;
use crate::Error;

verus! {

/// Program-header type of a loadable segment.
pub const PT_LOAD: u32 = 1;

/// Segment permission flag: executable.
pub const PF_X: u32 = 1;

/// Segment permission flag: writable.
pub const PF_W: u32 = 2;

/// Segment permission flag: readable.
pub const PF_R: u32 = 4;

/// Size in bytes of one ELF64 program header.
pub const PHDR_SIZE: u64 = 56;

/// The fields of the ELF header that the loader consults.
#[derive(Clone, Copy, Debug, PartialEq, Eq, Structural)]
pub struct Ehdr {
    /// Virtual address of the image's entry point.
    pub entry: u64,
    /// File offset of the program-header table.
    pub phoff: u64,
    /// Size in bytes of one program-header entry.
    pub phentsize: u16,
    /// Number of program-header entries.
    pub phnum: u16,
}

/// One ELF64 program header.
#[derive(Clone, Copy, Debug, PartialEq, Eq, Structural)]
pub struct Phdr {
    /// Segment type; only [`PT_LOAD`] segments are loaded.
    pub p_type: u32,
    /// Permission flags, a combination of [`PF_R`], [`PF_W`], [`PF_X`].
    pub p_flags: u32,
    /// File offset of the segment's bytes.
    pub p_offset: u64,
    /// Virtual address the segment runs at.
    pub p_vaddr: u64,
    /// Physical address the segment is copied to.
    pub p_paddr: u64,
    /// Number of bytes stored in the file.
    pub p_filesz: u64,
    /// Number of bytes the segment occupies in memory; the tail past
    /// the file bytes is zero-filled.
    pub p_memsz: u64,
}

/// True when the image starts with the ELF magic and identifies
/// itself as 64-bit little-endian, and the full header is present.
pub open spec fn spec_ident_ok(s: Seq<u8>) -> bool {
    &&& s.len() >= 64
    &&& s[0] == 0x7F
    &&& s[1] == 0x45
    &&& s[2] == 0x4C
    &&& s[3] == 0x46
    &&& s[4] == 2
    &&& s[5] == 1
}

/// The header fields as stored at their fixed offsets.
pub open spec fn spec_ehdr(s: Seq<u8>) -> Ehdr {
    Ehdr {
        entry: spec_le64(s, 24) as u64,
        phoff: spec_le64(s, 32) as u64,
        phentsize: spec_le16(s, 54) as u16,
        phnum: spec_le16(s, 56) as u16,
    }
}

/// The program header stored at byte offset `off`.
pub open spec fn spec_phdr(s: Seq<u8>, off: int) -> Phdr {
    Phdr {
        p_type: spec_le32(s, off) as u32,
        p_flags: spec_le32(s, off + 4) as u32,
        p_offset: spec_le64(s, off + 8) as u64,
        p_vaddr: spec_le64(s, off + 16) as u64,
        p_paddr: spec_le64(s, off + 24) as u64,
        p_filesz: spec_le64(s, off + 32) as u64,
        p_memsz: spec_le64(s, off + 40) as u64,
    }
}

/// Parse the ELF header of a received image. Succeeds exactly when
/// the identification bytes declare a 64-bit little-endian ELF;
/// anything else aborts the boot before any memory is touched.
pub fn parse_ehdr(bytes: &[u8]) -> (r: Result<Ehdr, Error>)
    ensures
        r is Ok <==> spec_ident_ok(bytes@),
        r matches Ok(h) ==> h == spec_ehdr(bytes@),
        r == Err::<Ehdr, Error>(Error::Truncated) <==> bytes@.len() < 64,
        r == Err::<Ehdr, Error>(Error::BadMagic) <==> bytes@.len() >= 64 && !spec_ident_ok(bytes@),
{
    if bytes.len() < 64 {
        return Err(Error::Truncated);
    }
    if !(bytes[0] == 0x7F && bytes[1] == 0x45 && bytes[2] == 0x4C && bytes[3] == 0x46 && bytes[4]
        == 2 && bytes[5] == 1) {
        return Err(Error::BadMagic);
    }
    Ok(
        Ehdr {
            entry: read_le64(bytes, 24),
            phoff: read_le64(bytes, 32),
            phentsize: read_le16(bytes, 54),
            phnum: read_le16(bytes, 56),
        },
    )
}

/// Read the program header at byte offset `off`.
pub fn parse_phdr(bytes: &[u8], off: usize) -> (r: Phdr)
    requires
        off + PHDR_SIZE <= bytes@.len(),
    ensures
        r == spec_phdr(bytes@, off as int),
{
    let n = bytes.len();
    assert(off + 56 <= n);
    Phdr {
        p_type: read_le32(bytes, off),
        p_flags: read_le32(bytes, off + 4),
        p_offset: read_le64(bytes, off + 8),
        p_vaddr: read_le64(bytes, off + 16),
        p_paddr: read_le64(bytes, off + 24),
        p_filesz: read_le64(bytes, off + 32),
        p_memsz: read_le64(bytes, off + 40),
    }
}

/// Collect every program header named by `header`. Succeeds exactly
/// when the header table lies within the image and each entry has the
/// ELF64 size.
pub fn segments(bytes: &[u8], header: &Ehdr) -> (r: Result<Vec<Phdr>, Error>)
    ensures
        r is Ok <==> header.phentsize == PHDR_SIZE && header.phoff + header.phnum * PHDR_SIZE
            <= bytes@.len(),
        r matches Ok(v) ==> v@.len() == header.phnum && forall|i: int|
            0 <= i < header.phnum ==> v@[i] == spec_phdr(
                bytes@,
                header.phoff + i * PHDR_SIZE,
            ),
        r == Err::<Vec<Phdr>, Error>(Error::BadPropSize) <==> header.phentsize != PHDR_SIZE,
        r == Err::<Vec<Phdr>, Error>(Error::Truncated) <==> header.phentsize == PHDR_SIZE
            && header.phoff + header.phnum * PHDR_SIZE > bytes@.len(),
{
    if header.phentsize as u64 != PHDR_SIZE {
        return Err(Error::BadPropSize);
    }
    let n = bytes.len();
    let table = (header.phnum as u64) * PHDR_SIZE;
    if header.phoff > n as u64 || table > n as u64 - header.phoff {
        return Err(Error::Truncated);
    }
    let mut v: Vec<Phdr> = Vec::new();
    let mut i: usize = 0;
    while i < header.phnum as usize
        invariant
            0 <= i <= header.phnum,
            v@.len() == i,
            header.phoff + header.phnum * PHDR_SIZE <= bytes@.len(),
            bytes@.len() <= usize::MAX,
            forall|j: int|
                0 <= j < i ==> v@[j] == spec_phdr(bytes@, header.phoff + j * PHDR_SIZE),
        decreases header.phnum - i,
    {
        let off = (header.phoff as usize) + i * (PHDR_SIZE as usize);
        assert(off + PHDR_SIZE <= bytes@.len()) by (nonlinear_arith)
            requires
                off == header.phoff + i * PHDR_SIZE,
                i < header.phnum,
                header.phoff + header.phnum * PHDR_SIZE <= bytes@.len(),
                PHDR_SIZE == 56,
        ;
        v.push(parse_phdr(bytes, off));
        i += 1;
    }
    Ok(v)
}

} // verus!
