//! Headers of static 64-bit little-endian AArch64 executables.

use vstd::prelude::*;

use crate::bytes;

verus! {

pub const ELF_HEADER_LEN: usize = 64;

pub const ELF_PHDR_LEN: usize = 56;

pub const ET_EXEC: u16 = 2;

pub const EM_AARCH64: u16 = 0xb7;

pub const PT_LOAD: u32 = 1;

pub const PF_X: u32 = 1;

pub const PF_W: u32 = 2;

pub const PF_R: u32 = 4;

#[derive(Clone, Copy, Debug, PartialEq, Eq, Structural)]
pub enum ElfError {
    TooSmall,
    BadMagic,
    NotElf64,
    NotLittleEndian,
    NotExecutable,
    WrongMachine,
    BadProgramHeaderSize,
    SegmentMemSmallerThanFile,
}

#[derive(Clone, Copy, Debug, PartialEq, Eq, Structural)]
pub struct ElfHeader {
    pub entry: u64,
    pub phoff: u64,
    pub phentsize: u16,
    pub phnum: u16,
}

#[derive(Clone, Copy, Debug, PartialEq, Eq, Structural)]
pub struct ProgramHeader {
    pub kind: u32,
    pub flags: u32,
    pub file_offset: u64,
    pub virt_addr: u64,
    pub file_size: u64,
    pub mem_size: u64,
}

/// The four bytes that open every ELF file.
pub open spec fn elf_magic() -> Seq<u8> {
    seq![0x7fu8, 0x45, 0x4c, 0x46]
}

/// What `s` says as an executable's header: the first check that fails, in
/// file order, or the fields.
pub open spec fn header_of(s: Seq<u8>) -> Result<ElfHeader, ElfError> {
    if s.len() < 64 {
        Err(ElfError::TooSmall)
    } else if s.subrange(0, 4) != elf_magic() {
        Err(ElfError::BadMagic)
    } else if s[4] != 2 {
        Err(ElfError::NotElf64)
    } else if s[5] != 1 {
        Err(ElfError::NotLittleEndian)
    } else if bytes::le16(s, 16) != 2 {
        Err(ElfError::NotExecutable)
    } else if bytes::le16(s, 18) != 0xb7 {
        Err(ElfError::WrongMachine)
    } else if bytes::le16(s, 54) != 56 {
        Err(ElfError::BadProgramHeaderSize)
    } else {
        Ok(
            ElfHeader {
                entry: bytes::le64(s, 24) as u64,
                phoff: bytes::le64(s, 32) as u64,
                phentsize: 56,
                phnum: bytes::le16(s, 56) as u16,
            },
        )
    }
}

/// What `s` says as a program header.
pub open spec fn program_header_of(s: Seq<u8>) -> Result<ProgramHeader, ElfError> {
    if s.len() < 56 {
        Err(ElfError::TooSmall)
    } else if bytes::le64(s, 40) < bytes::le64(s, 32) {
        Err(ElfError::SegmentMemSmallerThanFile)
    } else {
        Ok(
            ProgramHeader {
                kind: bytes::le32(s, 0) as u32,
                flags: bytes::le32(s, 4) as u32,
                file_offset: bytes::le64(s, 8) as u64,
                virt_addr: bytes::le64(s, 16) as u64,
                file_size: bytes::le64(s, 32) as u64,
                mem_size: bytes::le64(s, 40) as u64,
            },
        )
    }
}

/// Parses an executable's header.
pub fn parse_header(raw: &[u8]) -> (r: Result<ElfHeader, ElfError>)
    ensures
        r == header_of(raw@),
{
    if raw.len() < ELF_HEADER_LEN {
        return Err(ElfError::TooSmall);
    }
    let magic: [u8; 4] = [0x7f, 0x45, 0x4c, 0x46];
    assert(magic@ =~= elf_magic());
    if !bytes::bytes_equal(&raw[0..4], &magic) {
        return Err(ElfError::BadMagic);
    }
    if raw[4] != 2 {
        return Err(ElfError::NotElf64);
    }
    if raw[5] != 1 {
        return Err(ElfError::NotLittleEndian);
    }
    if bytes::read_u16(raw, 16) != ET_EXEC {
        return Err(ElfError::NotExecutable);
    }
    if bytes::read_u16(raw, 18) != EM_AARCH64 {
        return Err(ElfError::WrongMachine);
    }
    let phentsize: u16 = bytes::read_u16(raw, 54);
    if phentsize as usize != ELF_PHDR_LEN {
        return Err(ElfError::BadProgramHeaderSize);
    }
    Ok(
        ElfHeader {
            entry: bytes::read_u64(raw, 24),
            phoff: bytes::read_u64(raw, 32),
            phentsize,
            phnum: bytes::read_u16(raw, 56),
        },
    )
}

/// Parses one program header.
pub fn parse_program_header(raw: &[u8]) -> (r: Result<ProgramHeader, ElfError>)
    ensures
        r == program_header_of(raw@),
{
    if raw.len() < ELF_PHDR_LEN {
        return Err(ElfError::TooSmall);
    }
    let file_size: u64 = bytes::read_u64(raw, 32);
    let mem_size: u64 = bytes::read_u64(raw, 40);
    if mem_size < file_size {
        return Err(ElfError::SegmentMemSmallerThanFile);
    }
    Ok(
        ProgramHeader {
            kind: bytes::read_u32(raw, 0),
            flags: bytes::read_u32(raw, 4),
            file_offset: bytes::read_u64(raw, 8),
            virt_addr: bytes::read_u64(raw, 16),
            file_size,
            mem_size,
        },
    )
}

/// A header is accepted just where it has 64 bytes or more, opens with 0x7f and `ELF`, and states 64
/// bits, little-endian, an executable, a 64-bit ARM machine and program headers of 56 bytes; the entry
/// point is then at 24, the offset of the program headers at 32 and their number at 56. The first
/// check that fails, from the start of the file on, names the error.
pub proof fn headers_are_read_by_position(s: Seq<u8>)
    requires
        s.len() >= 64,
    ensures
        ({
            let magic = s[0] == 0x7f && s[1] == 0x45 && s[2] == 0x4c && s[3] == 0x46;
            let r = header_of(s);
            &&& !magic ==> r == Err::<ElfHeader, ElfError>(ElfError::BadMagic)
            &&& magic && s[4] != 2 ==> r == Err::<ElfHeader, ElfError>(ElfError::NotElf64)
            &&& magic && s[4] == 2 && s[5] != 1 ==> r == Err::<ElfHeader, ElfError>(
                ElfError::NotLittleEndian,
            )
            &&& magic && s[4] == 2 && s[5] == 1 ==> {
                let kind = s[16] + 0x100 * s[17];
                let machine = s[18] + 0x100 * s[19];
                let size = s[54] + 0x100 * s[55];
                &&& kind != 2 ==> r == Err::<ElfHeader, ElfError>(ElfError::NotExecutable)
                &&& kind == 2 && machine != 183 ==> r == Err::<ElfHeader, ElfError>(
                    ElfError::WrongMachine,
                )
                &&& kind == 2 && machine == 183 && size != 56 ==> r == Err::<ElfHeader, ElfError>(
                    ElfError::BadProgramHeaderSize,
                )
                &&& kind == 2 && machine == 183 && size == 56 ==> {
                    &&& r is Ok
                    &&& r->Ok_0.entry == bytes::le64(s, 24)
                    &&& r->Ok_0.phoff == bytes::le64(s, 32)
                    &&& r->Ok_0.phentsize == 56
                    &&& r->Ok_0.phnum == s[56] + 0x100 * s[57]
                }
            }
        }),
{
    assert(s.subrange(0, 4) == elf_magic() <==> s[0] == 0x7f && s[1] == 0x45 && s[2] == 0x4c && s[3]
        == 0x46) by {
        let part = s.subrange(0, 4);
        assert(part[0] == s[0] && part[1] == s[1] && part[2] == s[2] && part[3] == s[3]);
        if s[0] == 0x7f && s[1] == 0x45 && s[2] == 0x4c && s[3] == 0x46 {
            assert(part =~= elf_magic());
        }
    }
}

/// A program header of 56 bytes or more is refused just where the segment is smaller in memory than in
/// the file; its kind is at 0, its flags at 4, its offset in the file at 8, its address at 16, its
/// size in the file at 32 and its size in memory at 40. Less than a header's bytes are too few.
pub proof fn program_headers_are_read_by_position(s: Seq<u8>)
    ensures
        s.len() < 56 ==> program_header_of(s) == Err::<ProgramHeader, ElfError>(
            ElfError::TooSmall,
        ),
        s.len() < 64 ==> header_of(s) == Err::<ElfHeader, ElfError>(ElfError::TooSmall),
        s.len() >= 56 && bytes::le64(s, 40) < bytes::le64(s, 32) ==> program_header_of(s) == Err::<
            ProgramHeader,
            ElfError,
        >(ElfError::SegmentMemSmallerThanFile),
        s.len() >= 56 && bytes::le64(s, 40) >= bytes::le64(s, 32) ==> {
            let r = program_header_of(s);
            &&& r is Ok
            &&& r->Ok_0.kind == bytes::le32(s, 0)
            &&& r->Ok_0.flags == bytes::le32(s, 4)
            &&& r->Ok_0.file_offset == bytes::le64(s, 8)
            &&& r->Ok_0.virt_addr == bytes::le64(s, 16)
            &&& r->Ok_0.file_size == bytes::le64(s, 32)
            &&& r->Ok_0.mem_size == bytes::le64(s, 40)
        },
{
}

} // verus!
