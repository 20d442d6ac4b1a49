//! The parts of an ELF executable that loading needs.

use crate::error::CpuError;
use vstd::prelude::*;

verus! {

#[verifier::external_type_specification]
#[verifier::external_body]
pub struct ExGoblinError(goblin::error::Error);

/// The program-header type of a segment that is copied into memory.
pub const PT_LOAD: u32 = 1;

/// One program-header entry.
#[derive(Clone, Copy, Debug, PartialEq, Eq, Structural)]
pub struct ProgramSegment {
    pub p_type: u32,
    pub p_offset: u64,
    pub p_vaddr: u64,
    pub p_filesz: u64,
    pub p_memsz: u64,
}

/// A parsed executable: its class, entry point and program headers in the
/// order in which the file lists them.
#[derive(Clone, Debug)]
pub struct ElfImage {
    pub is_64: bool,
    pub entry: u64,
    pub segments: Vec<ProgramSegment>,
}

impl View for ElfImage {
    type V = (bool, u64, Seq<ProgramSegment>);

    open spec fn view(&self) -> (bool, u64, Seq<ProgramSegment>) {
        (self.is_64, self.entry, self.segments@)
    }
}

/// What goblin's ELF parser reads from `bytes`: `None` where it rejects them.
pub uninterp spec fn parsed_elf(bytes: Seq<u8>) -> Option<(bool, u64, Seq<ProgramSegment>)>;

/// Relies on goblin::elf::Elf::parse for the header class, the entry point
/// and the program headers; it reads nothing but `bytes`.
#[verifier::external_body]
fn goblin_parse(bytes: &[u8]) -> (r: Result<ElfImage, goblin::error::Error>)
    ensures
        r is Ok ==> parsed_elf(bytes@) == Some(r->Ok_0@),
        r is Err ==> parsed_elf(bytes@) is None,
{
    let elf = goblin::elf::Elf::parse(bytes)?;
    let segments = elf.program_headers.iter().map(|ph| ProgramSegment {
        p_type: ph.p_type,
        p_offset: ph.p_offset,
        p_vaddr: ph.p_vaddr,
        p_filesz: ph.p_filesz,
        p_memsz: ph.p_memsz,
    }).collect();
    Ok(ElfImage { is_64: elf.is_64, entry: elf.entry, segments })
}

impl ElfImage {
    /// Parses `bytes` as an ELF file. Any file that the parser rejects is
    /// [`CpuError::MalformedImage`].
    pub fn parse(bytes: &[u8]) -> (r: Result<ElfImage, CpuError>)
        ensures
            match parsed_elf(bytes@) {
                Some(v) => r is Ok && r->Ok_0@ == v,
                None => r == Err::<ElfImage, CpuError>(CpuError::MalformedImage),
            },
    {
        match goblin_parse(bytes) {
            Ok(image) => Ok(image),
            Err(_) => Err(CpuError::MalformedImage),
        }
    }
}

} // verus!
