//! Copying the loadable segments of an executable into guest memory.

use crate::cpu::{Cpu, CpuState};
use crate::elf::{parsed_elf, ElfImage, ProgramSegment, PT_LOAD};
use crate::error::CpuError;
use crate::monitored_memory::overwrite;
use vstd::prelude::*;

verus! {

/// Why `seg` cannot be loaded into `mem_len` bytes of memory from a file of
/// `file_len` bytes, if it cannot. Segments that are not `PT_LOAD` are skipped.
pub open spec fn segment_error(seg: ProgramSegment, mem_len: int, file_len: int) -> Option<CpuError> {
    if seg.p_type != PT_LOAD {
        None
    } else if seg.p_vaddr + seg.p_memsz > mem_len {
        Some(CpuError::OutOfBounds)
    } else if seg.p_filesz > seg.p_memsz || seg.p_offset + seg.p_filesz > file_len {
        Some(CpuError::MalformedImage)
    } else {
        None
    }
}

/// The error of the first segment in `segs` that cannot be loaded.
pub open spec fn first_segment_error(segs: Seq<ProgramSegment>, mem_len: int, file_len: int) -> Option<
    CpuError,
>
    decreases segs.len(),
{
    if segs.len() == 0 {
        None
    } else {
        match first_segment_error(segs.drop_last(), mem_len, file_len) {
            Some(e) => Some(e),
            None => segment_error(segs.last(), mem_len, file_len),
        }
    }
}

/// The bytes that a loadable segment occupies in memory: its file bytes,
/// then zeros up to its memory size.
pub open spec fn segment_bytes(seg: ProgramSegment, file: Seq<u8>) -> Seq<u8> {
    file.subrange(seg.p_offset as int, seg.p_offset + seg.p_filesz) + Seq::new(
        (seg.p_memsz - seg.p_filesz) as nat,
        |i: int| 0u8,
    )
}

/// `mem` after copying `seg` from `file`.
pub open spec fn copy_segment(mem: Seq<u8>, seg: ProgramSegment, file: Seq<u8>) -> Seq<u8> {
    if seg.p_type != PT_LOAD {
        mem
    } else {
        overwrite(mem, seg.p_vaddr as int, segment_bytes(seg, file))
    }
}

/// `mem` after copying each of `segs` in turn.
pub open spec fn copy_segments(mem: Seq<u8>, segs: Seq<ProgramSegment>, file: Seq<u8>) -> Seq<u8>
    decreases segs.len(),
{
    if segs.len() == 0 {
        mem
    } else {
        copy_segment(copy_segments(mem, segs.drop_last(), file), segs.last(), file)
    }
}

/// The state after loading `image` (class, entry, segments) read from
/// `file`: every segment is checked before any is copied, and `pc` is set
/// to the entry point.
pub open spec fn load_result(
    s: CpuState,
    image: (bool, u64, Seq<ProgramSegment>),
    file: Seq<u8>,
) -> Result<CpuState, CpuError> {
    if !image.0 {
        Err(CpuError::MalformedImage)
    } else {
        match first_segment_error(image.2, s.mem.len() as int, file.len() as int) {
            Some(e) => Err(e),
            None => Ok(CpuState { mem: copy_segments(s.mem, image.2, file), pc: image.1, ..s }),
        }
    }
}

/// Loading an image whose one segment is loadable at `0x1000`, with `n`
/// bytes both in the file and in memory, and whose entry is `0x1000`, puts
/// those file bytes at `[0x1000, 0x1000 + n)` and sets `pc` to `0x1000`.
pub proof fn lemma_single_segment_load(s: CpuState, seg: ProgramSegment, file: Seq<u8>)
    requires
        seg.p_type == PT_LOAD,
        seg.p_vaddr == 0x1000,
        seg.p_filesz == seg.p_memsz,
        seg.p_offset + seg.p_filesz <= file.len(),
        0x1000 + seg.p_memsz <= s.mem.len(),
    ensures
        ({
            let n = seg.p_filesz as int;
            load_result(s, (true, 0x1000, seq![seg]), file) matches Ok(t) && t.pc == 0x1000
                && t.mem.subrange(0x1000, 0x1000 + n) =~= file.subrange(
                seg.p_offset as int,
                seg.p_offset + n,
            )
        }),
{
    let segs = seq![seg];
    reveal_with_fuel(first_segment_error, 2);
    reveal_with_fuel(copy_segments, 2);
    assert(segs.drop_last() =~= Seq::<ProgramSegment>::empty());
    assert(segs.last() == seg);
    let n = seg.p_filesz as int;
    let data = segment_bytes(seg, file);
    assert(data =~= file.subrange(seg.p_offset as int, seg.p_offset + n));
    assert(first_segment_error(segs, s.mem.len() as int, file.len() as int) is None);
    let mem = overwrite(s.mem, 0x1000, data);
    assert(copy_segments(s.mem, segs, file) == mem);
    assert(mem.subrange(0x1000, 0x1000 + n) =~= data);
}

/// Copying a segment keeps the length of memory.
proof fn lemma_copy_segments_len(mem: Seq<u8>, segs: Seq<ProgramSegment>, file: Seq<u8>)
    requires
        first_segment_error(segs, mem.len() as int, file.len() as int) is None,
    ensures
        copy_segments(mem, segs, file).len() == mem.len(),
    decreases segs.len(),
{
    if segs.len() > 0 {
        lemma_copy_segments_len(mem, segs.drop_last(), file);
    }
}

/// The bytes of a loadable segment that `segment_error` accepts.
fn segment_data(seg: &ProgramSegment, file: &[u8]) -> (r: Vec<u8>)
    requires
        seg.p_filesz <= seg.p_memsz,
        seg.p_offset + seg.p_filesz <= file@.len(),
        seg.p_memsz <= usize::MAX,
    ensures
        r@ == segment_bytes(*seg, file@),
{
    let n = file.len();
    let mut out: Vec<u8> = Vec::new();
    let mut i: u64 = 0;
    while i < seg.p_filesz
        invariant
            n == file@.len(),
            i <= seg.p_filesz,
            seg.p_offset + seg.p_filesz <= file@.len(),
            out@ == file@.subrange(seg.p_offset as int, seg.p_offset + i),
        decreases seg.p_filesz - i,
    {
        out.push(file[(seg.p_offset + i) as usize]);
        i = i + 1;
    }
    while i < seg.p_memsz
        invariant
            seg.p_filesz <= i <= seg.p_memsz,
            seg.p_offset + seg.p_filesz <= file@.len(),
            out@ == file@.subrange(seg.p_offset as int, seg.p_offset + seg.p_filesz) + Seq::new(
                (i - seg.p_filesz) as nat,
                |j: int| 0u8,
            ),
        decreases seg.p_memsz - i,
    {
        out.push(0u8);
        i = i + 1;
        assert(out@ =~= file@.subrange(seg.p_offset as int, seg.p_offset + seg.p_filesz)
            + Seq::new((i - seg.p_filesz) as nat, |j: int| 0u8));
    }
    out
}

impl Cpu {
    /// Loads a parsed executable read from `file`: checks every loadable
    /// segment, copies each into memory, zero-filling past its file bytes,
    /// and sets `pc` to the entry point. On an error nothing changes.
    pub fn load_image(&mut self, image: &ElfImage, file: &[u8]) -> (r: Result<(), CpuError>)
        requires
            old(self).wf(),
        ensures
            final(self).wf(),
            match load_result(old(self)@, image@, file@) {
                Ok(s) => r is Ok && final(self)@ == s,
                Err(e) => r == Err::<(), CpuError>(e) && final(self)@ == old(self)@,
            },
    {
        if !image.is_64 {
            return Err(CpuError::MalformedImage);
        }
        let size = self.memory_size() as u64;
        let file_len = file.len() as u64;
        let segs = &image.segments;
        let mut i: usize = 0;
        while i < segs.len()
            invariant
                i <= segs@.len(),
                segs@ == image@.2,
                image@.0,
                self.wf(),
                self@ == old(self)@,
                size == self@.mem.len(),
                file_len == file@.len(),
                first_segment_error(segs@.take(i as int), size as int, file_len as int) is None,
            decreases segs@.len() - i,
        {
            let seg = segs[i];
            assert(segs@.take(i + 1).drop_last() =~= segs@.take(i as int));
            assert(segs@.take(i + 1).last() == seg);
            if seg.p_type == PT_LOAD {
                if seg.p_vaddr > size || seg.p_memsz > size - seg.p_vaddr {
                    proof {
                        lemma_first_error_extends(segs@, i + 1, size as int, file_len as int);
                    }
                    return Err(CpuError::OutOfBounds);
                }
                if seg.p_filesz > seg.p_memsz || seg.p_offset > file_len || seg.p_filesz > file_len
                    - seg.p_offset {
                    proof {
                        lemma_first_error_extends(segs@, i + 1, size as int, file_len as int);
                    }
                    return Err(CpuError::MalformedImage);
                }
            }
            i = i + 1;
        }
        assert(segs@.take(segs@.len() as int) =~= segs@);
        let ghost start = self@;
        let mut k: usize = 0;
        while k < segs.len()
            invariant
                k <= segs@.len(),
                segs@ == image@.2,
                self.wf(),
                size == start.mem.len(),
                size <= usize::MAX,
                file_len == file@.len(),
                first_segment_error(segs@, size as int, file_len as int) is None,
                self@ == (CpuState { mem: copy_segments(start.mem, segs@.take(k as int), file@), ..start }),
            decreases segs@.len() - k,
        {
            let seg = segs[k];
            assert(segs@.take(k + 1).drop_last() =~= segs@.take(k as int));
            proof {
                lemma_segment_ok(segs@, k as int, size as int, file_len as int);
                lemma_copy_segments_len(start.mem, segs@.take(k as int), file@);
            }
            if seg.p_type == PT_LOAD {
                let data = segment_data(&seg, file);
                match self.write_memory(seg.p_vaddr, data.as_slice()) {
                    Ok(()) => {},
                    Err(e) => return Err(e),
                }
            }
            k = k + 1;
        }
        assert(segs@.take(segs@.len() as int) =~= segs@);
        self.set_pc(image.entry);
        Ok(())
    }

    /// Parses `program` as an ELF executable and loads it (see
    /// [`Cpu::load_image`]). A file that does not parse is
    /// [`CpuError::MalformedImage`].
    pub fn load_program(&mut self, program: &[u8]) -> (r: Result<(), CpuError>)
        requires
            old(self).wf(),
        ensures
            final(self).wf(),
            match parsed_elf(program@) {
                None => r == Err::<(), CpuError>(CpuError::MalformedImage) && final(self)@ == old(
                    self,
                )@,
                Some(image) => match load_result(old(self)@, image, program@) {
                    Ok(s) => r is Ok && final(self)@ == s,
                    Err(e) => r == Err::<(), CpuError>(e) && final(self)@ == old(self)@,
                },
            },
    {
        match ElfImage::parse(program) {
            Ok(image) => self.load_image(&image, program),
            Err(e) => Err(e),
        }
    }
}

/// The first error among the first `j` segments is the first error of all.
proof fn lemma_first_error_extends(segs: Seq<ProgramSegment>, j: int, mem_len: int, file_len: int)
    requires
        0 <= j <= segs.len(),
        first_segment_error(segs.take(j), mem_len, file_len) is Some,
    ensures
        first_segment_error(segs, mem_len, file_len) == first_segment_error(
            segs.take(j),
            mem_len,
            file_len,
        ),
    decreases segs.len(),
{
    if j < segs.len() {
        assert(segs.drop_last().take(j) =~= segs.take(j));
        lemma_first_error_extends(segs.drop_last(), j, mem_len, file_len);
    } else {
        assert(segs.take(j) =~= segs);
    }
}

/// When no segment of `segs` has an error, neither has the one at `k`.
proof fn lemma_segment_ok(segs: Seq<ProgramSegment>, k: int, mem_len: int, file_len: int)
    requires
        0 <= k < segs.len(),
        first_segment_error(segs, mem_len, file_len) is None,
    ensures
        segment_error(segs[k], mem_len, file_len) is None,
        first_segment_error(segs.take(k), mem_len, file_len) is None,
    decreases segs.len(),
{
    if k < segs.len() - 1 {
        assert(segs.drop_last()[k] == segs[k]);
        assert(segs.drop_last().take(k) =~= segs.take(k));
        lemma_segment_ok(segs.drop_last(), k, mem_len, file_len);
    } else {
        assert(segs.drop_last() =~= segs.take(k));
    }
}

} // verus!
