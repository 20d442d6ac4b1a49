//! Guest RAM: a fixed-size, bounds-checked byte region backed by an
//! anonymous memory map.

use crate::error::CpuError;
use vstd::prelude::*;

verus! {

#[verifier::external_type_specification]
#[verifier::external_body]
pub struct ExMmapMut(memmap2::MmapMut);

#[verifier::external_type_specification]
#[verifier::external_body]
pub struct ExIoError(std::io::Error);

/// The bytes that a writable memory map holds, in address order.
pub uninterp spec fn mmap_bytes(m: memmap2::MmapMut) -> Seq<u8>;

/// Relies on memmap2::MmapMut::map_anon: on success the map is `length`
/// bytes long and, being a fresh anonymous mapping, reads as zeros.
pub assume_specification[ memmap2::MmapMut::map_anon ](length: usize) -> (r: Result<
    memmap2::MmapMut,
    std::io::Error,
>)
    ensures
        r is Ok ==> mmap_bytes(r->Ok_0) == Seq::new(length as nat, |i: int| 0u8),
;

/// Relies on the length of the byte slice that MmapMut dereferences to.
#[verifier::external_body]
fn mmap_len(m: &memmap2::MmapMut) -> (r: usize)
    ensures
        r == mmap_bytes(*m).len(),
{
    m.len()
}

/// Relies on indexing the byte slice that MmapMut dereferences to.
#[verifier::external_body]
fn mmap_get(m: &memmap2::MmapMut, i: usize) -> (r: u8)
    requires
        i < mmap_bytes(*m).len(),
    ensures
        r == mmap_bytes(*m)[i as int],
{
    m[i]
}

/// Relies on assigning through the mutable byte slice that MmapMut dereferences to.
#[verifier::external_body]
fn mmap_set(m: &mut memmap2::MmapMut, i: usize, v: u8)
    requires
        i < mmap_bytes(*old(m)).len(),
    ensures
        mmap_bytes(*final(m)) == mmap_bytes(*old(m)).update(i as int, v),
{
    m[i] = v;
}

/// `mem` with the bytes starting at `start` replaced by `data`.
pub open spec fn overwrite(mem: Seq<u8>, start: int, data: Seq<u8>) -> Seq<u8> {
    mem.subrange(0, start) + data + mem.subrange(start + data.len(), mem.len() as int)
}

/// The 32-bit little-endian value of the four bytes at `addr`.
pub open spec fn le_word(mem: Seq<u8>, addr: int) -> u32 {
    (mem[addr] + mem[addr + 1] * 0x100 + mem[addr + 2] * 0x1_0000 + mem[addr + 3] * 0x100_0000) as u32
}

/// Whether the byte range `[start, end)` lies inside a region of `size` bytes.
pub open spec fn in_bounds(start: int, end: int, size: int) -> bool {
    0 <= start <= end <= size
}

/// A fixed-size byte-addressable region. Every access checks its bounds and
/// fails with [`CpuError::OutOfBounds`] rather than touching anything outside.
pub struct MonitoredMemory {
    inner: memmap2::MmapMut,
}

impl View for MonitoredMemory {
    type V = Seq<u8>;

    closed spec fn view(&self) -> Seq<u8> {
        mmap_bytes(self.inner)
    }
}

impl MonitoredMemory {
    /// Reserves a region of `size` bytes, all zero.
    pub fn new(size: usize) -> (r: Result<MonitoredMemory, CpuError>)
        ensures
            r is Ok ==> r->Ok_0@ == Seq::new(size as nat, |i: int| 0u8),
            r is Err ==> r->Err_0 == CpuError::AllocationFailed,
    {
        match memmap2::MmapMut::map_anon(size) {
            Ok(inner) => Ok(MonitoredMemory { inner }),
            Err(_) => Err(CpuError::AllocationFailed),
        }
    }

    /// The size of the region in bytes.
    pub fn size(&self) -> (r: usize)
        ensures
            r == self@.len(),
    {
        mmap_len(&self.inner)
    }

    /// The byte at `addr`.
    pub fn read_byte(&self, addr: u64) -> (r: Result<u8, CpuError>)
        ensures
            addr < self@.len() ==> r == Ok::<u8, CpuError>(self@[addr as int]),
            addr >= self@.len() ==> r == Err::<u8, CpuError>(CpuError::OutOfBounds),
    {
        if addr >= mmap_len(&self.inner) as u64 {
            return Err(CpuError::OutOfBounds);
        }
        Ok(mmap_get(&self.inner, addr as usize))
    }

    /// The little-endian 32-bit word in `[addr, addr + 4)`.
    pub fn read_word(&self, addr: u64) -> (r: Result<u32, CpuError>)
        ensures
            addr + 4 <= self@.len() ==> r == Ok::<u32, CpuError>(le_word(self@, addr as int)),
            addr + 4 > self@.len() ==> r == Err::<u32, CpuError>(CpuError::OutOfBounds),
            self@.len() <= usize::MAX,
    {
        let n: usize = mmap_len(&self.inner);
        let size: u64 = n as u64;
        if addr > size || size - addr < 4 {
            return Err(CpuError::OutOfBounds);
        }
        let b0 = mmap_get(&self.inner, addr as usize) as u32;
        let b1 = mmap_get(&self.inner, (addr + 1) as usize) as u32;
        let b2 = mmap_get(&self.inner, (addr + 2) as usize) as u32;
        let b3 = mmap_get(&self.inner, (addr + 3) as usize) as u32;
        Ok(b0 + b1 * 0x100 + b2 * 0x1_0000 + b3 * 0x100_0000)
    }

    /// Stores `value` at `addr`.
    pub fn write_byte(&mut self, addr: u64, value: u8) -> (r: Result<(), CpuError>)
        ensures
            addr < old(self)@.len() ==> r is Ok && final(self)@ == old(self)@.update(
                addr as int,
                value,
            ),
            addr >= old(self)@.len() ==> r == Err::<(), CpuError>(CpuError::OutOfBounds)
                && final(self)@ == old(self)@,
    {
        if addr >= mmap_len(&self.inner) as u64 {
            return Err(CpuError::OutOfBounds);
        }
        mmap_set(&mut self.inner, addr as usize, value);
        Ok(())
    }

    /// A copy of the bytes in `[start, end)`.
    pub fn read_range(&self, start: u64, end: u64) -> (r: Result<Vec<u8>, CpuError>)
        ensures
            in_bounds(start as int, end as int, self@.len() as int) ==> r is Ok && r->Ok_0@
                == self@.subrange(start as int, end as int),
            !in_bounds(start as int, end as int, self@.len() as int) ==> r is Err && r->Err_0
                == CpuError::OutOfBounds,
    {
        let n: usize = mmap_len(&self.inner);
        let size: u64 = n as u64;
        if start > end || end > size {
            return Err(CpuError::OutOfBounds);
        }
        let mut out: Vec<u8> = Vec::new();
        let mut addr: u64 = start;
        while addr < end
            invariant
                start <= addr <= end <= size,
                size == n,
                n == self@.len(),
                out@ == self@.subrange(start as int, addr as int),
            decreases end - addr,
        {
            out.push(mmap_get(&self.inner, addr as usize));
            addr = addr + 1;
        }
        Ok(out)
    }

    /// Overwrites the bytes starting at `start` with `data`. Nothing is
    /// written unless the whole range fits.
    pub fn write_range(&mut self, start: u64, data: &[u8]) -> (r: Result<(), CpuError>)
        ensures
            in_bounds(start as int, start + data@.len(), old(self)@.len() as int) ==> r is Ok
                && final(self)@ == overwrite(old(self)@, start as int, data@),
            !in_bounds(start as int, start + data@.len(), old(self)@.len() as int) ==> r
                == Err::<(), CpuError>(CpuError::OutOfBounds) && final(self)@ == old(self)@,
    {
        let n: usize = mmap_len(&self.inner);
        let size: u64 = n as u64;
        if start > size || data.len() as u64 > size - start {
            return Err(CpuError::OutOfBounds);
        }
        let ghost before = self@;
        let mut i: usize = 0;
        while i < data.len()
            invariant
                start + data@.len() <= size,
                size == n,
                n == before.len(),
                i <= data@.len(),
                self@.len() == before.len(),
                forall|j: int|
                    0 <= j < before.len() ==> #[trigger] self@[j] == if start <= j < start + i {
                        data@[j - start]
                    } else {
                        before[j]
                    },
            decreases data@.len() - i,
        {
            mmap_set(&mut self.inner, (start + i as u64) as usize, data[i]);
            i = i + 1;
        }
        assert(self@ =~= overwrite(before, start as int, data@));
        Ok(())
    }
}

} // verus!
