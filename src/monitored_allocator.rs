//! A budget for host-side allocations: it counts bytes handed out against a
//! limit and refuses requests that would exceed it.

use vstd::prelude::*;

verus! {

/// The default limit: one MiB.
pub const DEFAULT_LIMIT: usize = 1024 * 1024;

/// A request that the budget refused.
#[derive(Clone, Copy, Debug, PartialEq, Eq, Structural)]
pub struct AllocError;

/// Tracks how many bytes are allocated, never more than `limit`.
pub struct MonitoredAllocator {
    limit: usize,
    allocated: usize,
}

impl MonitoredAllocator {
    /// The allocated bytes never exceed the limit.
    pub closed spec fn wf(&self) -> bool {
        self.allocated <= self.limit
    }

    pub closed spec fn spec_limit(&self) -> nat {
        self.limit as nat
    }

    pub closed spec fn spec_allocated(&self) -> nat {
        self.allocated as nat
    }

    /// A budget of `limit` bytes with nothing allocated.
    pub fn new(limit: usize) -> (r: MonitoredAllocator)
        ensures
            r.wf(),
            r.spec_limit() == limit,
            r.spec_allocated() == 0,
    {
        MonitoredAllocator { limit, allocated: 0 }
    }

    /// The bytes currently allocated.
    pub fn allocated(&self) -> (r: usize)
        ensures
            r == self.spec_allocated(),
    {
        self.allocated
    }

    /// The most bytes that may be allocated at once.
    pub fn limit(&self) -> (r: usize)
        ensures
            r == self.spec_limit(),
    {
        self.limit
    }

    /// Sets a new limit, which may not be below what is allocated.
    pub fn set_limit(&mut self, new_limit: usize)
        requires
            old(self).wf(),
            new_limit >= old(self).spec_allocated(),
        ensures
            final(self).wf(),
            final(self).spec_limit() == new_limit,
            final(self).spec_allocated() == old(self).spec_allocated(),
    {
        self.limit = new_limit;
    }

    /// Counts `size` more bytes as allocated, unless that would exceed the
    /// limit, in which case nothing changes.
    pub fn allocate(&mut self, size: usize) -> (r: Result<(), AllocError>)
        requires
            old(self).wf(),
        ensures
            final(self).wf(),
            final(self).spec_limit() == old(self).spec_limit(),
            old(self).spec_allocated() + size <= old(self).spec_limit() ==> r is Ok
                && final(self).spec_allocated() == old(self).spec_allocated() + size,
            old(self).spec_allocated() + size > old(self).spec_limit() ==> r is Err
                && final(self).spec_allocated() == old(self).spec_allocated(),
    {
        if size > self.limit - self.allocated {
            return Err(AllocError);
        }
        self.allocated = self.allocated + size;
        Ok(())
    }

    /// Counts `size` bytes as given back.
    pub fn deallocate(&mut self, size: usize)
        requires
            old(self).wf(),
            size <= old(self).spec_allocated(),
        ensures
            final(self).wf(),
            final(self).spec_limit() == old(self).spec_limit(),
            final(self).spec_allocated() == old(self).spec_allocated() - size,
    {
        self.allocated = self.allocated - size;
    }
}

} // verus!
