//! The ways in which emulation or its setup can fail.

use vstd::prelude::*;

verus! {

/// A fatal condition. Each one stops emulation; none is retried.
#[derive(Clone, Copy, Debug, PartialEq, Eq, Structural)]
pub enum CpuError {
    /// A memory access (fetch, load, segment copy or syscall buffer) fell
    /// outside guest memory.
    OutOfBounds,
    /// The executable image could not be parsed, is not 64-bit, or describes
    /// an inconsistent segment.
    MalformedImage,
    /// A SYSTEM instruction with an encoding that is not allowed.
    IllegalInstruction,
    /// An opcode, or a funct3 within a known opcode, that is not modelled.
    UnimplementedOpcode,
    /// An `ecall` whose syscall number is not modelled.
    UnimplementedSyscall,
    /// A `write` syscall whose buffer is not valid UTF-8.
    MalformedOutput,
    /// Guest memory could not be reserved.
    AllocationFailed,
}

} // verus!
