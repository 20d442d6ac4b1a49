//! Register indices by their ABI names, and the syscall numbers of the
//! environment-call interface.

use vstd::prelude::*;

verus! {

/// Hard-wired zero.
pub const ZERO: usize = 0;
/// Return address.
pub const RA: usize = 1;
/// Stack pointer.
pub const SP: usize = 2;
/// Global pointer.
pub const GP: usize = 3;
/// Thread pointer.
pub const TP: usize = 4;
/// Temporaries, saved by the caller.
pub const T0: usize = 5;
pub const T1: usize = 6;
pub const T2: usize = 7;
/// Saved register, also the frame pointer.
pub const S0: usize = 8;
pub const FP: usize = 8;
pub const S1: usize = 9;
/// Argument registers; `A7` holds the syscall number of an `ecall`.
pub const A0: usize = 10;
pub const A1: usize = 11;
pub const A2: usize = 12;
pub const A3: usize = 13;
pub const A4: usize = 14;
pub const A5: usize = 15;
pub const A6: usize = 16;
pub const A7: usize = 17;
/// Saved registers, saved by the callee.
pub const S2: usize = 18;
pub const S3: usize = 19;
pub const S4: usize = 20;
pub const S5: usize = 21;
pub const S6: usize = 22;
pub const S7: usize = 23;
pub const S8: usize = 24;
pub const S9: usize = 25;
pub const S10: usize = 26;
pub const S11: usize = 27;
/// Temporaries, saved by the caller.
pub const T3: usize = 28;
pub const T4: usize = 29;
pub const T5: usize = 30;
pub const T6: usize = 31;

/// `write(fd = a0, buf = a1, len = a2)`.
pub const ECALL_WRITE: u64 = 64;
/// `exit(code = a0)`.
pub const ECALL_EXIT: u64 = 93;

} // verus!
