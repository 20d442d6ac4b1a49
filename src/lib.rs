//! An instruction-level emulator for a subset of 64-bit RISC-V.

pub mod constants;
pub mod cpu;
pub mod elf;
pub mod error;
pub mod loader;
pub mod monitored_memory;
pub mod monitored_allocator;
pub mod utils;
