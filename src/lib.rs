//! A verified emulator core for a 16-bit stored-program computer in the LC-3 family:
//! a 64K-word memory with two memory-mapped keyboard registers, and an execution
//! engine whose every step is specified by a mathematical transition function.

pub mod cpu;
pub mod image;
pub mod input;
pub mod memory;
pub mod opcodes;
