use vstd::prelude::*;

verus! {

// Instruction opcodes: bits 15-12 of an instruction word.

pub const BR: u16 = 0;

pub const ADD: u16 = 1;

pub const LD: u16 = 2;

pub const ST: u16 = 3;

pub const JSR: u16 = 4;

pub const AND: u16 = 5;

pub const LDR: u16 = 6;

pub const STR: u16 = 7;

pub const RTI: u16 = 8;

pub const NOT: u16 = 9;

pub const LDI: u16 = 10;

pub const STI: u16 = 11;

pub const JMP: u16 = 12;

/// Reserved: no instruction is defined for this opcode.
pub const RES: u16 = 13;

pub const LEA: u16 = 14;

pub const TRAP: u16 = 15;

} // verus!
