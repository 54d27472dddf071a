//! The instruction set: symbolic opcodes and the byte-to-opcode table.

use vstd::prelude::*;

verus! {

/// A symbolic operation tag decoded from one byte of the program buffer.
///
/// Every byte value decodes to some opcode: a byte with no entry in the
/// table decodes to `IGL` (illegal), which halts the run, rather than
/// faulting during decode.
#[derive(Clone, Copy, PartialEq, Eq, Structural, Debug)]
pub enum Opcode {
    LOAD,
    ADD,
    SUB,
    MUL,
    DIV,
    HLT,
    JMP,
    IGL,
}

/// The byte-to-opcode mapping, as a mathematical function.
pub open spec fn opcode_of(b: u8) -> Opcode {
    if b == 0 {
        Opcode::LOAD
    } else if b == 1 {
        Opcode::ADD
    } else if b == 2 {
        Opcode::SUB
    } else if b == 3 {
        Opcode::MUL
    } else if b == 4 {
        Opcode::DIV
    } else if b == 5 {
        Opcode::HLT
    } else if b == 6 {
        Opcode::JMP
    } else {
        Opcode::IGL
    }
}

impl Opcode {
    /// Decode one raw byte into its symbolic opcode.
    pub fn from_byte(b: u8) -> (r: Opcode)
        ensures
            r == opcode_of(b),
    {
        match b {
            0 => Opcode::LOAD,
            1 => Opcode::ADD,
            2 => Opcode::SUB,
            3 => Opcode::MUL,
            4 => Opcode::DIV,
            5 => Opcode::HLT,
            6 => Opcode::JMP,
            _ => Opcode::IGL,
        }
    }
}

} // verus!
