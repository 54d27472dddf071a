//! A minimal register-based virtual machine.
//!
//! The machine executes a byte-encoded instruction stream against a fixed
//! bank of 32 signed 32-bit registers, one unsigned remainder register, and
//! a program counter. `vm::VM` owns the state and the fetch-decode-execute
//! engine; `instruction::Opcode` is the symbolic instruction set.

pub mod instruction;
pub mod laws;
pub mod vm;
