//! Laws of the execution engine: properties of the single-step
//! transition function that hold for every machine state, stated and
//! proved over the `State` model.

use vstd::prelude::*;
use vstd::wrapping::i32_specs;
use crate::instruction::{Opcode, opcode_of};
use crate::vm::State;

verus! {

/// A machine whose program is shorter than one byte has nothing to
/// fetch: the step reports the stop signal and leaves the whole state
/// — registers included — unchanged.
pub proof fn lemma_empty_program_stops(s: State)
    requires
        s.prog.len() < 1,
    ensures
        s.step() == s,
        !s.step_continues(),
{
}

/// Stepping a machine whose program counter has reached or passed the
/// end of the program changes nothing: a halted machine stays halted,
/// however often it is stepped.
pub proof fn lemma_step_past_end_is_noop(s: State)
    requires
        s.pc >= s.prog.len(),
    ensures
        s.step() == s,
        !s.step_continues(),
{
}

/// A LOAD whose operands end the program writes exactly the 16-bit
/// big-endian immediate — zero-extended, never sign-extended — into
/// the destination register and leaves the counter at 4, which ends
/// the run on the next fetch.
pub proof fn lemma_load_then_end(s: State)
    requires
        s.wf(),
        s.pc == 0,
        s.prog.len() == 4,
        opcode_of(s.prog[0]) == Opcode::LOAD,
        s.prog[1] < 32,
    ensures
        s.step().regs[s.prog[1] as int] as int == s.imm16(),
        0 <= s.imm16() <= 0xffff,
        s.step().pc == 4,
        !s.step().step_continues(),
{
}

/// A JMP lands exactly on the target held in the source register,
/// whatever the prior value of the program counter was.
pub proof fn lemma_jmp_sets_counter(s: State, t: i32)
    requires
        s.wf(),
        s.pc + 2 <= s.prog.len(),
        opcode_of(s.prog[s.pc as int]) == Opcode::JMP,
        s.prog[s.pc as int + 1] < 32,
        s.regs[s.prog[s.pc as int + 1] as int] == t,
        0 <= t,
    ensures
        s.step().pc == t,
        s.step().regs == s.regs,
        s.step().rem == s.rem,
{
}

/// The two's-complement crop that ADD, SUB and MUL apply to their
/// exact result is genuine wraparound: the cropped value stays in the
/// signed 32-bit range and differs from the exact result by a multiple
/// of 2^32.
pub proof fn lemma_signed_crop_wraps(x: int)
    ensures
        i32::MIN <= i32_specs::signed_crop(x) <= i32::MAX,
        (x - i32_specs::signed_crop(x)) % 0x1_0000_0000 == 0,
{
    let r = 0x1_0000_0000int;
    vstd::arithmetic::div_mod::lemma_fundamental_div_mod(x, r);
    vstd::arithmetic::div_mod::lemma_mod_division_less_than_divisor(x, r);
    if x % r > i32::MAX {
        assert(x - i32_specs::signed_crop(x) == r * (x / r) + r);
        assert((r * (x / r) + r) % r == 0) by {
            vstd::arithmetic::div_mod::lemma_mod_multiples_basic(x / r + 1, r);
            assert(r * (x / r) + r == (x / r + 1) * r) by (nonlinear_arith);
        }
    } else {
        assert(x - i32_specs::signed_crop(x) == r * (x / r));
        assert((r * (x / r)) % r == 0) by {
            vstd::arithmetic::div_mod::lemma_mod_multiples_basic(x / r, r);
            assert(r * (x / r) == (x / r) * r) by (nonlinear_arith);
        }
    }
}

/// ADD, SUB and MUL write the two's-complement wrap of the exact
/// arithmetic result into the destination register: an overflowing
/// sum, difference or product wraps instead of faulting, and the run
/// continues.
pub proof fn lemma_arith_wraps(s: State)
    requires
        s.wf(),
        s.pc + 4 <= s.prog.len(),
        s.op_at() == Opcode::ADD || s.op_at() == Opcode::SUB || s.op_at() == Opcode::MUL,
        s.operand(3) < 32,
    ensures
        ({
            let a = s.regs[s.operand(1) as int] as int;
            let b = s.regs[s.operand(2) as int] as int;
            let exact = if s.op_at() == Opcode::ADD {
                a + b
            } else if s.op_at() == Opcode::SUB {
                a - b
            } else {
                a * b
            };
            s.step().regs[s.operand(3) as int] == i32_specs::signed_crop(exact)
        }),
        s.step().pc == s.pc + 4,
        s.step().rem == s.rem,
        s.step_continues(),
{
}

/// An explicit HLT stops the run at once: the counter moves exactly
/// one byte past the opcode and no register or remainder changes.
pub proof fn lemma_hlt_halts(s: State)
    requires
        s.pc < s.prog.len(),
        opcode_of(s.prog[s.pc as int]) == Opcode::HLT,
    ensures
        s.step().pc == s.pc + 1,
        s.step().regs == s.regs,
        s.step().rem == s.rem,
        !s.step_continues(),
{
}

/// An opcode byte with no mapping in the instruction-set table stops
/// the run at once, exactly as HLT does: the counter moves one byte
/// past the offending opcode and no register or remainder changes.
pub proof fn lemma_unmapped_byte_halts(s: State)
    requires
        s.pc < s.prog.len(),
        s.prog[s.pc as int] >= 7,
    ensures
        s.op_at() == Opcode::IGL,
        s.step().pc == s.pc + 1,
        s.step().regs == s.regs,
        s.step().rem == s.rem,
        !s.step_continues(),
{
}

} // verus!
