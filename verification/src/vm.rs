//! The virtual machine: register file, program counter, and the
//! fetch-decode-execute engine.

use vstd::prelude::*;
use vstd::wrapping::i32_specs;
use crate::instruction::{Opcode, opcode_of};

verus! {

/// The mathematical model of a machine state: the register file, the
/// program counter, the program bytes, and the remainder register.
#[verifier::ext_equal]
pub ghost struct State {
    pub regs: Seq<i32>,
    pub pc: nat,
    pub prog: Seq<u8>,
    pub rem: u32,
}

/// Truncating (round-toward-zero) integer division, the semantics of the
/// machine's division instruction on its signed registers.
pub open spec fn div_trunc(a: int, b: int) -> int {
    let m = if a >= 0 {
        a
    } else {
        -a
    };
    let n = if b >= 0 {
        b
    } else {
        -b
    };
    if (a >= 0) == (b >= 0) {
        m / n
    } else {
        -(m / n)
    }
}

/// The remainder matching `div_trunc`: it takes the sign of the dividend.
pub open spec fn rem_trunc(a: int, b: int) -> int {
    a - b * div_trunc(a, b)
}

/// The number of program bytes one instruction occupies: the opcode byte
/// plus its operand bytes.
pub open spec fn instr_width(op: Opcode) -> nat {
    match op {
        Opcode::LOAD => 4,
        Opcode::ADD => 4,
        Opcode::SUB => 4,
        Opcode::MUL => 4,
        Opcode::DIV => 4,
        Opcode::JMP => 2,
        Opcode::HLT => 1,
        Opcode::IGL => 1,
    }
}

impl State {
    /// A well-formed state has exactly 32 registers.
    pub open spec fn wf(self) -> bool {
        self.regs.len() == 32
    }

    /// The opcode of the instruction the program counter points at.
    pub open spec fn op_at(self) -> Opcode {
        opcode_of(self.prog[self.pc as int])
    }

    /// The `k`-th operand byte after the opcode byte.
    pub open spec fn operand(self, k: int) -> u8 {
        self.prog[self.pc as int + k]
    }

    /// The 16-bit big-endian immediate of a LOAD instruction.
    pub open spec fn imm16(self) -> int {
        self.operand(2) as int * 256 + self.operand(3) as int
    }

    /// The next instruction can be executed without faulting. Three
    /// encoding errors would fault the host rather than halt the run —
    /// operand bytes running past the end of the program, a register
    /// operand outside the 32-slot file, and a division by zero or of
    /// the minimum value by minus one. The engine does not check for
    /// them at run time; instead its callers must rule them out, so
    /// this predicate is the precondition of a step. A state whose
    /// program counter has reached the end of the program is trivially
    /// safe: the step ends the run instead of fetching.
    pub open spec fn step_safe(self) -> bool {
        self.pc < self.prog.len() ==> {
            &&& self.pc + instr_width(self.op_at()) <= self.prog.len()
            &&& match self.op_at() {
                Opcode::LOAD => self.operand(1) < 32,
                Opcode::JMP => self.operand(1) < 32,
                Opcode::ADD | Opcode::SUB | Opcode::MUL => self.operand(1) < 32
                    && self.operand(2) < 32 && self.operand(3) < 32,
                Opcode::DIV => self.operand(1) < 32 && self.operand(2) < 32 && self.operand(3)
                    < 32 && self.regs[self.operand(2) as int] != 0 && !(self.regs[self.operand(
                    1,
                ) as int] == i32::MIN && self.regs[self.operand(2) as int] == -1),
                Opcode::HLT | Opcode::IGL => true,
            }
        }
    }

    /// The state after executing one instruction: the single-step
    /// transition function of the machine.
    pub open spec fn step(self) -> State {
        if self.pc >= self.prog.len() {
            self
        } else {
            match self.op_at() {
                Opcode::LOAD => State {
                    regs: self.regs.update(self.operand(1) as int, self.imm16() as i32),
                    pc: (self.pc + 4) as nat,
                    ..self
                },
                Opcode::JMP => State {
                    pc: (self.regs[self.operand(1) as int] as usize) as nat,
                    ..self
                },
                Opcode::ADD => self.binary_op_state(
                    |a: int, b: int| i32_specs::signed_crop(a + b),
                ),
                Opcode::SUB => self.binary_op_state(
                    |a: int, b: int| i32_specs::signed_crop(a - b),
                ),
                Opcode::MUL => self.binary_op_state(
                    |a: int, b: int| i32_specs::signed_crop(a * b),
                ),
                Opcode::DIV => State {
                    regs: self.regs.update(
                        self.operand(3) as int,
                        div_trunc(
                            self.regs[self.operand(1) as int] as int,
                            self.regs[self.operand(2) as int] as int,
                        ) as i32,
                    ),
                    pc: (self.pc + 4) as nat,
                    rem: rem_trunc(
                        self.regs[self.operand(1) as int] as int,
                        self.regs[self.operand(2) as int] as int,
                    ) as u32,
                    ..self
                },
                Opcode::HLT => State { pc: (self.pc + 1) as nat, ..self },
                Opcode::IGL => State { pc: (self.pc + 1) as nat, ..self },
            }
        }
    }

    /// The common shape of the three wrapping arithmetic instructions:
    /// read the registers named by the first two operand bytes, combine
    /// them with `f`, and write the result to the register named by the
    /// third.
    pub open spec fn binary_op_state(self, f: spec_fn(int, int) -> i32) -> State {
        State {
            regs: self.regs.update(
                self.operand(3) as int,
                f(self.regs[self.operand(1) as int] as int, self.regs[self.operand(2) as int] as int),
            ),
            pc: (self.pc + 4) as nat,
            ..self
        }
    }

    /// Whether the step starting in this state asks for another one:
    /// `false` at end of program, on HLT, and on an illegal opcode.
    pub open spec fn step_continues(self) -> bool {
        &&& self.pc < self.prog.len()
        &&& self.op_at() != Opcode::HLT
        &&& self.op_at() != Opcode::IGL
    }

    /// The state after `n` single steps.
    pub open spec fn trace(self, n: nat) -> State
        decreases n,
    {
        if n == 0 {
            self
        } else {
            self.trace((n - 1) as nat).step()
        }
    }

    /// The first `n` steps of the run all ask to continue.
    pub open spec fn runs_until(self, n: nat) -> bool {
        forall|m: nat| m < n ==> (#[trigger] self.trace(m)).step_continues()
    }

    /// Every state a run from here visits can execute without faulting.
    pub open spec fn run_safe(self) -> bool {
        forall|n: nat| self.runs_until(n) ==> (#[trigger] self.trace(n)).step_safe()
    }

    /// The run halts after exactly `k` continuing steps: the step taken in
    /// `trace(k)` is the one that reports the stop signal.
    pub open spec fn halts_within(self, k: nat) -> bool {
        self.runs_until(k) && !self.trace(k).step_continues()
    }

    /// A run from this state eventually reports the stop signal.
    pub open spec fn halts(self) -> bool {
        exists|k: nat| self.halts_within(k)
    }

    /// The number of continuing steps before the run stops.
    pub open spec fn halt_step(self) -> nat {
        choose|k: nat| self.halts_within(k)
    }
}

/// A virtual machine instance: 32 signed 32-bit registers, a program
/// counter, the program bytes, and the remainder of the last division.
pub struct VM {
    pub registers: Vec<i32>,
    pub pc: usize,
    pub program: Vec<u8>,
    pub remainder: u32,
}

impl View for VM {
    type V = State;

    open spec fn view(&self) -> State {
        State {
            regs: self.registers@,
            pc: self.pc as nat,
            prog: self.program@,
            rem: self.remainder,
        }
    }
}

impl VM {
    /// A fresh machine: all registers zero, program counter zero, an
    /// empty program, and a zero remainder.
    pub fn new() -> (vm: VM)
        ensures
            vm@.wf(),
            vm@.regs == Seq::new(32, |i: int| 0i32),
            vm@.pc == 0,
            vm@.prog == Seq::<u8>::empty(),
            vm@.rem == 0,
    {
        let mut registers: Vec<i32> = Vec::new();
        let mut i: usize = 0;
        while i < 32
            invariant
                i <= 32,
                registers@.len() == i,
                forall|j: int| 0 <= j < i ==> registers@[j] == 0i32,
            decreases 32 - i,
        {
            registers.push(0);
            i = i + 1;
        }
        proof {
            assert(registers@ =~= Seq::new(32, |i: int| 0i32));
        }
        VM { registers, pc: 0, program: Vec::new(), remainder: 0 }
    }

    /// Read the byte at the program counter, map it through the
    /// instruction-set table, and advance the counter past it.
    pub fn decode_opcode(&mut self) -> (r: Opcode)
        requires
            old(self).pc < old(self)@.prog.len(),
        ensures
            r == old(self)@.op_at(),
            final(self).pc == old(self).pc + 1,
            final(self).registers == old(self).registers,
            final(self).program == old(self).program,
            final(self).remainder == old(self).remainder,
    {
        // the view's length is the vector's, so it fits in usize
        assert(self.program.len() == self@.prog.len());
        let opcode = Opcode::from_byte(self.program[self.pc]);
        self.pc = self.pc + 1;
        opcode
    }

    /// Read one operand byte at the program counter and advance past it.
    pub fn next_8_bits(&mut self) -> (r: u8)
        requires
            old(self).pc < old(self)@.prog.len(),
        ensures
            r == old(self)@.prog[old(self).pc as int],
            final(self).pc == old(self).pc + 1,
            final(self).registers == old(self).registers,
            final(self).program == old(self).program,
            final(self).remainder == old(self).remainder,
    {
        assert(self.program.len() == self@.prog.len());
        let result = self.program[self.pc];
        self.pc = self.pc + 1;
        result
    }

    /// Read a big-endian unsigned 16-bit immediate (most-significant byte
    /// first) at the program counter and advance past both bytes.
    pub fn next_16_bits(&mut self) -> (r: u16)
        requires
            old(self).pc + 1 < old(self)@.prog.len(),
        ensures
            r == old(self)@.prog[old(self).pc as int] * 256 + old(self)@.prog[old(self).pc + 1],
            final(self).pc == old(self).pc + 2,
            final(self).registers == old(self).registers,
            final(self).program == old(self).program,
            final(self).remainder == old(self).remainder,
    {
        assert(self.program.len() == self@.prog.len());
        let hi = self.program[self.pc];
        let lo = self.program[self.pc + 1];
        self.pc = self.pc + 2;
        (hi as u16) * 256 + (lo as u16)
    }

    /// Execute exactly one instruction. The result is the continue
    /// signal: `true` if execution should proceed to another step,
    /// `false` if this was the last step of the run (end of program,
    /// HLT, or an illegal opcode).
    pub fn execute_instruction(&mut self) -> (r: bool)
        requires
            old(self)@.wf(),
            old(self)@.step_safe(),
        ensures
            final(self)@ == old(self)@.step(),
            r == old(self)@.step_continues(),
            final(self)@.wf(),
    {
        assert(self.program.len() == self@.prog.len());
        assert(self.registers.len() == self@.regs.len());
        if self.pc >= self.program.len() {
            return false;
        }
        match self.decode_opcode() {
            Opcode::LOAD => {
                let register = self.next_8_bits() as usize;
                let number = self.next_16_bits();
                self.registers[register] = number as i32;
                proof {
                    assert(self@ =~= old(self)@.step());
                }
                true
            },
            Opcode::JMP => {
                let register = self.next_8_bits() as usize;
                let target = self.registers[register];
                self.pc = #[verifier::truncate] (target as usize);
                proof {
                    assert(self@ =~= old(self)@.step());
                }
                true
            },
            Opcode::ADD => {
                let register1 = self.next_8_bits() as usize;
                let register2 = self.next_8_bits() as usize;
                let dest = self.next_8_bits() as usize;
                let sum = self.registers[register1].wrapping_add(self.registers[register2]);
                self.registers[dest] = sum;
                proof {
                    lemma_wrapping_add_crop(
                        old(self)@.regs[register1 as int],
                        old(self)@.regs[register2 as int],
                    );
                    assert(self@ =~= old(self)@.step());
                }
                true
            },
            Opcode::SUB => {
                let register1 = self.next_8_bits() as usize;
                let register2 = self.next_8_bits() as usize;
                let dest = self.next_8_bits() as usize;
                let difference = self.registers[register1].wrapping_sub(self.registers[register2]);
                self.registers[dest] = difference;
                proof {
                    lemma_wrapping_sub_crop(
                        old(self)@.regs[register1 as int],
                        old(self)@.regs[register2 as int],
                    );
                    assert(self@ =~= old(self)@.step());
                }
                true
            },
            Opcode::MUL => {
                let register1 = self.next_8_bits() as usize;
                let register2 = self.next_8_bits() as usize;
                let dest = self.next_8_bits() as usize;
                let product = self.registers[register1].wrapping_mul(self.registers[register2]);
                self.registers[dest] = product;
                proof {
                    assert(self@ =~= old(self)@.step());
                }
                true
            },
            Opcode::DIV => {
                let register1 = self.next_8_bits() as usize;
                let register2 = self.next_8_bits() as usize;
                let dest = self.next_8_bits() as usize;
                let dividend = self.registers[register1];
                let divisor = self.registers[register2];
                proof {
                    lemma_checked_div_rem_trunc(dividend, divisor);
                }
                let quotient = dividend.checked_div(divisor).unwrap();
                let leftover = dividend.checked_rem(divisor).unwrap();
                self.registers[dest] = quotient;
                self.remainder = #[verifier::truncate] (leftover as u32);
                proof {
                    assert(self@ =~= old(self)@.step());
                }
                true
            },
            Opcode::HLT => {
                proof {
                    assert(self@ =~= old(self)@.step());
                }
                false
            },
            Opcode::IGL => {
                proof {
                    assert(self@ =~= old(self)@.step());
                }
                false
            },
        }
    }

    /// Execute exactly one instruction, ignoring the continue signal:
    /// the single-step entry point for interactive front ends that
    /// inspect the machine between steps.
    pub fn run_once(&mut self)
        requires
            old(self)@.wf(),
            old(self)@.step_safe(),
        ensures
            final(self)@ == old(self)@.step(),
            final(self)@.wf(),
    {
        self.execute_instruction();
    }

    /// Execute instructions until one reports the stop signal: an
    /// explicit HLT, an illegal opcode, or the program counter running
    /// past the end of the program.
    ///
    /// The machine itself places no bound on a run: a program that
    /// jumps in a circle never stops. A caller of the verified loop
    /// must therefore supply a program whose run halts (`halts`), and
    /// one whose run never faults (`run_safe`).
    pub fn run(&mut self)
        requires
            old(self)@.wf(),
            old(self)@.run_safe(),
            old(self)@.halts(),
        ensures
            final(self)@ == old(self)@.trace((old(self)@.halt_step() + 1) as nat),
            final(self)@.wf(),
    {
        let ghost s0 = self@;
        let ghost k = s0.halt_step();
        proof {
            assert(s0.halts_within(k));
        }
        let ghost mut m: nat = 0nat;
        let mut is_done = false;
        while !is_done
            invariant
                s0 == old(self)@,
                s0.wf(),
                s0.run_safe(),
                s0.halts_within(k),
                self@.wf(),
                !is_done ==> m <= k && self@ == s0.trace(m) && s0.runs_until(m),
                is_done ==> self@ == s0.trace((k + 1) as nat),
            decreases k + 1 - m,
        {
            proof {
                assert(s0.trace(m).step_safe());
            }
            let continuing = self.execute_instruction();
            is_done = !continuing;
            proof {
                let m_prev = m;
                m = m + 1;
                assert(self@ == s0.trace(m)) by {
                    assert(s0.trace(m) == s0.trace(m_prev).step());
                }
                if continuing {
                    assert(s0.runs_until(m)) by {
                        assert(forall|mm: nat|
                            mm < m ==> (#[trigger] s0.trace(mm)).step_continues()) by {
                            assert(s0.trace(m_prev).step_continues());
                        }
                    }
                    assert(m <= k) by {
                        if m > k {
                            assert(s0.trace(k).step_continues());
                        }
                    }
                } else {
                    assert(m_prev == k) by {
                        if m_prev < k {
                            assert(s0.trace(m_prev).step_continues());
                        }
                        if m_prev > k {
                            assert(s0.trace(k).step_continues());
                        }
                    }
                }
            }
        }
    }
}

/// Wrapping addition of two registers is the two's-complement crop of
/// their exact sum.
pub proof fn lemma_wrapping_add_crop(a: i32, b: i32)
    ensures
        i32_specs::wrapping_add(a, b) == i32_specs::signed_crop(a + b),
{
    lemma_signed_crop_near(a + b);
}

/// Wrapping subtraction of two registers is the two's-complement crop
/// of their exact difference.
pub proof fn lemma_wrapping_sub_crop(a: i32, b: i32)
    ensures
        i32_specs::wrapping_sub(a, b) == i32_specs::signed_crop(a - b),
{
    lemma_signed_crop_near(a - b);
}

/// Cropping an integer that lies within one wrap of the signed 32-bit
/// range picks the unique congruent representative.
proof fn lemma_signed_crop_near(x: int)
    requires
        -0x1_0000_0000 <= x <= 0xffff_ffff,
    ensures
        i32_specs::signed_crop(x) == if x > i32::MAX {
            (x - 0x1_0000_0000) as i32
        } else if x < i32::MIN {
            (x + 0x1_0000_0000) as i32
        } else {
            x as i32
        },
{
    let r = 0x1_0000_0000int;
    if 0 <= x {
        vstd::arithmetic::div_mod::lemma_small_mod(x as nat, r as nat);
        assert(x % r == x);
    } else {
        vstd::arithmetic::div_mod::lemma_mod_add_multiples_vanish(x, r);
        vstd::arithmetic::div_mod::lemma_small_mod((x + r) as nat, r as nat);
        assert(x % r == x + r);
    }
}

/// The checked division and remainder of the standard library agree
/// with the machine's truncating division semantics whenever the
/// divisor is nonzero and the quotient is representable.
pub proof fn lemma_checked_div_rem_trunc(a: i32, b: i32)
    requires
        b != 0,
        !(a == i32::MIN && b == -1),
    ensures
        i32::MIN <= div_trunc(a as int, b as int) <= i32::MAX,
        -0x8000_0000 < rem_trunc(a as int, b as int) < 0x8000_0000,
        a.checked_div(b) == Some(div_trunc(a as int, b as int) as i32),
        a.checked_rem(b) == Some(rem_trunc(a as int, b as int) as i32),
{
    let x = a as int;
    let d = b as int;
    let m = if x >= 0 { x } else { -x };
    let n = if d >= 0 { d } else { -d };
    let q = m / n;
    vstd::arithmetic::div_mod::lemma_div_pos_is_pos(m, n);
    vstd::arithmetic::div_mod::lemma_div_nonincreasing(m, n);
    vstd::arithmetic::div_mod::lemma_fundamental_div_mod(m, n);
    vstd::arithmetic::div_mod::lemma_mod_division_less_than_divisor(m, n);
    if q == 0x8000_0000 {
        // only MIN / 1 reaches the edge of the range
        if n >= 2 {
            vstd::arithmetic::div_mod::lemma_div_is_ordered_by_denominator(m, 2, n);
            assert(m / 2 <= 0x4000_0000) by {
                vstd::arithmetic::div_mod::lemma_div_is_ordered(m, 0x8000_0000, 2);
            }
            assert(false);
        }
        assert(n == 1);
        assert(m == 0x8000_0000);
        assert(a == i32::MIN && b == 1);
    }
    assert(0 <= q <= 0x8000_0000);
    assert(m == n * q + m % n);
    assert(div_trunc(x, d) == if (x >= 0) == (d >= 0) { q } else { -q });
    assert(rem_trunc(x, d) == x - d * div_trunc(x, d));
    if x >= 0 && d >= 0 {
        assert(rem_trunc(x, d) == m % n) by (nonlinear_arith)
            requires m == n * q + m % n, x == m, d == n, div_trunc(x, d) == q,
                rem_trunc(x, d) == x - d * div_trunc(x, d);
    } else if x < 0 && d < 0 {
        assert(rem_trunc(x, d) == -(m % n)) by (nonlinear_arith)
            requires m == n * q + m % n, x == -m, d == -n, div_trunc(x, d) == q,
                rem_trunc(x, d) == x - d * div_trunc(x, d);
    } else if x < 0 {
        assert(rem_trunc(x, d) == -(m % n)) by (nonlinear_arith)
            requires m == n * q + m % n, x == -m, d == n, div_trunc(x, d) == -q,
                rem_trunc(x, d) == x - d * div_trunc(x, d);
    } else {
        assert(rem_trunc(x, d) == m % n) by (nonlinear_arith)
            requires m == n * q + m % n, x == m, d == -n, div_trunc(x, d) == -q,
                rem_trunc(x, d) == x - d * div_trunc(x, d);
    }
}

} // verus!
