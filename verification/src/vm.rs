//! The register-based bytecode virtual machine: a fetch-decode-execute loop
//! over a fixed file of 32 signed 32-bit registers and a flat byte-addressable
//! program.
//!
//! The machine's behaviour is given by a single-step relation on
//! [`VmState`], the mathematical model of the machine: [`step_enabled`] says
//! when the instruction at the program counter can execute without a fatal
//! error (counter overrun, register index out of range, division by zero),
//! and [`step`] says what it does. `run` drives the machine until a halting
//! opcode, and is specified against the iterated step function.
//!
//! Arithmetic opcodes wrap on overflow. A malformed program — one whose
//! next instruction is not enabled — is a fatal error by design, the
//! machine's equivalent of a hardware trap, so the executable entry points
//! require enabledness instead of recovering.

use vstd::prelude::*;

use crate::instruction::Opcode;
use crate::instruction::opcode_of;

verus! {

use vstd::arithmetic::div_mod::lemma_div_basics_2;
use vstd::arithmetic::div_mod::lemma_div_is_ordered_by_denominator;
use vstd::arithmetic::div_mod::lemma_div_nonincreasing;
use vstd::arithmetic::div_mod::lemma_div_pos_is_pos;
use vstd::arithmetic::div_mod::lemma_mod_division_less_than_divisor;

/// Mathematical model of the machine state.
#[verifier::ext_equal]
pub ghost struct VmState {
    /// The 32 signed registers.
    pub registers: Seq<i32>,
    /// The program bytes.
    pub program: Seq<u8>,
    /// Index into `program` of the next byte to fetch.
    pub pc: nat,
    /// Remainder of the most recent division instruction.
    pub remainder: u32,
    /// Result of the most recent equality comparison instruction.
    pub equal_flag: bool,
}

/// A well-formed state has exactly 32 registers.
pub open spec fn wf(s: VmState) -> bool {
    s.registers.len() == 32
}

/// The state every new machine starts in: zeroed registers, empty program,
/// counter at zero, no remainder, equality flag clear.
pub open spec fn init_state() -> VmState {
    VmState {
        registers: Seq::new(32, |i: int| 0i32),
        program: Seq::empty(),
        pc: 0,
        remainder: 0,
        equal_flag: false,
    }
}

/// The opcode about to execute: the decoding of the byte at the program
/// counter.
pub open spec fn cur_opcode(s: VmState) -> Opcode {
    opcode_of(s.program[s.pc as int])
}

/// The `k`-th operand byte of the current instruction (`k` counted from 1,
/// the byte right after the opcode).
pub open spec fn operand(s: VmState, k: int) -> u8 {
    s.program[s.pc as int + k]
}

/// The register value named by the `k`-th operand byte.
pub open spec fn src(s: VmState, k: int) -> i32 {
    s.registers[operand(s, k) as int]
}

/// Machine limit: the program is short enough that no relative jump's
/// address arithmetic can overflow a `usize`.
pub open spec fn program_fits(s: VmState) -> bool {
    s.program.len() + 260 <= usize::MAX
}

/// When the instruction at the program counter can execute without a fatal
/// error. Executing an instruction whose operands run past the end of the
/// program, name a register outside 0..32, divide by zero, overflow the
/// division, jump to a negative address or jump back past the start of the
/// program is a fatal error — the machine's equivalent of a hardware trap —
/// and such steps are excluded here rather than recovered from.
pub open spec fn step_enabled(s: VmState) -> bool {
    &&& wf(s)
    &&& program_fits(s)
    &&& s.pc < s.program.len()
    &&& match cur_opcode(s) {
        Opcode::HLT => true,
        Opcode::IGL => true,
        Opcode::LOAD => s.pc + 4 <= s.program.len() && operand(s, 1) < 32,
        Opcode::ADD | Opcode::SUB | Opcode::MUL => {
            &&& s.pc + 4 <= s.program.len()
            &&& operand(s, 1) < 32
            &&& operand(s, 2) < 32
            &&& operand(s, 3) < 32
        },
        Opcode::DIV => {
            &&& s.pc + 4 <= s.program.len()
            &&& operand(s, 1) < 32
            &&& operand(s, 2) < 32
            &&& operand(s, 3) < 32
            &&& src(s, 2) != 0
            &&& !(src(s, 1) == i32::MIN && src(s, 2) == -1)
        },
        Opcode::JMP => s.pc + 2 <= s.program.len() && operand(s, 1) < 32 && src(s, 1) >= 0,
        Opcode::JMPF => s.pc + 2 <= s.program.len(),
        Opcode::JMPB => s.pc + 2 <= s.program.len() && operand(s, 1) as int <= s.pc + 2,
        Opcode::EQ => {
            &&& s.pc + 4 <= s.program.len()
            &&& operand(s, 1) < 32
            &&& operand(s, 2) < 32
        },
        Opcode::JEQ => {
            if s.equal_flag {
                s.pc + 2 <= s.program.len() && operand(s, 1) < 32 && src(s, 1) >= 0
            } else {
                true
            }
        },
    }
}

/// One step of the machine: the state after executing the instruction at the
/// program counter, and whether execution continues (`false` for the two
/// halting opcodes). Meaningful only where `step_enabled` holds.
pub open spec fn step(s: VmState) -> (VmState, bool) {
    match cur_opcode(s) {
        Opcode::HLT => ((VmState { pc: (s.pc + 1) as nat, ..s }), false),
        Opcode::IGL => ((VmState { pc: (s.pc + 1) as nat, ..s }), false),
        Opcode::LOAD => {
            let imm = (operand(s, 2) as u16) * 256 + (operand(s, 3) as u16);
            ((VmState {
                registers: s.registers.update(operand(s, 1) as int, imm as i32),
                pc: (s.pc + 4) as nat,
                ..s
            }), true)
        },
        Opcode::ADD => ((VmState {
            registers: s.registers.update(operand(s, 3) as int, src(s, 1).wrapping_add(src(s, 2))),
            pc: (s.pc + 4) as nat,
            ..s
        }), true),
        Opcode::SUB => ((VmState {
            registers: s.registers.update(operand(s, 3) as int, src(s, 1).wrapping_sub(src(s, 2))),
            pc: (s.pc + 4) as nat,
            ..s
        }), true),
        Opcode::MUL => ((VmState {
            registers: s.registers.update(operand(s, 3) as int, src(s, 1).wrapping_mul(src(s, 2))),
            pc: (s.pc + 4) as nat,
            ..s
        }), true),
        Opcode::DIV => ((VmState {
            registers: s.registers.update(
                operand(s, 3) as int,
                src(s, 1).checked_div(src(s, 2)).unwrap(),
            ),
            remainder: src(s, 1).checked_rem(src(s, 2)).unwrap() as u32,
            pc: (s.pc + 4) as nat,
            ..s
        }), true),
        Opcode::JMP => ((VmState { pc: src(s, 1) as nat, ..s }), true),
        Opcode::JMPF => ((VmState { pc: (s.pc + 2 + operand(s, 1)) as nat, ..s }), true),
        Opcode::JMPB => ((VmState { pc: (s.pc + 2 - operand(s, 1)) as nat, ..s }), true),
        Opcode::EQ => ((VmState {
            equal_flag: src(s, 1) == src(s, 2),
            pc: (s.pc + 4) as nat,
            ..s
        }), true),
        Opcode::JEQ => {
            if s.equal_flag {
                ((VmState { pc: src(s, 1) as nat, ..s }), true)
            } else {
                ((VmState { pc: (s.pc + 4) as nat, ..s }), true)
            }
        },
    }
}

/// The state after `n` steps from `s`.
pub open spec fn steps(s: VmState, n: nat) -> VmState
    decreases n,
{
    if n == 0 {
        s
    } else {
        step(steps(s, (n - 1) as nat)).0
    }
}

/// The step at `s` can execute and execution continues afterwards.
pub open spec fn live_step(s: VmState) -> bool {
    step_enabled(s) && step(s).1
}

/// The step at `s` can execute and is the last one: a halting opcode.
pub open spec fn halting_step(s: VmState) -> bool {
    step_enabled(s) && !step(s).1
}

/// From `s`, the machine executes exactly `n` ordinary steps and then a
/// halting one, all of them enabled.
pub open spec fn halts_at(s: VmState, n: nat) -> bool {
    &&& forall|m: nat| m < n ==> live_step(#[trigger] steps(s, m))
    &&& halting_step(steps(s, n))
}

/// From `s`, the machine reaches a halting opcode with every step enabled:
/// the programs on which `run` returns rather than trapping or spinning.
pub open spec fn halts(s: VmState) -> bool {
    exists|n: nat| halts_at(s, n)
}

/// With a nonzero divisor, and leaving out the one overflowing pair, Rust's
/// checked division and remainder always produce a value.
proof fn lemma_checked_div_rem_some(a: i32, b: i32)
    requires
        b != 0,
        !(a == i32::MIN && b == -1),
    ensures
        a.checked_div(b) is Some,
        a.checked_rem(b) is Some,
{
    let x = a as int;
    let d = b as int;
    if x > 0 && d > 0 {
        lemma_div_pos_is_pos(x, d);
        lemma_div_nonincreasing(x, d);
        lemma_mod_division_less_than_divisor(x, d);
    } else if x < 0 && d < 0 {
        lemma_div_pos_is_pos(x * -1, d * -1);
        if d == -1 {
            lemma_div_basics_2(x * -1);
        } else {
            lemma_div_nonincreasing(x * -1, d * -1);
            lemma_div_is_ordered_by_denominator(x * -1, 2, d * -1);
            lemma_div_is_ordered_by_denominator(x * -1, 1, 2);
            lemma_div_basics_2(x * -1);
        }
        lemma_mod_division_less_than_divisor(x * -1, d * -1);
    } else if x < 0 {
        lemma_div_pos_is_pos(x * -1, d);
        lemma_div_nonincreasing(x * -1, d);
        lemma_mod_division_less_than_divisor(x * -1, d);
    } else if x > 0 {
        lemma_div_pos_is_pos(x, d * -1);
        lemma_div_nonincreasing(x, d * -1);
        lemma_mod_division_less_than_divisor(x, d * -1);
    }
}

/// A machine halts after only one number of steps: `halts_at` picks out a
/// unique trace length.
pub proof fn lemma_halts_at_unique(s: VmState, n1: nat, n2: nat)
    requires
        halts_at(s, n1),
        halts_at(s, n2),
    ensures
        n1 == n2,
{
    if n1 < n2 {
        assert(live_step(steps(s, n1)));
    } else if n2 < n1 {
        assert(live_step(steps(s, n2)));
    }
}

/// Law: a program whose first byte is the HLT opcode makes the machine halt
/// after consuming that single byte — the counter ends at 1 and the
/// registers, remainder and equality flag are untouched.
pub proof fn lemma_run_stops_on_hlt(s: VmState)
    requires
        wf(s),
        program_fits(s),
        s.pc == 0,
        s.program.len() > 0,
        opcode_of(s.program[0]) == Opcode::HLT,
    ensures
        halts_at(s, 0),
        forall|n: nat| halts_at(s, n) ==> n == 0,
        step(steps(s, 0)).0 == (VmState { pc: 1, ..s }),
{
    assert forall|n: nat| halts_at(s, n) implies n == 0 by {
        lemma_halts_at_unique(s, n, 0);
    }
}

/// Law: a program whose first byte is not a recognized opcode makes the
/// machine halt after consuming that single byte, exactly as HLT does — the
/// counter ends at 1 and all other state is untouched.
pub proof fn lemma_run_stops_on_unrecognized(s: VmState)
    requires
        wf(s),
        program_fits(s),
        s.pc == 0,
        s.program.len() > 0,
        opcode_of(s.program[0]) == Opcode::IGL,
    ensures
        halts_at(s, 0),
        forall|n: nat| halts_at(s, n) ==> n == 0,
        step(steps(s, 0)).0 == (VmState { pc: 1, ..s }),
{
    assert forall|n: nat| halts_at(s, n) implies n == 0 by {
        lemma_halts_at_unique(s, n, 0);
    }
}

/// Law: a 16-bit value split into its two big-endian bytes and decoded
/// again comes back unchanged — the decoding `next_u16` performs inverts
/// the byte-pair encoding.
pub proof fn lemma_u16_big_endian_round_trip(v: u16)
    ensures
        ((v / 256) as u16) * 256 + ((v % 256) as u16) == v,
        (v / 256) <= 255,
        (v % 256) <= 255,
{
    vstd::arithmetic::div_mod::lemma_fundamental_div_mod(v as int, 256);
}

/// The virtual machine. Constructed in the initial state, loaded with a
/// program, then driven to completion by `run` or stepped one instruction at
/// a time by `execute_instruction`.
pub struct VM {
    registers: [i32; 32],
    program: Vec<u8>,
    pc: usize,
    remainder: u32,
    equal_flag: bool,
}

impl View for VM {
    type V = VmState;

    closed spec fn view(&self) -> VmState {
        VmState {
            registers: self.registers@,
            program: self.program@,
            pc: self.pc as nat,
            remainder: self.remainder,
            equal_flag: self.equal_flag,
        }
    }
}

impl VM {
    /// A machine in the initial state: zeroed registers, empty program,
    /// counter at zero.
    pub fn new() -> (vm: VM)
        ensures
            vm@ == init_state(),
    {
        let vm = VM {
            registers: [0; 32],
            program: Vec::new(),
            pc: 0,
            remainder: 0,
            equal_flag: false,
        };
        proof {
            assert(vm@.registers =~= init_state().registers);
            assert(vm@.program =~= init_state().program);
            assert(vm@ =~= init_state());
        }
        vm
    }

    /// Loads the program the machine will execute, replacing any previous
    /// one. The rest of the state is untouched.
    pub fn set_program(&mut self, program: Vec<u8>)
        ensures
            final(self)@ == (VmState { program: program@, ..old(self)@ }),
    {
        self.program = program;
    }

    /// Appends bytes to the loaded program.
    pub fn extend_program(&mut self, bytes: &[u8])
        ensures
            final(self)@ == (VmState { program: old(self)@.program + bytes@, ..old(self)@ }),
    {
        self.program.extend_from_slice(bytes);
    }

    /// The value of register `i`.
    pub fn register(&self, i: usize) -> (r: i32)
        requires
            i < 32,
        ensures
            r == self@.registers[i as int],
    {
        self.registers[i]
    }

    /// Stores `val` in register `i` directly, for setting up a machine from
    /// outside a program.
    pub fn set_register(&mut self, i: usize, val: i32)
        requires
            i < 32,
        ensures
            final(self)@ == (VmState {
                registers: old(self)@.registers.update(i as int, val),
                ..old(self)@
            }),
    {
        self.registers[i] = val;
    }

    /// The program counter.
    pub fn pc(&self) -> (r: usize)
        ensures
            r == self@.pc,
    {
        self.pc
    }

    /// The remainder of the most recent division instruction.
    pub fn remainder(&self) -> (r: u32)
        ensures
            r == self@.remainder,
    {
        self.remainder
    }

    /// The result of the most recent equality comparison instruction.
    pub fn equal_flag(&self) -> (r: bool)
        ensures
            r == self@.equal_flag,
    {
        self.equal_flag
    }

    /// Executes instructions until one of the halting opcodes. Defined only
    /// on programs that reach a halting opcode with every step enabled: on
    /// any other program the machine traps or spins: a fatal error (on the
    /// first disabled step) or an endless loop.
    pub fn run(&mut self)
        requires
            halts(old(self)@),
        ensures
            forall|n: nat|
                halts_at(old(self)@, n) ==> final(self)@ == step(steps(old(self)@, n)).0,
    {
        let ghost s0 = self@;
        let ghost n: nat = choose|n: nat| halts_at(s0, n);
        let ghost mut k: nat = 0;
        loop
            invariant_except_break
                halts_at(s0, n),
                k <= n,
                self@ == steps(s0, k),
            ensures
                self@ == step(steps(s0, n)).0,
            decreases n - k,
        {
            proof {
                if k < n {
                    assert(live_step(steps(s0, k)));
                } else {
                    assert(halting_step(steps(s0, n)));
                }
            }
            let cont = self.execute_instruction();
            proof {
                assert(steps(s0, (k + 1) as nat) == step(steps(s0, k)).0);
            }
            if !cont {
                proof {
                    assert(k == n) by {
                        if k < n {
                            assert(live_step(steps(s0, k)));
                        }
                    }
                }
                break;
            }
            proof {
                assert(k < n) by {
                    if k == n {
                        assert(halting_step(steps(s0, n)));
                    }
                }
                k = (k + 1) as nat;
            }
        }
        proof {
            assert forall|m: nat| halts_at(s0, m) implies final(self)@ == step(
                steps(s0, m),
            ).0 by {
                lemma_halts_at_unique(s0, m, n);
            }
        }
    }

    /// Executes exactly one instruction — the opcode byte at the program
    /// counter plus however many operand bytes it consumes — and returns
    /// whether execution should continue (`false` for HLT and for an
    /// unrecognized opcode).
    pub fn execute_instruction(&mut self) -> (cont: bool)
        requires
            step_enabled(old(self)@),
        ensures
            final(self)@ == step(old(self)@).0,
            cont == step(old(self)@).1,
    {
        match self.decode_opcode() {
            Opcode::HLT => {
                return false;
            },
            Opcode::IGL => {
                return false;
            },
            Opcode::LOAD => {
                let register = self.next_byte();
                let number = self.next_u16();
                self.register_store(register, number as i32);
            },
            Opcode::ADD => {
                let n1 = self.next_byte_as_register_lookup();
                let n2 = self.next_byte_as_register_lookup();
                self.next_byte_as_register_store(n1.wrapping_add(n2));
            },
            Opcode::SUB => {
                let n1 = self.next_byte_as_register_lookup();
                let n2 = self.next_byte_as_register_lookup();
                self.next_byte_as_register_store(n1.wrapping_sub(n2));
            },
            Opcode::MUL => {
                let n1 = self.next_byte_as_register_lookup();
                let n2 = self.next_byte_as_register_lookup();
                self.next_byte_as_register_store(n1.wrapping_mul(n2));
            },
            Opcode::DIV => {
                let n1 = self.next_byte_as_register_lookup();
                let n2 = self.next_byte_as_register_lookup();
                proof {
                    lemma_checked_div_rem_some(n1, n2);
                }
                self.next_byte_as_register_store(n1.checked_div(n2).unwrap());
                self.remainder = #[verifier::truncate] (n1.checked_rem(n2).unwrap() as u32);
            },
            Opcode::JMP => {
                let target = self.next_byte_as_register_lookup();
                self.pc = target as usize;
            },
            Opcode::JMPF => {
                let offset = self.next_byte();
                self.pc = self.pc + offset as usize;
            },
            Opcode::JMPB => {
                let offset = self.next_byte();
                self.pc = self.pc - offset as usize;
            },
            Opcode::EQ => {
                let n1 = self.next_byte_as_register_lookup();
                let n2 = self.next_byte_as_register_lookup();
                self.equal_flag = n1 == n2;
                // Step over the padding byte that keeps instructions four
                // bytes wide.
                let _ = self.next_byte();
            },
            Opcode::JEQ => {
                if self.equal_flag {
                    let target = self.next_byte_as_register_lookup();
                    self.pc = target as usize;
                } else {
                    self.pc = self.pc + 3;
                }
            },
        }
        true
    }

    /// Reads the byte at the program counter, advancing the counter past it.
    fn next_byte(&mut self) -> (b: u8)
        requires
            old(self)@.pc < old(self)@.program.len(),
        ensures
            b == old(self)@.program[old(self)@.pc as int],
            final(self)@ == (VmState { pc: (old(self)@.pc + 1) as nat, ..old(self)@ }),
    {
        let ret = self.program[self.pc];
        proof {
            assert(self.program@.len() == self.program.len());
        }
        self.pc = self.pc + 1;
        ret
    }

    /// Reads the next two bytes as a 16-bit big-endian value: the first byte
    /// is the most significant.
    pub fn next_u16(&mut self) -> (v: u16)
        requires
            old(self)@.pc + 2 <= old(self)@.program.len(),
        ensures
            v == (old(self)@.program[old(self)@.pc as int] as u16) * 256 + (old(
                self,
            )@.program[old(self)@.pc as int + 1] as u16),
            final(self)@ == (VmState { pc: (old(self)@.pc + 2) as nat, ..old(self)@ }),
    {
        let upper = self.next_byte();
        let lower = self.next_byte();
        (upper as u16) * 256 + (lower as u16)
    }

    /// Reads the byte at the counter and decodes it as an opcode.
    fn decode_opcode(&mut self) -> (op: Opcode)
        requires
            old(self)@.pc < old(self)@.program.len(),
        ensures
            op == cur_opcode(old(self)@),
            final(self)@ == (VmState { pc: (old(self)@.pc + 1) as nat, ..old(self)@ }),
    {
        let b = self.next_byte();
        Opcode::from_byte(b)
    }

    /// Stores the value at the given register.
    fn register_store(&mut self, register: u8, val: i32)
        requires
            register < 32,
        ensures
            final(self)@ == (VmState {
                registers: old(self)@.registers.update(register as int, val),
                ..old(self)@
            }),
    {
        self.registers[register as usize] = val;
    }

    /// Reads the next byte as a register index and looks up the value held
    /// there.
    fn next_byte_as_register_lookup(&mut self) -> (r: i32)
        requires
            old(self)@.pc < old(self)@.program.len(),
            old(self)@.program[old(self)@.pc as int] < 32,
        ensures
            r == old(self)@.registers[old(self)@.program[old(self)@.pc as int] as int],
            final(self)@ == (VmState { pc: (old(self)@.pc + 1) as nat, ..old(self)@ }),
    {
        let register = self.next_byte();
        self.registers[register as usize]
    }

    /// Reads the next byte as a register index and stores the given value at
    /// that register.
    fn next_byte_as_register_store(&mut self, val: i32)
        requires
            old(self)@.pc < old(self)@.program.len(),
            old(self)@.program[old(self)@.pc as int] < 32,
        ensures
            final(self)@ == (VmState {
                registers: old(self)@.registers.update(
                    old(self)@.program[old(self)@.pc as int] as int,
                    val,
                ),
                pc: (old(self)@.pc + 1) as nat,
                ..old(self)@
            }),
    {
        let register = self.next_byte();
        self.register_store(register, val);
    }
}

} // verus!
