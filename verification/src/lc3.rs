//! A sketch of an LC-3 CPU: eight 16-bit registers, a 16-bit addressable
//! memory, and a handful of decoded instructions executed one at a time
//! from a test program.

use vstd::prelude::*;

use crate::bits::pow2n;

verus! {

pub type Offset = u16;

pub type Imm = u16;

pub type TrapVector = u8;

pub type Flag = bool;

pub type Register = usize;

/// A decoded LC-3 instruction.
#[derive(Debug, Clone, Copy, PartialEq, Eq, Structural)]
pub enum Instruction {
    AddReg(Register, Register, Register),
    AddImm(Register, Register, Imm),
    AndReg(Register, Register, Register),
    AndImm(Register, Register, Imm),
    Br(Flag, Flag, Flag, Offset),
    Jmp(Register),
    Jsr(Offset),
    Jsrr(Register),
    Ld(Register, Offset),
    Ldi(Register, Offset),
    Ldr(Register, Register, Offset),
    Lea(Register, Offset),
    Not(Register, Register),
    Rti(),
    St(Register, Offset),
    Sti(Register, Offset),
    Str(Register, Register, Offset),
    Trap(TrapVector),
    Reserved(),
}

/// The low `bits` bits of `x`, sign-extended to 16 bits.
pub open spec fn spec_sign_extend(x: u16, bits: nat) -> u16 {
    let m = (x as nat) % pow2n(bits);
    if m < pow2n((bits - 1) as nat) {
        m as u16
    } else {
        (m + 0x10000 - pow2n(bits)) as u16
    }
}

pub proof fn lemma_pow2n_pos(n: nat)
    ensures
        pow2n(n) >= 1,
    decreases n,
{
    if n > 0 {
        lemma_pow2n_pos((n - 1) as nat);
    }
}

pub proof fn lemma_pow2n_mono(a: nat, b: nat)
    requires
        a <= b,
    ensures
        pow2n(a) <= pow2n(b),
    decreases b,
{
    if a < b {
        lemma_pow2n_mono(a, (b - 1) as nat);
        lemma_pow2n_pos((b - 1) as nat);
    }
}

/// Sign-extends the low `bits` bits of `x` to 16 bits.
fn sign_extend(x: u16, bits: u8) -> (r: u16)
    requires
        1 <= bits && bits <= 15,
    ensures
        r == spec_sign_extend(x, bits as nat),
{
    proof {
        reveal_with_fuel(pow2n, 16);
    }
    let mut p: u32 = 1;
    let mut i: u8 = 0;
    while i < bits
        invariant
            i <= bits,
            bits <= 15,
            p == pow2n(i as nat),
            p <= 0x8000,
        decreases bits - i,
    {
        proof {
            lemma_pow2n_mono(i as nat + 1, bits as nat);
            lemma_pow2n_mono(bits as nat, 15);
            reveal_with_fuel(pow2n, 16);
        }
        p = p * 2;
        i = i + 1;
    }
    let m = (x as u32) % p;
    let half = p / 2;
    if m < half {
        m as u16
    } else {
        (m + 0x10000 - p) as u16
    }
}

/// Mathematical model of the machine state.
#[verifier::ext_equal]
pub ghost struct Lc3State {
    pub memory: Seq<u16>,
    pub registers: Seq<u16>,
    pub ip: nat,
    pub program: Option<Seq<Instruction>>,
}

/// The state a new machine starts in: zeroed memory and registers, the
/// instruction pointer at zero, no test program.
pub open spec fn lc3_init() -> Lc3State {
    Lc3State {
        memory: Seq::new(0xFFFF, |i: int| 0u16),
        registers: Seq::new(8, |i: int| 0u16),
        ip: 0,
        program: None,
    }
}

/// When the next instruction can execute without a fatal error: a test
/// program must be loaded, the pointer in range, the instruction one of
/// the handled ones, and its register names in range. Anything else is a
/// fatal error by design.
pub open spec fn lc3_step_ok(s: Lc3State) -> bool {
    &&& s.registers.len() == 8
    &&& s.program is Some
    &&& s.ip < s.program->0.len()
    &&& s.ip + 1 <= usize::MAX
    &&& match s.program->0[s.ip as int] {
        Instruction::AddReg(dr, sr1, sr2) => dr < 8 && sr1 < 8 && sr2 < 8,
        Instruction::AddImm(dr, sr1, _) => dr < 8 && sr1 < 8,
        Instruction::AndReg(dr, sr1, sr2) => dr < 8 && sr1 < 8 && sr2 < 8,
        Instruction::AndImm(dr, sr1, _) => dr < 8 && sr1 < 8,
        Instruction::Not(dr, sr1) => dr < 8 && sr1 < 8,
        Instruction::Br(_, _, _, _) => true,
        Instruction::Jmp(base) => base < 8,
        Instruction::Jsr(_) => true,
        Instruction::Jsrr(_) => true,
        Instruction::Ld(dr, offset9) => {
            &&& dr < 8
            &&& (s.ip as usize).wrapping_add(spec_sign_extend(offset9, 9) as usize)
                < s.memory.len()
        },
        _ => false,
    }
}

/// What one instruction does to the machine state.
pub open spec fn lc3_step(s: Lc3State) -> Lc3State {
    let stepped = Lc3State { ip: s.ip + 1, ..s };
    match s.program->0[s.ip as int] {
        Instruction::AddReg(dr, sr1, sr2) => Lc3State {
            registers: s.registers.update(
                dr as int,
                s.registers[sr1 as int].wrapping_add(s.registers[sr2 as int]),
            ),
            ..stepped
        },
        Instruction::AddImm(dr, sr1, imm) => Lc3State {
            registers: s.registers.update(
                dr as int,
                s.registers[sr1 as int].wrapping_add(spec_sign_extend(imm, 5)),
            ),
            ..stepped
        },
        Instruction::AndReg(dr, sr1, sr2) => Lc3State {
            registers: s.registers.update(
                dr as int,
                s.registers[sr1 as int] & s.registers[sr2 as int],
            ),
            ..stepped
        },
        Instruction::AndImm(dr, sr1, imm) => Lc3State {
            registers: s.registers.update(
                dr as int,
                s.registers[sr1 as int] & spec_sign_extend(imm, 5),
            ),
            ..stepped
        },
        Instruction::Not(dr, sr1) => Lc3State {
            registers: s.registers.update(dr as int, !s.registers[sr1 as int]),
            ..stepped
        },
        Instruction::Ld(dr, offset9) => Lc3State {
            registers: s.registers.update(
                dr as int,
                s.memory[(s.ip as usize).wrapping_add(
                    spec_sign_extend(offset9, 9) as usize,
                ) as int],
            ),
            ..stepped
        },
        _ => stepped,
    }
}

/// The LC-3 machine: 65,535 memory words, eight registers, an instruction
/// pointer, and an optional pre-decoded test program that stands in for
/// memory-resident code.
#[derive(Debug)]
pub struct LC3 {
    memory: Vec<u16>,
    pub registers: [u16; 8],
    ip: usize,
    test_program_: Option<Vec<Instruction>>,
}

impl View for LC3 {
    type V = Lc3State;

    closed spec fn view(&self) -> Lc3State {
        Lc3State {
            memory: self.memory@,
            registers: self.registers@,
            ip: self.ip as nat,
            program: match self.test_program_ {
                Option::None => None,
                Option::Some(p) => Some(p@),
            },
        }
    }
}

impl LC3 {
    pub fn new() -> (m: LC3)
        ensures
            m@ == lc3_init(),
    {
        let m = LC3 {
            memory: vec![0u16; 0xFFFF],
            registers: [0; 8],
            ip: 0,
            test_program_: None,
        };
        proof {
            assert(m@.memory =~= lc3_init().memory);
            assert(m@.registers =~= lc3_init().registers);
            assert(m@ =~= lc3_init());
        }
        m
    }

    /// A machine driven from a pre-decoded program rather than from
    /// memory, for easier testing.
    pub fn new_test(test_program: Vec<Instruction>) -> (m: LC3)
        ensures
            m@ == (Lc3State { program: Some(test_program@), ..lc3_init() }),
    {
        let mut this = Self::new();
        this.test_program_ = Some(test_program);
        proof {
            assert(this@ =~= (Lc3State { program: Some(test_program@), ..lc3_init() }));
        }
        this
    }

    /// Executes the next instruction of the test program.
    pub fn run_once(&mut self)
        requires
            lc3_step_ok(old(self)@),
        ensures
            final(self)@ == lc3_step(old(self)@),
    {
        let ip = self.ip_at_fetch();
        match self.next_instruction() {
            Instruction::AddReg(dr, sr1, sr2) => {
                // Register addition wraps, as a 16-bit register file does;
                // that wrap is also what lets a sign-extended immediate act
                // as a subtraction.
                self.registers[dr] = self.registers[sr1].wrapping_add(self.registers[sr2]);
            },
            Instruction::AddImm(dr, sr1, imm) => {
                self.registers[dr] = self.registers[sr1].wrapping_add(sign_extend(imm, 5));
            },
            Instruction::AndReg(dr, sr1, sr2) => {
                self.registers[dr] = self.registers[sr1] & self.registers[sr2];
            },
            Instruction::AndImm(dr, sr1, imm) => {
                self.registers[dr] = self.registers[sr1] & sign_extend(imm, 5);
            },
            Instruction::Not(dr, sr1) => {
                self.registers[dr] = !self.registers[sr1];
            },
            Instruction::Br(_n, _z, _p, _offset9) => {},
            Instruction::Jmp(_base) => {
                // Reading the jump target's memory word has no observable
                // effect.
            },
            Instruction::Jsr(_offset11) => {},
            Instruction::Jsrr(_base) => {},
            Instruction::Ld(dr, offset9) => {
                let addr = ip.wrapping_add(sign_extend(offset9, 9) as usize);
                self.registers[dr] = self.memory[addr];
            },
            _ => {
                proof {
                    assert(false);
                }
            },
        }
    }

    /// The instruction pointer as it stands when an instruction is
    /// fetched: `Ld` computes its address from this value.
    fn ip_at_fetch(&self) -> (r: usize)
        ensures
            r == self@.ip,
    {
        self.ip
    }

    /// Fetches the next instruction of the test program, advancing the
    /// instruction pointer.
    fn next_instruction(&mut self) -> (r: Instruction)
        requires
            old(self)@.program is Some,
            old(self)@.ip < old(self)@.program->0.len(),
            old(self)@.ip + 1 <= usize::MAX,
        ensures
            r == old(self)@.program->0[old(self)@.ip as int],
            final(self)@ == (Lc3State { ip: old(self)@.ip + 1, ..old(self)@ }),
    {
        match &self.test_program_ {
            Some(program) => {
                let res = program[self.ip];
                self.ip = self.ip + 1;
                res
            },
            None => {
                proof {
                    assert(false);
                }
                Instruction::Reserved()
            },
        }
    }
}

} // verus!
