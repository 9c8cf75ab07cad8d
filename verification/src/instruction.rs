//! Opcodes of the bytecode virtual machine, and their byte encoding.

use vstd::prelude::*;

verus! {

/// The instruction set of the virtual machine. Every opcode is encoded as a
/// single byte, in declaration order starting at 0; every byte without an
/// assigned opcode decodes to `IGL` (illegal).
#[derive(Clone, Copy, Debug, PartialEq, Eq, Structural)]
pub enum Opcode {
    /// Halt execution.
    HLT,
    /// Load a 16-bit big-endian immediate into a register.
    LOAD,
    ADD,
    SUB,
    MUL,
    DIV,
    /// An absolute jump of the program counter to the value held in a
    /// register.
    JMP,
    /// Forward relative jump by a literal byte offset.
    JMPF,
    /// Backward relative jump by a literal byte offset.
    JMPB,
    /// Equality test between two registers, recorded in the equality flag.
    EQ,
    /// Jump to the value held in a register if the equality flag is set.
    JEQ,
    /// Catch-all for unrecognized opcode bytes.
    IGL,
}

/// The opcode a raw byte decodes to. Decoding is total: bytes 0 through 10
/// name an operation, every other byte decodes to `IGL`.
pub open spec fn opcode_of(b: u8) -> Opcode {
    if b == 0 {
        Opcode::HLT
    } else if b == 1 {
        Opcode::LOAD
    } else if b == 2 {
        Opcode::ADD
    } else if b == 3 {
        Opcode::SUB
    } else if b == 4 {
        Opcode::MUL
    } else if b == 5 {
        Opcode::DIV
    } else if b == 6 {
        Opcode::JMP
    } else if b == 7 {
        Opcode::JMPF
    } else if b == 8 {
        Opcode::JMPB
    } else if b == 9 {
        Opcode::EQ
    } else if b == 10 {
        Opcode::JEQ
    } else {
        Opcode::IGL
    }
}

/// The byte each opcode encodes to: its declaration order. `IGL` has no
/// encoding of its own and is given the first unassigned byte.
pub open spec fn byte_of(op: Opcode) -> u8 {
    match op {
        Opcode::HLT => 0,
        Opcode::LOAD => 1,
        Opcode::ADD => 2,
        Opcode::SUB => 3,
        Opcode::MUL => 4,
        Opcode::DIV => 5,
        Opcode::JMP => 6,
        Opcode::JMPF => 7,
        Opcode::JMPB => 8,
        Opcode::EQ => 9,
        Opcode::JEQ => 10,
        Opcode::IGL => 11,
    }
}

impl Opcode {
    /// Decodes a raw byte into an opcode.
    pub fn from_byte(b: u8) -> (op: Opcode)
        ensures
            op == opcode_of(b),
    {
        match b {
            0 => Opcode::HLT,
            1 => Opcode::LOAD,
            2 => Opcode::ADD,
            3 => Opcode::SUB,
            4 => Opcode::MUL,
            5 => Opcode::DIV,
            6 => Opcode::JMP,
            7 => Opcode::JMPF,
            8 => Opcode::JMPB,
            9 => Opcode::EQ,
            10 => Opcode::JEQ,
            _ => Opcode::IGL,
        }
    }

    /// Encodes the opcode back into its byte. Inverse of decoding for all
    /// assigned bytes.
    pub fn to_byte(self) -> (b: u8)
        ensures
            b == byte_of(self),
            self != Opcode::IGL ==> opcode_of(b) == self,
    {
        match self {
            Opcode::HLT => 0,
            Opcode::LOAD => 1,
            Opcode::ADD => 2,
            Opcode::SUB => 3,
            Opcode::MUL => 4,
            Opcode::DIV => 5,
            Opcode::JMP => 6,
            Opcode::JMPF => 7,
            Opcode::JMPB => 8,
            Opcode::EQ => 9,
            Opcode::JEQ => 10,
            Opcode::IGL => 11,
        }
    }
}

/// Round trip: every assigned opcode byte decodes to the opcode that encodes
/// back to it.
pub proof fn lemma_opcode_byte_round_trip(b: u8)
    requires
        b <= 10,
    ensures
        byte_of(opcode_of(b)) == b,
{
}

/// A decoded opcode paired with nothing else: operands are read inline from
/// the byte stream rather than pre-parsed, so an instruction is just its
/// opcode.
#[derive(Debug, PartialEq, Eq, Structural)]
pub struct Instruction {
    pub opcode: Opcode,
}

impl Instruction {
    pub fn new(opcode: Opcode) -> (ins: Instruction)
        ensures
            ins.opcode == opcode,
    {
        Instruction { opcode }
    }
}

} // verus!
