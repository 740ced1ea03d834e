//! The instruction set of the bytecode: one byte per opcode.

use vstd::prelude::*;

verus! {

/// The opcodes of the bytecode.
#[derive(Debug, Clone, Copy, PartialEq, Eq, Structural)]
pub enum Opcode {
    PUSH,
    ADD,
    SUBTRACT,
    MULTIPLY,
    DIVIDE,
    EXP,
    IDENTIFIER,
    VARWRITE,
}

/// Size of an immediate value: a double takes eight bytes.
pub const IMM_LEN: usize = 8;

/// The byte representing an opcode.
pub open spec fn opcode_byte(op: Opcode) -> u8 {
    match op {
        Opcode::PUSH => 0,
        Opcode::ADD => 1,
        Opcode::SUBTRACT => 2,
        Opcode::MULTIPLY => 3,
        Opcode::DIVIDE => 4,
        Opcode::EXP => 5,
        Opcode::IDENTIFIER => 6,
        Opcode::VARWRITE => 7,
    }
}

/// The opcode a byte stands for.
pub open spec fn byte_opcode(byte: u8) -> Opcode {
    if byte == 0 {
        Opcode::PUSH
    } else if byte == 1 {
        Opcode::ADD
    } else if byte == 2 {
        Opcode::SUBTRACT
    } else if byte == 3 {
        Opcode::MULTIPLY
    } else if byte == 4 {
        Opcode::DIVIDE
    } else if byte == 5 {
        Opcode::EXP
    } else if byte == 6 {
        Opcode::IDENTIFIER
    } else {
        Opcode::VARWRITE
    }
}

impl Opcode {
    /// Given an opcode, convert it to its byte representation.
    pub fn byte_from_opcode(&self) -> (b: u8)
        ensures
            b == opcode_byte(*self),
            b <= 7,
    {
        match self {
            Opcode::PUSH => 0,
            Opcode::ADD => 1,
            Opcode::SUBTRACT => 2,
            Opcode::MULTIPLY => 3,
            Opcode::DIVIDE => 4,
            Opcode::EXP => 5,
            Opcode::IDENTIFIER => 6,
            Opcode::VARWRITE => 7,
        }
    }

    /// Given a byte, convert it to its opcode representation.
    /// Bytes above the highest opcode stand for no instruction at all.
    pub fn opcode_from_byte(byte: u8) -> (op: Self)
        requires
            byte <= 7,
        ensures
            op == byte_opcode(byte),
            opcode_byte(op) == byte,
    {
        match byte {
            0 => Opcode::PUSH,
            1 => Opcode::ADD,
            2 => Opcode::SUBTRACT,
            3 => Opcode::MULTIPLY,
            4 => Opcode::DIVIDE,
            5 => Opcode::EXP,
            6 => Opcode::IDENTIFIER,
            _ => Opcode::VARWRITE,
        }
    }
}

} // verus!
