//! The arithmetic core of the bytecode machine, on its own: five opcodes,
//! no identifiers and no binding table, aggregating every error found in
//! one pass over the byte stream.
//!
//! `interp_model` is the mathematical model: `interpret` returns exactly
//! what it describes.

use vstd::prelude::*;

use crate::values::{add_bits, div_bits, is_zero_bits, mul_bits, sub_bits, value_add, value_div,
    value_is_zero, value_mul, value_sub};
use vstd::bytes::{spec_u64_from_le_bytes, u64_from_le_bytes};

verus! {

// Operation API

/// Opcodes of the arithmetic core.
#[derive(Debug, Clone, Copy, PartialEq, Eq, Structural)]
pub enum Opcode {
    PUSH,
    ADD,
    SUBTRACT,
    MULTIPLY,
    DIVIDE,
}

// Opcode to byte translation
impl Opcode {
    /// Given an opcode, convert it to its byte representation.
    pub fn byte_from_opcode(&self) -> (b: u8)
        ensures
            b == match *self {
                Opcode::PUSH => 0u8,
                Opcode::ADD => 1u8,
                Opcode::SUBTRACT => 2u8,
                Opcode::MULTIPLY => 3u8,
                Opcode::DIVIDE => 4u8,
            },
    {
        match self {
            Opcode::PUSH => 0,
            Opcode::ADD => 1,
            Opcode::SUBTRACT => 2,
            Opcode::MULTIPLY => 3,
            Opcode::DIVIDE => 4,
        }
    }

    /// Given a byte, convert it to its opcode representation.
    /// Bytes above the highest opcode stand for no instruction at all.
    pub fn opcode_from_byte(byte: u8) -> (op: Self)
        requires
            byte <= 4,
        ensures
            op == match byte {
                0u8 => Opcode::PUSH,
                1u8 => Opcode::ADD,
                2u8 => Opcode::SUBTRACT,
                3u8 => Opcode::MULTIPLY,
                _ => Opcode::DIVIDE,
            },
    {
        match byte {
            0 => Opcode::PUSH,
            1 => Opcode::ADD,
            2 => Opcode::SUBTRACT,
            3 => Opcode::MULTIPLY,
            _ => Opcode::DIVIDE,
        }
    }
}

pub const IMM_LEN: usize = 8;

/// A stream of the arithmetic core: opcodes up to `DIVIDE`, and every push
/// operand complete.
pub open spec fn arith_stream_ok(code: Seq<u8>, i: int) -> bool
    decreases code.len() - i,
{
    if i < 0 || i >= code.len() {
        true
    } else {
        let op = code[i];
        if op > 4 {
            false
        } else if op == 0 {
            i + 9 <= code.len() && arith_stream_ok(code, i + 9)
        } else {
            arith_stream_ok(code, i + 1)
        }
    }
}

/// The arithmetic core's result on two operand bit patterns.
pub open spec fn arith_op(op: u8, a: u64, b: u64) -> u64 {
    if op == 1 {
        add_bits(a, b)
    } else if op == 2 {
        sub_bits(a, b)
    } else {
        mul_bits(a, b)
    }
}

/// The instruction loop: the stack it leaves and the errors it logs.
pub open spec fn interp_run(code: Seq<u8>, i: int, stack: Seq<u64>) -> (Seq<u64>, Seq<char>)
    decreases code.len() - i,
{
    if i < 0 || i >= code.len() {
        (stack, Seq::empty())
    } else {
        let op = code[i];
        if op == 0 {
            // A cut-short operand lies outside the contract: never reached.
            if i + 9 > code.len() {
                (stack, Seq::empty())
            } else {
                interp_run(
                    code,
                    i + 9,
                    stack.push(spec_u64_from_le_bytes(code.subrange(i + 1, i + 9))),
                )
            }
        } else if stack.len() < 2 {
            let (st, errs) = interp_run(code, i + 1, stack);
            (st, "Binary operation attempted with insufficient operands!\n"@ + errs)
        } else {
            let rv = stack.last();
            let lv = stack.drop_last().last();
            let st2 = stack.drop_last().drop_last();
            if op == 4 {
                if is_zero_bits(rv) {
                    let (st, errs) = interp_run(code, i + 1, st2);
                    (st, "Cannot divide by zero.\n"@ + errs)
                } else {
                    interp_run(code, i + 1, st2.push(div_bits(lv, rv)))
                }
            } else {
                interp_run(code, i + 1, st2.push(arith_op(op, lv, rv)))
            }
        }
    }
}

/// What interpreting a byte sequence yields: the one remaining value if no
/// error was logged, otherwise the whole log (with the end-of-stream check
/// that an empty stack is itself an error).
pub open spec fn interp_model(code: Seq<u8>) -> Result<u64, Seq<char>> {
    let (st, errs) = interp_run(code, 0, Seq::empty());
    let errs2 = errs + if st.len() == 0 {
        "No result.\n"@
    } else {
        Seq::empty()
    };
    if errs2.len() == 0 {
        Ok(st.last())
    } else {
        Err(errs2)
    }
}

/// Interpret a collection of bytes as an arithmetic program.
/// Return the bit pattern of the resulting double, or all errors found.
#[verifier::loop_isolation(false)]
pub fn interpret(bytes: &Vec<u8>) -> (r: Result<u64, String>)
    requires
        arith_stream_ok(bytes@, 0),
    ensures
        ({
            let m = interp_model(bytes@);
            match r {
                Ok(v) => m == Ok::<u64, Seq<char>>(v),
                Err(e) => m matches Err(me) && e@ == me,
            }
        }),
{
    let ghost code = bytes@;
    let mut index: usize = 0;
    let mut stack: Vec<u64> = Vec::new();
    let mut errors = String::new();

    proof {
        assert(stack@ =~= Seq::<u64>::empty());
    }
    while index < bytes.len()
        invariant
            index <= code.len(),
            arith_stream_ok(code, index as int),
            ({
                let cur = interp_run(code, index as int, stack@);
                let full = interp_run(code, 0, Seq::empty());
                cur.0 == full.0 && errors@ + cur.1 == full.1
            }),
        decreases code.len() - index,
    {
        let operation = bytes[index];
        match Opcode::opcode_from_byte(operation) {
            Opcode::PUSH => {
                index = index + 1;  // Skip opcode.
                let mut immediate_bytes: Vec<u8> = Vec::new();
                let mut k: usize = 0;
                proof {
                    assert(immediate_bytes@ =~= code.subrange(index as int, index as int));
                }
                while k < IMM_LEN
                    invariant
                        index + IMM_LEN <= code.len(),
                        k <= IMM_LEN,
                        immediate_bytes@ == code.subrange(index as int, index as int + k as int),
                    decreases IMM_LEN - k,
                {
                    immediate_bytes.push(bytes[index + k]);
                    k = k + 1;
                    proof {
                        assert(immediate_bytes@ =~= code.subrange(
                            index as int,
                            index as int + k as int,
                        ));
                    }
                }
                stack.push(u64_from_le_bytes(immediate_bytes.as_slice()));
                index = index + 8;  // Read 8 bytes of operand.
            },
            _ => {
                index = index + 1;  // Skip opcode

                if stack.len() < 2 {
                    errors.append("Binary operation attempted with insufficient operands!\n");
                    continue ;
                }
                // Operands were pushed onto the stack in reverse order.
                let right = stack.pop().unwrap();
                let left = stack.pop().unwrap();

                match Opcode::opcode_from_byte(operation) {
                    Opcode::ADD => stack.push(value_add(left, right)),
                    Opcode::SUBTRACT => stack.push(value_sub(left, right)),
                    Opcode::MULTIPLY => stack.push(value_mul(left, right)),
                    _ => {
                        if value_is_zero(right) {
                            errors.append("Cannot divide by zero.\n");
                            continue ;
                        }
                        stack.push(value_div(left, right));
                    },
                }
            },
        }
    }

    if stack.is_empty() {
        errors.append("No result.\n");
    }

    if errors.as_str().is_empty() {
        proof {
            reveal_strlit("No result.\n");
        }
        let v = stack.pop().unwrap();
        Ok(v)
    } else {
        Err(errors)
    }
}

} // verus!
