//! The earliest shape of the bytecode machine: five opcodes, a stack
//! seeded with one zero, and a run that stops at the first error instead
//! of aggregating. Kept alongside the aggregating machine because its
//! stricter stopping behaviour is observable and tested.
//!
//! `strict_model` is the mathematical model: `interpret` returns exactly
//! what it describes.

use vstd::prelude::*;

use crate::interp::bytecode_interpreter::{arith_op, arith_stream_ok};
use crate::values::{div_bits, is_zero_bits, value_add, value_div, value_is_zero, value_mul,
    value_sub};
use vstd::bytes::{spec_u64_from_le_bytes, u64_from_le_bytes};
use vstd::string::StringExecFns;

verus! {

const IMM_LEN: usize = 8;

/// The strict instruction loop: the stack at the end, or the first error.
pub open spec fn strict_run(code: Seq<u8>, i: int, stack: Seq<u64>) -> Result<Seq<u64>, Seq<char>>
    decreases code.len() - i,
{
    if i < 0 || i >= code.len() {
        Ok(stack)
    } else {
        let op = code[i];
        if op == 0 {
            // A cut-short operand lies outside the contract: never reached.
            if i + 9 > code.len() {
                Ok(stack)
            } else {
                strict_run(
                    code,
                    i + 9,
                    stack.push(spec_u64_from_le_bytes(code.subrange(i + 1, i + 9))),
                )
            }
        } else if stack.len() < 2 {
            Err("Binary operation attempted with insufficient operands!"@)
        } else {
            let rv = stack.last();
            let lv = stack.drop_last().last();
            let st2 = stack.drop_last().drop_last();
            if op == 4 {
                if is_zero_bits(rv) {
                    Err("Attempted division by zero!"@)
                } else {
                    strict_run(code, i + 1, st2.push(div_bits(lv, rv)))
                }
            } else {
                strict_run(code, i + 1, st2.push(arith_op(op, lv, rv)))
            }
        }
    }
}

/// What the strict machine makes of a byte sequence, starting from the
/// seeded stack.
pub open spec fn strict_model(code: Seq<u8>) -> Result<u64, Seq<char>> {
    match strict_run(code, 0, seq![0u64]) {
        Ok(st) => {
            if st.len() == 0 {
                Err("Expected return value but none found -- likely internal error!"@)
            } else {
                Ok(st.last())
            }
        },
        Err(e) => Err(e),
    }
}

/// Interpret a collection of bytes as an arithmetic program, stopping at
/// the first error. Returns the bit pattern of the resulting double.
#[verifier::loop_isolation(false)]
pub fn interpret(bytes: &Vec<u8>) -> (r: Result<u64, String>)
    requires
        arith_stream_ok(bytes@, 0),
    ensures
        ({
            let m = strict_model(bytes@);
            match r {
                Ok(v) => m == Ok::<u64, Seq<char>>(v),
                Err(e) => m matches Err(me) && e@ == me,
            }
        }),
{
    let ghost code = bytes@;
    let mut index: usize = 0;
    let mut stack: Vec<u64> = vec![0u64];

    proof {
        assert(stack@ =~= seq![0u64]);
    }
    while index < bytes.len()
        invariant
            index <= code.len(),
            arith_stream_ok(code, index as int),
            strict_run(code, index as int, stack@) == strict_run(code, 0, seq![0u64]),
        decreases code.len() - index,
    {
        let operation = bytes[index];
        match crate::interp::bytecode_interpreter::Opcode::opcode_from_byte(operation) {
            crate::interp::bytecode_interpreter::Opcode::PUSH => {
                index = index + 1;  // Skip opcode.

                let mut immediate_bytes: Vec<u8> = Vec::new();
                let mut k: usize = 0;
                proof {
                    assert(immediate_bytes@ =~= code.subrange(index as int, index as int));
                }
                while k < IMM_LEN
                    invariant
                        index + IMM_LEN <= code.len(),
                        k <= IMM_LEN,
                        immediate_bytes@ == code.subrange(index as int, index as int + k as int),
                    decreases IMM_LEN - k,
                {
                    immediate_bytes.push(bytes[index + k]);
                    k = k + 1;
                    proof {
                        assert(immediate_bytes@ =~= code.subrange(
                            index as int,
                            index as int + k as int,
                        ));
                    }
                }
                stack.push(u64_from_le_bytes(immediate_bytes.as_slice()));
                index = index + 8;  // Read 8 bytes of operand.
            },
            _ => {
                index = index + 1;  // Skip opcode

                if stack.len() < 2 {
                    return Err(
                        String::from_str(
                            "Binary operation attempted with insufficient operands!",
                        ),
                    );
                }
                // Operands were pushed onto the stack in reverse order.
                let right = stack.pop().unwrap();
                let left = stack.pop().unwrap();

                match crate::interp::bytecode_interpreter::Opcode::opcode_from_byte(operation) {
                    crate::interp::bytecode_interpreter::Opcode::ADD => stack.push(
                        value_add(left, right),
                    ),
                    crate::interp::bytecode_interpreter::Opcode::SUBTRACT => stack.push(
                        value_sub(left, right),
                    ),
                    crate::interp::bytecode_interpreter::Opcode::MULTIPLY => stack.push(
                        value_mul(left, right),
                    ),
                    _ => {
                        if value_is_zero(right) {
                            return Err(String::from_str("Attempted division by zero!"));
                        }
                        stack.push(value_div(left, right));
                    },
                }
            },
        }
    }

    match stack.pop() {
        None => Err(
            String::from_str("Expected return value but none found -- likely internal error!"),
        ),
        Some(val) => Ok(val),
    }
}

} // verus!
