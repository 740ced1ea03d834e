//! The virtual machine: decodes one instruction at a time against a typed
//! operand stack and a binding table, aggregating recoverable errors and
//! halting only on the two stream-corruption conditions (a truncated push
//! operand, an identifier that is not UTF-8).
//!
//! `vm_run` is the mathematical model of the instruction loop;
//! `interpret_scope` behaves exactly as it describes.

use vstd::prelude::*;

use crate::values::{add_bits, div_bits, is_zero_bits, mul_bits, pow_bits, sub_bits, value_add,
    value_div, value_is_zero, value_mul, value_pow, value_sub};
use crate::vm::scope_binding::Binding;
use crate::vm::stack::{pop_float_model, pop_ident_model, CellModel, Stack};
use crate::bytecode::opcode::{Opcode, IMM_LEN};
use vstd::bytes::{spec_u64_from_le_bytes, u64_from_le_bytes};
use vstd::utf8::{decode_utf8, valid_utf8};

verus! {

/// A byte stream the machine can decode without stepping outside the
/// program: every opcode byte is an instruction, an identifier's length
/// byte and name bytes are present, and only a push operand may be cut
/// short (the machine reports that and stops).
pub open spec fn valid_stream(code: Seq<u8>, pc: int) -> bool
    decreases code.len() - pc,
{
    if pc < 0 || pc >= code.len() {
        true
    } else {
        let op = code[pc];
        if op > 7 {
            false
        } else if op == 0 {
            ||| code.len() - (pc + 1) < 8
            ||| valid_stream(code, pc + 9)
        } else if op == 6 {
            &&& pc + 1 < code.len()
            &&& pc + 2 + code[pc + 1] <= code.len()
            &&& valid_stream(code, pc + 2 + code[pc + 1] as int)
        } else {
            valid_stream(code, pc + 1)
        }
    }
}

/// The operator's result on two operand bit patterns.
pub open spec fn apply_op(op: u8, a: u64, b: u64) -> u64 {
    if op == 1 {
        add_bits(a, b)
    } else if op == 2 {
        sub_bits(a, b)
    } else if op == 3 {
        mul_bits(a, b)
    } else if op == 4 {
        div_bits(a, b)
    } else {
        pow_bits(a, b)
    }
}

/// Everything one run of the machine leaves behind: the operand stack, the
/// binding table, the concatenated error log, and whether the run stopped
/// on a corrupted stream.
pub ghost struct VmOut {
    pub stack: Seq<CellModel>,
    pub env: Map<Seq<char>, u64>,
    pub errs: Seq<char>,
    pub fatal: bool,
}

/// The instruction loop from program counter `pc` to the end of the code.
pub open spec fn vm_run(
    code: Seq<u8>,
    pc: int,
    stack: Seq<CellModel>,
    env: Map<Seq<char>, u64>,
) -> VmOut
    decreases code.len() - pc,
{
    if pc < 0 || pc >= code.len() {
        VmOut { stack, env, errs: Seq::empty(), fatal: false }
    } else {
        let op = code[pc];
        if op == 0 {
            // PUSH: eight little-endian bytes follow; a shorter remainder is
            // an unrecoverable corruption.
            if code.len() - (pc + 1) < 8 {
                VmOut {
                    stack,
                    env,
                    errs: "Not enough bytes to convert static code into float.\n"@,
                    fatal: true,
                }
            } else {
                let bits = spec_u64_from_le_bytes(code.subrange(pc + 1, pc + 9));
                vm_run(code, pc + 9, stack.push(CellModel::Float(bits)), env)
            }
        } else if op == 6 {
            // IDENTIFIER: one length byte, then that many UTF-8 name bytes.
            if pc + 1 >= code.len() || pc + 2 + code[pc + 1] > code.len() {
                // Outside the contract: the machine is never run here.
                VmOut { stack, env, errs: Seq::empty(), fatal: true }
            } else {
                let l = code[pc + 1] as int;
                let bytes = code.subrange(pc + 2, pc + 2 + l);
                if valid_utf8(bytes) {
                    vm_run(code, pc + 2 + l, stack.push(CellModel::Ident(decode_utf8(bytes))), env)
                } else {
                    VmOut {
                        stack,
                        env,
                        errs: "Bytecode UTF conversion error. Expected: stream of valid UTF8 bytes for identifier.\n"@,
                        fatal: true,
                    }
                }
            }
        } else if op == 7 {
            // VARWRITE: the assigned value on top, the target name below it;
            // a mismatch costs only this instruction.
            let (v, st1, ok1) = pop_float_model(stack);
            if !ok1 {
                let rest = vm_run(code, pc + 1, st1, env);
                VmOut {
                    stack: rest.stack,
                    env: rest.env,
                    errs: "Expected 64-bit float on stack, found too few bytes.\n"@ + rest.errs,
                    fatal: rest.fatal,
                }
            } else {
                let (name, st2, ok2) = pop_ident_model(st1);
                if !ok2 {
                    let rest = vm_run(code, pc + 1, st2, env);
                    VmOut {
                        stack: rest.stack,
                        env: rest.env,
                        errs: "Expected identifier on stack, found none."@ + rest.errs,
                        fatal: rest.fatal,
                    }
                } else {
                    vm_run(code, pc + 1, st2.push(CellModel::Float(v)), env.insert(name, v))
                }
            }
        } else if 1 <= op <= 5 {
            // A binary operator: operands pop in reverse order.
            if stack.len() < 2 {
                let rest = vm_run(code, pc + 1, stack, env);
                VmOut {
                    stack: rest.stack,
                    env: rest.env,
                    errs: "Binary operation attempted with insufficient operands!\n"@ + rest.errs,
                    fatal: rest.fatal,
                }
            } else {
                let (rv, st1, ok1) = pop_float_model(stack);
                if !ok1 {
                    let rest = vm_run(code, pc + 1, st1, env);
                    VmOut {
                        stack: rest.stack,
                        env: rest.env,
                        errs: "Expected 64-bit float on stack, found too few bytes.\n"@ + rest.errs,
                        fatal: rest.fatal,
                    }
                } else {
                    let (lv, st2, ok2) = pop_float_model(st1);
                    if !ok2 {
                        let rest = vm_run(code, pc + 1, st2, env);
                        VmOut {
                            stack: rest.stack,
                            env: rest.env,
                            errs: "Expected 64-bit float on stack, found too few bytes.\n"@
                                + rest.errs,
                            fatal: rest.fatal,
                        }
                    } else if op == 4 && is_zero_bits(rv) {
                        // Division by zero: nothing is pushed, so a later
                        // error about missing operands may compound.
                        let rest = vm_run(code, pc + 1, st2, env);
                        VmOut {
                            stack: rest.stack,
                            env: rest.env,
                            errs: "Cannot divide by zero.\n"@ + rest.errs,
                            fatal: rest.fatal,
                        }
                    } else {
                        vm_run(
                            code,
                            pc + 1,
                            st2.push(CellModel::Float(apply_op(op, lv, rv))),
                            env,
                        )
                    }
                }
            }
        } else {
            // An unknown opcode: outside the contract.
            VmOut { stack, env, errs: Seq::empty(), fatal: true }
        }
    }
}

/// A whole program run from a fresh state, with the end-of-stream check:
/// an empty stack after a completed run is itself an error.
pub open spec fn vm_total(code: Seq<u8>) -> VmOut {
    let o = vm_run(code, 0, Seq::empty(), Map::empty());
    if !o.fatal && o.stack.len() == 0 {
        VmOut { stack: o.stack, env: o.env, errs: o.errs + "No result.\n"@, fatal: o.fatal }
    } else {
        o
    }
}

/// What executing a byte sequence yields: the one remaining value if no
/// error was logged, otherwise the whole log.
pub open spec fn exec_model(code: Seq<u8>) -> Result<u64, Seq<char>> {
    let o = vm_total(code);
    if o.errs.len() == 0 {
        Ok(o.stack.last()->Float_0)
    } else {
        Err(o.errs)
    }
}

/// The machine can run this program: the stream decodes, and if the run
/// logs no error the one remaining cell is a number.
pub open spec fn executable(code: Seq<u8>) -> bool {
    &&& valid_stream(code, 0)
    &&& (vm_total(code).errs.len() == 0 ==> vm_total(code).stack.len() > 0 && vm_total(
        code,
    ).stack.last() is Float)
}

/// Relies on `str::from_utf8`: it succeeds exactly on valid UTF-8 and
/// yields the characters that the bytes encode.
#[verifier::external_body]
fn utf8_string(bytes: &[u8]) -> (r: Option<String>)
    ensures
        r is Some <==> valid_utf8(bytes@),
        r matches Some(s) ==> s@ == decode_utf8(bytes@),
{
    match core::str::from_utf8(bytes) {
        Ok(s) => Some(s.to_string()),
        Err(_) => None,
    }
}

#[verifier::loop_isolation(false)]
fn read_bytes(code: &Vec<u8>, start: usize, len: usize) -> (r: Vec<u8>)
    requires
        start + len <= code@.len(),
    ensures
        r@ == code@.subrange(start as int, start as int + len as int),
{
    // The length call bounds the indices read below.
    let _len = code.len();
    let mut r: Vec<u8> = Vec::new();
    let mut i: usize = 0;
    proof {
        assert(r@ =~= code@.subrange(start as int, start as int));
    }
    while i < len
        invariant
            start + len <= code@.len(),
            i <= len,
            r@ == code@.subrange(start as int, start as int + i as int),
        decreases len - i,
    {
        r.push(code[start + i]);
        i = i + 1;
        proof {
            assert(r@ =~= code@.subrange(start as int, start as int + i as int));
        }
    }
    r
}

/// Runtime state for a program execution.
pub(crate) struct RuntimeState<'a> {
    pub(crate) code: &'a Vec<u8>,  // Source code, provided elsewhere.
    pub(crate) pc: usize,  // Program counter
    pub(crate) stack: Stack,  // Typed operand stack
    pub(crate) errors: String,  // Newline-separated log of errors encountered during execution.
}

impl<'a> RuntimeState<'a> {
    /// Given code, construct a new runtime environment to execute that
    /// program.
    pub(crate) fn new(code: &'a Vec<u8>) -> (r: Self)
        ensures
            r.code == code,
            r.pc == 0,
            r.stack@ == Seq::<CellModel>::empty(),
            r.errors@ == Seq::<char>::empty(),
    {
        Self { code, pc: 0, stack: Stack::new(), errors: String::new() }
    }

    /// Pop the top of the program stack as a number, if possible.
    /// If not, return the error message.
    pub(crate) fn pop_float_from_stack(&mut self) -> (r: Result<u64, String>)
        ensures
            final(self).code == old(self).code,
            final(self).pc == old(self).pc,
            final(self).errors == old(self).errors,
            ({
                let (v, st, ok) = pop_float_model(old(self).stack@);
                final(self).stack@ == st && (if ok {
                    r == Ok::<u64, String>(v)
                } else {
                    r matches Err(e) && e@
                        == "Expected 64-bit float on stack, found too few bytes.\n"@
                })
            }),
    {
        match self.stack.pop_float() {
            Some(v) => Ok(v),
            None => Err(String::from_str("Expected 64-bit float on stack, found too few bytes.\n")),
        }
    }

    fn push_float_to_stack(&mut self, value: u64)
        ensures
            final(self).code == old(self).code,
            final(self).pc == old(self).pc,
            final(self).errors == old(self).errors,
            final(self).stack@ == old(self).stack@.push(CellModel::Float(value)),
    {
        self.stack.push_float(value);
    }

    /// Push an identifier onto the stack, as a tagged cell.
    pub(crate) fn push_identifier_to_stack(&mut self, identifier: String)
        ensures
            final(self).code == old(self).code,
            final(self).pc == old(self).pc,
            final(self).errors == old(self).errors,
            final(self).stack@ == old(self).stack@.push(CellModel::Ident(identifier@)),
    {
        self.stack.push_identifer(identifier);
    }

    /// Pop the top of the program stack as an identifier, if possible.
    /// If not, return the error message.
    pub(crate) fn pop_identifier_from_stack(&mut self) -> (r: Result<String, String>)
        ensures
            final(self).code == old(self).code,
            final(self).pc == old(self).pc,
            final(self).errors == old(self).errors,
            ({
                let (s, st, ok) = pop_ident_model(old(self).stack@);
                final(self).stack@ == st && (if ok {
                    r matches Ok(name) && name@ == s
                } else {
                    r matches Err(e) && e@ == "Expected identifier on stack, found none."@
                })
            }),
    {
        match self.stack.pop_identifier() {
            Some(name) => Ok(name),
            None => Err(String::from_str("Expected identifier on stack, found none.")),
        }
    }

    /// Return the next eight bytes of code as a number, or the truncation
    /// error if fewer than eight bytes remain.
    fn convert_float_from_code(&self) -> (r: Result<u64, String>)
        ensures
            (if self.code@.len() - self.pc < 8 {
                r matches Err(e) && e@ == "Not enough bytes to convert static code into float.\n"@
            } else {
                r == Ok::<u64, String>(
                    spec_u64_from_le_bytes(
                        self.code@.subrange(self.pc as int, self.pc as int + 8),
                    ),
                )
            }),
    {
        let n = self.code.len();
        if n < IMM_LEN || self.pc > n - IMM_LEN {
            return Err(
                String::from_str("Not enough bytes to convert static code into float.\n"),
            );
        }
        let bytes = read_bytes(self.code, self.pc, IMM_LEN);
        Ok(u64_from_le_bytes(bytes.as_slice()))
    }

    /// Interpret the program against the given scope binding.
    /// Returns whether the run is untainted: no error was logged.
    #[verifier::loop_isolation(false)]
    pub(crate) fn interpret_scope(&mut self, scope_binding: &mut Binding) -> (r: bool)
        requires
            valid_stream(old(self).code@, old(self).pc as int),
            old(self).pc <= old(self).code@.len(),
        ensures
            final(self).code == old(self).code,
            ({
                let o = vm_run(
                    old(self).code@,
                    old(self).pc as int,
                    old(self).stack@,
                    old(scope_binding)@,
                );
                &&& final(self).stack@ == o.stack
                &&& final(scope_binding)@ == o.env
                &&& final(self).errors@ == old(self).errors@ + o.errs + (if !o.fatal
                    && o.stack.len() == 0 {
                    "No result.\n"@
                } else {
                    Seq::empty()
                })
                &&& r == (final(self).errors@.len() == 0)
            }),
    {
        let ghost code = self.code@;
        let ghost o0 = vm_run(code, old(self).pc as int, old(self).stack@, old(scope_binding)@);
        let ghost err0 = self.errors@;

        while self.pc < self.code.len()
            invariant
                self.code == old(self).code,
                self.pc <= code.len(),
                valid_stream(code, self.pc as int),
                ({
                    let cur = vm_run(code, self.pc as int, self.stack@, scope_binding@);
                    &&& cur.stack == o0.stack
                    &&& cur.env == o0.env
                    &&& cur.fatal == o0.fatal
                    &&& self.errors@ + cur.errs == err0 + o0.errs
                }),
            decreases code.len() - self.pc,
        {
            let ghost pc0 = self.pc as int;
            let ghost st0 = self.stack@;
            let ghost env0 = scope_binding@;

            let operation = self.code[self.pc];
            self.pc = self.pc + 1;

            match Opcode::opcode_from_byte(operation) {
                Opcode::IDENTIFIER => {
                    // Length of the identifier.
                    let length = self.code[self.pc] as usize;
                    self.pc = self.pc + 1;

                    let bytes = read_bytes(self.code, self.pc, length);
                    match utf8_string(bytes.as_slice()) {
                        Some(identifier) => {
                            self.pc = self.pc + length;
                            self.push_identifier_to_stack(identifier);
                        },
                        None => {
                            // Terminate immediately on a conversion error:
                            // the code itself is corrupted.
                            self.errors.append(
                                "Bytecode UTF conversion error. Expected: stream of valid UTF8 bytes for identifier.\n",
                            );
                            proof {
                                reveal_strlit(
                                    "Bytecode UTF conversion error. Expected: stream of valid UTF8 bytes for identifier.\n",
                                );
                            }
                            return false;
                        },
                    }
                },
                Opcode::VARWRITE => {
                    // Pop the value to write from the stack.
                    let value = match self.pop_float_from_stack() {
                        Ok(value) => value,
                        Err(e) => {
                            // The mismatch costs only this instruction.
                            self.errors.append(e.as_str());
                            continue ;
                        },
                    };

                    // Next, pop the identifier this value is written to.
                    let rval = match self.pop_identifier_from_stack() {
                        Ok(identifier) => identifier,
                        Err(e) => {
                            self.errors.append(e.as_str());
                            continue ;
                        },
                    };

                    // Assign the new value into our scope binding.
                    scope_binding.set_bind(rval, value);

                    // And push the assigned value back on the stack: an
                    // assignment evaluates to it.
                    self.push_float_to_stack(value);
                },
                Opcode::PUSH => {
                    match self.convert_float_from_code() {
                        Ok(bits) => {
                            self.pc = self.pc + IMM_LEN;
                            self.push_float_to_stack(bits);
                        },
                        Err(error) => {
                            // A truncated operand is unrecoverable: log it
                            // and stop decoding.
                            self.errors.append(error.as_str());
                            proof {
                                reveal_strlit(
                                    "Not enough bytes to convert static code into float.\n",
                                );
                            }
                            return false;
                        },
                    }
                },
                _ => {
                    if self.stack.size() < 2 {
                        self.errors.append(
                            "Binary operation attempted with insufficient operands!\n",
                        );
                        continue ;
                    }
                    // Operands were pushed onto the stack in reverse order.
                    let right = match self.pop_float_from_stack() {
                        Ok(v) => v,
                        Err(e) => {
                            self.errors.append(e.as_str());
                            continue ;
                        },
                    };
                    let left = match self.pop_float_from_stack() {
                        Ok(v) => v,
                        Err(e) => {
                            self.errors.append(e.as_str());
                            continue ;
                        },
                    };

                    match Opcode::opcode_from_byte(operation) {
                        Opcode::ADD => self.push_float_to_stack(value_add(left, right)),
                        Opcode::SUBTRACT => self.push_float_to_stack(value_sub(left, right)),
                        Opcode::MULTIPLY => self.push_float_to_stack(value_mul(left, right)),
                        Opcode::DIVIDE => {
                            if value_is_zero(right) {
                                self.errors.append("Cannot divide by zero.\n");
                            } else {
                                self.push_float_to_stack(value_div(left, right));
                            }
                        },
                        _ => self.push_float_to_stack(value_pow(left, right)),
                    }
                },
            }
        }

        if self.stack.size() == 0 {
            self.errors.append("No result.\n");
        }

        // If any errors have been detected, the round is tainted.
        self.errors.as_str().is_empty()
    }
}

} // verus!
