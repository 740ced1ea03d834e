//! What compiled programs do: the bridge between the compiler and the
//! virtual machine, and the laws that hold across the whole pipeline.
//!
//! `seg_effect` gives the effect of one compiled subtree on the machine
//! state; `lemma_run_segment` proves that the machine, run over the bytes
//! of that subtree, has exactly that effect. The public theorems at the
//! bottom state the pipeline's laws.

use vstd::prelude::*;

use crate::ast::ast::{wf_expr, AstModel};
use crate::frontend::lexer::{
    lex_from, lex_model, lex_next_model, lex_number_model, scan_digits, LexemeType,
};
use crate::frontend::parser::wf_lexemes;
use crate::values::is_digit_char;
use crate::bytecode::bytecode_generator::compiled;
use crate::values::is_zero_bits;
use crate::vm::runtime_state::{
    apply_op, exec_model, executable, valid_stream, vm_run, vm_total, VmOut,
};
use crate::vm::stack::{pop_float_model, pop_ident_model, CellModel};
use vstd::bytes::{lemma_auto_spec_u64_to_from_le_bytes, spec_u64_to_le_bytes};
use vstd::utf8::{decode_utf8, encode_utf8, encode_utf8_decode_utf8, encode_utf8_valid_utf8};

verus! {

/// The net effect of a stretch of instructions: the stack and bindings
/// after it, and the errors it logs.
pub ghost struct Eff {
    pub stack: Seq<CellModel>,
    pub env: Map<Seq<char>, u64>,
    pub errs: Seq<char>,
}

/// The byte of the operator at an expression's root (zero for the two
/// non-operator variants).
pub open spec fn op_byte_of(e: AstModel) -> u8 {
    match e {
        AstModel::Add { .. } => 1,
        AstModel::Subtract { .. } => 2,
        AstModel::Multiply { .. } => 3,
        AstModel::Divide { .. } => 4,
        AstModel::Exponentiate { .. } => 5,
        _ => 0,
    }
}

/// The effect of one VARWRITE instruction, exactly as the machine's model
/// has it.
pub open spec fn varwrite_eff(stack: Seq<CellModel>, env: Map<Seq<char>, u64>) -> Eff {
    let (v, st1, ok1) = pop_float_model(stack);
    if !ok1 {
        Eff { stack: st1, env, errs: "Expected 64-bit float on stack, found too few bytes.\n"@ }
    } else {
        let (name, st2, ok2) = pop_ident_model(st1);
        if !ok2 {
            Eff { stack: st2, env, errs: "Expected identifier on stack, found none."@ }
        } else {
            Eff { stack: st2.push(CellModel::Float(v)), env: env.insert(name, v), errs: Seq::empty() }
        }
    }
}

/// The effect of one binary-operator instruction.
pub open spec fn binop_eff(op: u8, stack: Seq<CellModel>, env: Map<Seq<char>, u64>) -> Eff {
    if stack.len() < 2 {
        Eff { stack, env, errs: "Binary operation attempted with insufficient operands!\n"@ }
    } else {
        let (rv, st1, ok1) = pop_float_model(stack);
        if !ok1 {
            Eff { stack: st1, env, errs: "Expected 64-bit float on stack, found too few bytes.\n"@ }
        } else {
            let (lv, st2, ok2) = pop_float_model(st1);
            if !ok2 {
                Eff {
                    stack: st2,
                    env,
                    errs: "Expected 64-bit float on stack, found too few bytes.\n"@,
                }
            } else if op == 4 && is_zero_bits(rv) {
                Eff { stack: st2, env, errs: "Cannot divide by zero.\n"@ }
            } else {
                Eff { stack: st2.push(CellModel::Float(apply_op(op, lv, rv))), env, errs: Seq::empty() }
            }
        }
    }
}

/// The net effect of one compiled subtree on a machine state.
pub open spec fn seg_effect(e: AstModel, stack: Seq<CellModel>, env: Map<Seq<char>, u64>) -> Eff
    decreases e,
{
    match e {
        AstModel::Number { value } => Eff {
            stack: stack.push(CellModel::Float(value)),
            env,
            errs: Seq::empty(),
        },
        AstModel::Assignment { name, value } => {
            let e1 = seg_effect(*value, stack.push(CellModel::Ident(name)), env);
            let w = varwrite_eff(e1.stack, e1.env);
            Eff { stack: w.stack, env: w.env, errs: e1.errs + w.errs }
        },
        AstModel::Exponentiate { left, right }
        | AstModel::Add { left, right }
        | AstModel::Subtract { left, right }
        | AstModel::Multiply { left, right }
        | AstModel::Divide { left, right } => {
            let e1 = seg_effect(*left, stack, env);
            let e2 = seg_effect(*right, e1.stack, e1.env);
            let b = binop_eff(op_byte_of(e), e2.stack, e2.env);
            Eff { stack: b.stack, env: b.env, errs: e1.errs + e2.errs + b.errs }
        },
    }
}

/// The error messages of the machine are visibly nonempty, so an empty
/// log means no instruction failed.
proof fn proof_msgs_nonempty()
    ensures
        "Binary operation attempted with insufficient operands!\n"@.len() > 0,
        "Expected 64-bit float on stack, found too few bytes.\n"@.len() > 0,
        "Expected identifier on stack, found none."@.len() > 0,
        "Cannot divide by zero.\n"@.len() > 0,
        "No result.\n"@.len() > 0,
{
    reveal_strlit("Binary operation attempted with insufficient operands!\n");
    reveal_strlit("Expected 64-bit float on stack, found too few bytes.\n");
    reveal_strlit("Expected identifier on stack, found none.");
    reveal_strlit("Cannot divide by zero.\n");
    reveal_strlit("No result.\n");
}

/// Running the machine over the bytes of one compiled subtree applies
/// exactly the subtree's effect, then continues after the subtree; in
/// particular the run never stops inside the subtree, so a compiled tree
/// never raises the two stream-corruption errors.
#[verifier::rlimit(60)]
pub proof fn lemma_run_segment(
    code: Seq<u8>,
    pc: int,
    e: AstModel,
    stack: Seq<CellModel>,
    env: Map<Seq<char>, u64>,
)
    requires
        wf_expr(e),
        0 <= pc,
        pc + compiled(e).len() <= code.len(),
        code.subrange(pc, pc + compiled(e).len()) == compiled(e),
    ensures
        ({
            let eff = seg_effect(e, stack, env);
            let rest = vm_run(code, pc + compiled(e).len(), eff.stack, eff.env);
            vm_run(code, pc, stack, env) == (VmOut {
                stack: rest.stack,
                env: rest.env,
                errs: eff.errs + rest.errs,
                fatal: rest.fatal,
            })
        }),
    decreases e,
{
    let seg = compiled(e);
    match e {
        AstModel::Number { value } => {
            lemma_auto_spec_u64_to_from_le_bytes();
            assert(seg =~= seq![0u8] + spec_u64_to_le_bytes(value));
            assert(code[pc] == seg[0]);
            assert(code.subrange(pc + 1, pc + 9) =~= spec_u64_to_le_bytes(value)) by {
                assert forall|k: int| 0 <= k < 8 implies code.subrange(pc + 1, pc + 9)[k]
                    == spec_u64_to_le_bytes(value)[k] by {
                    assert(code.subrange(pc + 1, pc + 9)[k] == code[pc + 1 + k]);
                    assert(code[pc + 1 + k] == seg[1 + k]);
                }
            }
            let eff = seg_effect(e, stack, env);
            let rest = vm_run(code, pc + 9, eff.stack, eff.env);
            assert(Seq::<char>::empty() + rest.errs =~= rest.errs);
            assert(vm_run(code, pc, stack, env) == rest);
        },
        AstModel::Assignment { name, value } => {
            let cn = encode_utf8(name);
            let l = cn.len() as int;
            let cv = compiled(*value);
            assert(seg =~= seq![6u8, cn.len() as u8] + cn + cv + seq![7u8]);
            assert(code[pc] == seg[0]);
            assert(code[pc + 1] == seg[1]);
            assert(code[pc + 1] == l as u8);
            assert((l as u8) as int == l);
            assert(code.subrange(pc + 2, pc + 2 + l) =~= cn) by {
                assert forall|k: int| 0 <= k < l implies code.subrange(pc + 2, pc + 2 + l)[k]
                    == cn[k] by {
                    assert(code.subrange(pc + 2, pc + 2 + l)[k] == code[pc + 2 + k]);
                    assert(code[pc + 2 + k] == seg[2 + k]);
                }
            }
            encode_utf8_valid_utf8(name);
            encode_utf8_decode_utf8(name);
            assert(decode_utf8(code.subrange(pc + 2, pc + 2 + l)) == name);

            let st1 = stack.push(CellModel::Ident(name));
            assert(vm_run(code, pc, stack, env) == vm_run(code, pc + 2 + l, st1, env));

            let pcv = pc + 2 + l;
            assert(code.subrange(pcv, pcv + cv.len()) =~= cv) by {
                assert forall|k: int| 0 <= k < cv.len() implies code.subrange(
                    pcv,
                    pcv + cv.len(),
                )[k] == cv[k] by {
                    assert(code.subrange(pcv, pcv + cv.len())[k] == code[pcv + k]);
                    assert(code[pcv + k] == seg[2 + l + k]);
                }
            }
            lemma_run_segment(code, pcv, *value, st1, env);
            let e1 = seg_effect(*value, st1, env);

            let pcw = pcv + cv.len();
            assert(code[pcw] == seg[seg.len() - 1]);
            assert(code[pcw] == 7u8);
            let w = varwrite_eff(e1.stack, e1.env);
            let rest = vm_run(code, pcw + 1, w.stack, w.env);
            assert(vm_run(code, pcw, e1.stack, e1.env) == (VmOut {
                stack: rest.stack,
                env: rest.env,
                errs: w.errs + rest.errs,
                fatal: rest.fatal,
            })) by {
                if varwrite_eff(e1.stack, e1.env).errs.len() == 0 {
                    assert(Seq::<char>::empty() + rest.errs =~= rest.errs);
                }
            }
            assert(pcw + 1 == pc + seg.len());
            let eff = seg_effect(e, stack, env);
            assert(eff.errs =~= e1.errs + w.errs);
            assert(e1.errs + (w.errs + rest.errs) =~= (e1.errs + w.errs) + rest.errs);
        },
        AstModel::Exponentiate { left, right }
        | AstModel::Add { left, right }
        | AstModel::Subtract { left, right }
        | AstModel::Multiply { left, right }
        | AstModel::Divide { left, right } => {
            let b = op_byte_of(e);
            let cl = compiled(*left);
            let cr = compiled(*right);
            assert(seg =~= cl + cr + seq![b]);

            assert(code.subrange(pc, pc + cl.len()) =~= cl) by {
                assert forall|k: int| 0 <= k < cl.len() implies code.subrange(pc, pc + cl.len())[k]
                    == cl[k] by {
                    assert(code[pc + k] == seg[k]);
                }
            }
            lemma_run_segment(code, pc, *left, stack, env);
            let e1 = seg_effect(*left, stack, env);

            let pc2 = pc + cl.len();
            assert(code.subrange(pc2, pc2 + cr.len()) =~= cr) by {
                assert forall|k: int| 0 <= k < cr.len() implies code.subrange(
                    pc2,
                    pc2 + cr.len(),
                )[k] == cr[k] by {
                    assert(code[pc2 + k] == seg[cl.len() + k]);
                }
            }
            lemma_run_segment(code, pc2, *right, e1.stack, e1.env);
            let e2 = seg_effect(*right, e1.stack, e1.env);

            let pc3 = pc2 + cr.len();
            assert(code[pc3] == seg[seg.len() - 1]);
            assert(code[pc3] == b);
            let bf = binop_eff(b, e2.stack, e2.env);
            let rest = vm_run(code, pc3 + 1, bf.stack, bf.env);
            assert(vm_run(code, pc3, e2.stack, e2.env) == (VmOut {
                stack: rest.stack,
                env: rest.env,
                errs: bf.errs + rest.errs,
                fatal: rest.fatal,
            })) by {
                if binop_eff(b, e2.stack, e2.env).errs.len() == 0 {
                    assert(Seq::<char>::empty() + rest.errs =~= rest.errs);
                }
            }
            assert(pc3 + 1 == pc + seg.len());
            let eff = seg_effect(e, stack, env);
            assert(eff.errs =~= e1.errs + e2.errs + bf.errs);
            assert(e1.errs + (e2.errs + (bf.errs + rest.errs)) =~= (e1.errs + e2.errs + bf.errs)
                + rest.errs);
        },
    }
}

/// The bytes of a compiled tree decode cleanly: every opcode is known and
/// every operand is complete, wherever the stream continues validly.
pub proof fn lemma_segment_valid_stream(code: Seq<u8>, pc: int, e: AstModel)
    requires
        wf_expr(e),
        0 <= pc,
        pc + compiled(e).len() <= code.len(),
        code.subrange(pc, pc + compiled(e).len()) == compiled(e),
        valid_stream(code, pc + compiled(e).len()),
    ensures
        valid_stream(code, pc),
    decreases e,
{
    let seg = compiled(e);
    match e {
        AstModel::Number { value } => {
            lemma_auto_spec_u64_to_from_le_bytes();
            assert(seg =~= seq![0u8] + spec_u64_to_le_bytes(value));
            assert(code[pc] == seg[0]);
        },
        AstModel::Assignment { name, value } => {
            let cn = encode_utf8(name);
            let l = cn.len() as int;
            let cv = compiled(*value);
            assert(seg =~= seq![6u8, cn.len() as u8] + cn + cv + seq![7u8]);
            assert(code[pc] == seg[0]);
            assert(code[pc + 1] == seg[1]);
            assert((l as u8) as int == l);
            let pcv = pc + 2 + l;
            assert(code.subrange(pcv, pcv + cv.len()) =~= cv) by {
                assert forall|k: int| 0 <= k < cv.len() implies code.subrange(
                    pcv,
                    pcv + cv.len(),
                )[k] == cv[k] by {
                    assert(code[pcv + k] == seg[2 + l + k]);
                }
            }
            let pcw = pcv + cv.len();
            assert(code[pcw] == seg[seg.len() - 1]);
            assert(valid_stream(code, pcw));
            lemma_segment_valid_stream(code, pcv, *value);
        },
        AstModel::Exponentiate { left, right }
        | AstModel::Add { left, right }
        | AstModel::Subtract { left, right }
        | AstModel::Multiply { left, right }
        | AstModel::Divide { left, right } => {
            let b = op_byte_of(e);
            let cl = compiled(*left);
            let cr = compiled(*right);
            assert(seg =~= cl + cr + seq![b]);
            let pc2 = pc + cl.len();
            let pc3 = pc2 + cr.len();
            assert(code[pc3] == seg[seg.len() - 1]);
            assert(valid_stream(code, pc3));
            assert(code.subrange(pc2, pc2 + cr.len()) =~= cr) by {
                assert forall|k: int| 0 <= k < cr.len() implies code.subrange(
                    pc2,
                    pc2 + cr.len(),
                )[k] == cr[k] by {
                    assert(code[pc2 + k] == seg[cl.len() + k]);
                }
            }
            lemma_segment_valid_stream(code, pc2, *right);
            assert(code.subrange(pc, pc + cl.len()) =~= cl) by {
                assert forall|k: int| 0 <= k < cl.len() implies code.subrange(pc, pc + cl.len())[k]
                    == cl[k] by {
                    assert(code[pc + k] == seg[k]);
                }
            }
            lemma_segment_valid_stream(code, pc, *left);
        },
    }
}

/// A subtree that logs no error leaves exactly one new cell, a number, on
/// top of the stack it was given.
pub proof fn lemma_clean_segment_pushes_one(
    e: AstModel,
    stack: Seq<CellModel>,
    env: Map<Seq<char>, u64>,
)
    requires
        wf_expr(e),
    ensures
        ({
            let g = seg_effect(e, stack, env);
            g.errs.len() == 0 ==> g.stack.len() == stack.len() + 1 && g.stack.last() is Float
                && g.stack.drop_last() == stack
        }),
    decreases e,
{
    match e {
        AstModel::Number { value } => {
            assert(stack.push(CellModel::Float(value)).drop_last() =~= stack);
        },
        AstModel::Assignment { name, value } => {
            let st1 = stack.push(CellModel::Ident(name));
            lemma_clean_segment_pushes_one(*value, st1, env);
            let e1 = seg_effect(*value, st1, env);
            let g = seg_effect(e, stack, env);
            if g.errs.len() == 0 {
                proof_msgs_nonempty();
                assert(e1.errs.len() == 0);
                assert(e1.stack.drop_last() == st1);
                assert(e1.stack.len() == st1.len() + 1);
                assert(e1.stack.drop_last().last() == CellModel::Ident(name));
                assert(e1.stack.drop_last().drop_last() =~= stack);
                assert(g.stack.drop_last() =~= stack);
            }
        },
        AstModel::Exponentiate { left, right }
        | AstModel::Add { left, right }
        | AstModel::Subtract { left, right }
        | AstModel::Multiply { left, right }
        | AstModel::Divide { left, right } => {
            lemma_clean_segment_pushes_one(*left, stack, env);
            let e1 = seg_effect(*left, stack, env);
            lemma_clean_segment_pushes_one(*right, e1.stack, e1.env);
            let e2 = seg_effect(*right, e1.stack, e1.env);
            let b = binop_eff(op_byte_of(e), e2.stack, e2.env);
            let g = seg_effect(e, stack, env);
            if g.errs.len() == 0 {
                proof_msgs_nonempty();
                assert((e1.errs + e2.errs + b.errs).len() == 0);
                assert(e1.errs.len() == 0);
                assert(e2.errs.len() == 0);
                assert(b.errs.len() == 0);
                assert(e2.stack.drop_last() == e1.stack);
                assert(e1.stack.drop_last() == stack);
                assert(e2.stack.len() >= 2);
                assert(e2.stack.drop_last().last() == e1.stack.last());
                assert(g.stack == e2.stack.drop_last().drop_last().push(g.stack.last()));
                assert(g.stack.drop_last() =~= stack);
            }
        },
    }
}

/// Compiling any well-formed tree yields a program the machine can run:
/// the stream decodes, the run never stops on a corrupted stream, and a
/// clean run leaves one number. Hand-corrupted byte streams are the only
/// source of the two fatal errors.
pub proof fn theorem_compiled_code_runs(e: AstModel)
    requires
        wf_expr(e),
    ensures
        valid_stream(compiled(e), 0),
        !vm_total(compiled(e)).fatal,
        executable(compiled(e)),
{
    let code = compiled(e);
    assert(code.subrange(0, code.len() as int) =~= code);
    lemma_segment_valid_stream(code, 0, e);
    lemma_run_segment(code, 0, e, Seq::empty(), Map::empty());
    let eff = seg_effect(e, Seq::empty(), Map::empty());
    lemma_clean_segment_pushes_one(e, Seq::empty(), Map::empty());
    let o = vm_run(code, 0, Seq::empty(), Map::empty());
    assert(vm_run(code, code.len() as int, eff.stack, eff.env).errs =~= Seq::<char>::empty());
    assert(o.errs =~= eff.errs + Seq::<char>::empty());
    assert(o.errs =~= eff.errs);
    if vm_total(code).errs.len() == 0 {
        assert(eff.errs.len() == 0);
        assert(eff.stack.len() == 1);
    }
}

/// The value of an expression tree, evaluated directly: what the excluded
/// tree-walking path would compute.
pub open spec fn eval(e: AstModel) -> u64
    decreases e,
{
    match e {
        AstModel::Number { value } => value,
        AstModel::Assignment { name, value } => eval(*value),
        AstModel::Exponentiate { left, right }
        | AstModel::Add { left, right }
        | AstModel::Subtract { left, right }
        | AstModel::Multiply { left, right }
        | AstModel::Divide { left, right } => apply_op(op_byte_of(e), eval(*left), eval(*right)),
    }
}

/// A tree without assignments.
pub open spec fn assign_free(e: AstModel) -> bool
    decreases e,
{
    match e {
        AstModel::Number { .. } => true,
        AstModel::Assignment { .. } => false,
        AstModel::Exponentiate { left, right }
        | AstModel::Add { left, right }
        | AstModel::Subtract { left, right }
        | AstModel::Multiply { left, right }
        | AstModel::Divide { left, right } => assign_free(*left) && assign_free(*right),
    }
}

/// A tree in which no division meets a zero divisor.
pub open spec fn div_free(e: AstModel) -> bool
    decreases e,
{
    match e {
        AstModel::Number { .. } => true,
        AstModel::Assignment { name, value } => div_free(*value),
        AstModel::Exponentiate { left, right }
        | AstModel::Add { left, right }
        | AstModel::Subtract { left, right }
        | AstModel::Multiply { left, right }
        | AstModel::Divide { left, right } => div_free(*left) && div_free(*right) && (e matches
            AstModel::Divide { .. } ==> !is_zero_bits(eval(*right))),
    }
}

/// A division-free, assignment-free subtree runs without any error and
/// pushes exactly its direct evaluation.
proof fn lemma_clean_eval(e: AstModel, stack: Seq<CellModel>, env: Map<Seq<char>, u64>)
    requires
        wf_expr(e),
        assign_free(e),
        div_free(e),
    ensures
        seg_effect(e, stack, env) == (Eff {
            stack: stack.push(CellModel::Float(eval(e))),
            env,
            errs: Seq::empty(),
        }),
    decreases e,
{
    match e {
        AstModel::Number { value } => {
        },
        AstModel::Assignment { name, value } => {
            assert(!assign_free(e));
        },
        AstModel::Exponentiate { left, right }
        | AstModel::Add { left, right }
        | AstModel::Subtract { left, right }
        | AstModel::Multiply { left, right }
        | AstModel::Divide { left, right } => {
            lemma_clean_eval(*left, stack, env);
            let e1 = seg_effect(*left, stack, env);
            lemma_clean_eval(*right, e1.stack, e1.env);
            let e2 = seg_effect(*right, e1.stack, e1.env);
            let b = binop_eff(op_byte_of(e), e2.stack, e2.env);
            assert(e2.stack.len() >= 2);
            assert(e2.stack.drop_last() =~= e1.stack);
            assert(e1.stack.drop_last() =~= stack);
            assert(b.stack =~= stack.push(CellModel::Float(eval(e))));
            assert(Seq::<char>::empty() + Seq::<char>::empty() + Seq::<char>::empty()
                =~= Seq::<char>::empty());
        },
    }
}

/// For every valid expression with no assignment and no division by zero,
/// executing the compiled bytes yields the same value as evaluating the
/// tree directly: the two execution paths agree.
pub proof fn theorem_compile_execute_equivalence(e: AstModel)
    requires
        wf_expr(e),
        assign_free(e),
        div_free(e),
    ensures
        exec_model(compiled(e)) == Ok::<u64, Seq<char>>(eval(e)),
{
    let code = compiled(e);
    assert(code.subrange(0, code.len() as int) =~= code);
    lemma_run_segment(code, 0, e, Seq::empty(), Map::empty());
    lemma_clean_eval(e, Seq::empty(), Map::empty());
    let eff = seg_effect(e, Seq::empty(), Map::empty());
    let rest = vm_run(code, code.len() as int, eff.stack, eff.env);
    assert(eff.errs + rest.errs =~= Seq::<char>::empty());
    assert(eff.stack.len() == 1);
    let o = vm_run(code, 0, Seq::empty(), Map::empty());
    assert(o.stack.last() == CellModel::Float(eval(e)));
}

/// Executing the compiled form of an assignment both evaluates to the
/// assigned value and binds the name to it in the binding table, so a
/// later use of the name within the same table reads that value.
pub proof fn theorem_assignment_updates_binding(name: Seq<char>, e: AstModel)
    requires
        encode_utf8(name).len() <= 255,
        wf_expr(e),
        assign_free(e),
        div_free(e),
    ensures
        ({
            let a = AstModel::Assignment { name, value: Box::new(e) };
            &&& exec_model(compiled(a)) == Ok::<u64, Seq<char>>(eval(e))
            &&& vm_total(compiled(a)).env == Map::<Seq<char>, u64>::empty().insert(name, eval(e))
        }),
{
    let a = AstModel::Assignment { name, value: Box::new(e) };
    let code = compiled(a);
    assert(code.subrange(0, code.len() as int) =~= code);
    lemma_run_segment(code, 0, a, Seq::empty(), Map::empty());
    let st1 = Seq::empty().push(CellModel::Ident(name));
    lemma_clean_eval(e, st1, Map::empty());
    let e1 = seg_effect(e, st1, Map::empty());
    assert(e1.stack.drop_last() =~= st1);
    assert(e1.stack.drop_last().drop_last() =~= Seq::<CellModel>::empty());
    let w = varwrite_eff(e1.stack, e1.env);
    let eff = seg_effect(a, Seq::empty(), Map::empty());
    assert(eff.errs =~= Seq::<char>::empty() + Seq::<char>::empty());
    assert(eff.errs.len() == 0);
    assert(eff.stack.len() == 1);
    assert(eff.stack.last() == CellModel::Float(eval(e)));
    let rest = vm_run(code, code.len() as int, eff.stack, eff.env);
    assert(eff.errs + rest.errs =~= Seq::<char>::empty());
    let o = vm_run(code, 0, Seq::empty(), Map::empty());
    assert(o.env =~= Map::<Seq<char>, u64>::empty().insert(name, eval(e)));
}

/// What a byte sequence executes to is a function of the bytes alone, and
/// every run starts from a fresh operand stack and binding table: two runs
/// of the same bytes yield the same result, with no hidden state between
/// calls.
pub proof fn theorem_execution_repeatable(
    code: Seq<u8>,
    r1: Result<u64, Seq<char>>,
    r2: Result<u64, Seq<char>>,
)
    requires
        r1 == exec_model(code),
        r2 == exec_model(code),
    ensures
        r1 == r2,
{
}


proof fn lemma_scan_digits_facts(data: Seq<char>, i: int)
    requires
        0 <= i <= data.len(),
    ensures
        i <= scan_digits(data, i) <= data.len(),
        forall|j: int| i <= j < scan_digits(data, i) ==> is_digit_char(#[trigger] data[j]),
    decreases data.len() - i,
{
    if i < data.len() && is_digit_char(data[i]) {
        lemma_scan_digits_facts(data, i + 1);
    }
}

/// What the lexer makes of a numeric literal is a numeral: an optional
/// minus, digits, and at most one interior decimal point.
proof fn lemma_lex_number_numeral(data: Seq<char>, i: int, start: char, line: nat)
    requires
        0 <= i <= data.len(),
        is_digit_char(start) || (start == '-' && i < data.len() && is_digit_char(data[i])),
    ensures
        ({
            let (res, n) = lex_number_model(data, i, start, line);
            res matches Ok(lx) ==> lx.kind == LexemeType::Numeric && crate::values::is_numeral(
                lx.text,
            )
        }),
{
    lemma_scan_digits_facts(data, i);
    let d1 = scan_digits(data, i);
    if start == '-' {
        lemma_scan_digits_facts(data, i + 1);
        assert(d1 == scan_digits(data, i + 1));
        assert(d1 >= i + 1);
    }
    let (res, n) = lex_number_model(data, i, start, line);
    if !(d1 < data.len() && data[d1] == '.') {
        let text = seq![start] + data.subrange(i, d1);
        if start == '-' {
            let t = text.skip(1);
            assert(t =~= data.subrange(i, d1));
            assert(t.len() > 0);
            assert(forall|j: int| 0 <= j < t.len() ==> is_digit_char(#[trigger] t[j]));
            assert(crate::values::digits_only(t));
            assert(crate::values::is_numeral(text));
        } else {
            assert(!is_digit_char('-'));
            assert(text[0] != '-');
            assert(forall|j: int| 0 <= j < text.len() ==> is_digit_char(#[trigger] text[j]));
            assert(crate::values::is_numeral(text));
        }
    } else if d1 + 1 < data.len() && is_digit_char(data[d1 + 1]) {
        lemma_scan_digits_facts(data, d1 + 1);
        let d2 = scan_digits(data, d1 + 1);
        assert(d2 == scan_digits(data, d1 + 2));
        lemma_scan_digits_facts(data, d1 + 2);
        assert(d2 >= d1 + 2);
        let text = (seq![start] + data.subrange(i, d1)).push('.') + data.subrange(d1 + 1, d2);
        if start == '-' {
            let t = text.skip(1);
            let k = d1 - i;
            assert(t[k] == '.');
            assert(t.len() == (d1 - i) + 1 + (d2 - d1 - 1));
            assert(1 <= k < t.len() - 1);
            assert(forall|j: int| 0 <= j < t.len() && j != k ==> is_digit_char(#[trigger] t[j]));
            assert(crate::values::digits_with_point(t));
            assert(crate::values::is_numeral(text));
        } else {
            assert(!is_digit_char('-'));
            let k = 1 + (d1 - i);
            assert(text[k] == '.');
            assert(text.len() == 1 + (d1 - i) + 1 + (d2 - d1 - 1));
            assert(1 <= k < text.len() - 1);
            assert(forall|j: int|
                0 <= j < text.len() && j != k ==> is_digit_char(#[trigger] text[j]));
            assert(crate::values::digits_with_point(text));
            assert(text[0] != '-');
            assert(crate::values::is_numeral(text));
        }
    }
}

/// Every lexeme the lexer can produce satisfies the parser's assumptions:
/// numeric texts are numerals, identifier names fit one length byte.
proof fn lemma_lex_next_kinds(data: Seq<char>, i: int, line: nat)
    requires
        0 <= i,
    ensures
        ({
            let (res, n, l2) = lex_next_model(data, i, line);
            res matches Ok(lx) ==> (lx.kind == LexemeType::Numeric ==> crate::values::is_numeral(
                lx.text,
            )) && (lx.kind == LexemeType::Identifier ==> encode_utf8(lx.text).len() <= 255)
        }),
{
    let w = crate::frontend::lexer::ws_end(data, i);
    lemma_ws_end_facts(data, i);
    let l2 = crate::frontend::lexer::line_after_ws(data, i, line);
    if w < data.len() {
        let c = data[w];
        let p = w + 1;
        if c == '-' {
            if p < data.len() && is_digit_char(data[p]) {
                lemma_lex_number_numeral(data, p, c, l2);
            }
        } else if is_digit_char(c) {
            lemma_lex_number_numeral(data, p, c, l2);
        }
    }
}

proof fn lemma_ws_end_facts(data: Seq<char>, i: int)
    requires
        0 <= i,
    ensures
        i <= crate::frontend::lexer::ws_end(data, i),
        crate::frontend::lexer::ws_end(data, i) <= data.len() || crate::frontend::lexer::ws_end(
            data,
            i,
        ) == i,
    decreases data.len() - i,
{
    if i < data.len() && crate::text::is_space_char(data[i]) {
        lemma_ws_end_facts(data, i + 1);
    }
}

proof fn lemma_lex_from_wf(data: Seq<char>, i: int, line: nat)
    requires
        0 <= i,
    ensures
        wf_lexemes(lex_from(data, i, line).lexemes),
    decreases data.len() - i,
{
    let (res, n, l2) = lex_next_model(data, i, line);
    lemma_lex_next_kinds(data, i, line);
    let n2 = if n < i + 1 {
        i + 1
    } else if n > data.len() {
        data.len() as int
    } else {
        n
    };
    let out = lex_from(data, i, line);
    match res {
        Ok(lx) => {
            if lx.kind == LexemeType::EOF {
                assert(out.lexemes =~= seq![lx]);
            } else {
                lemma_lex_from_wf(data, n2, l2);
                let rest = lex_from(data, n2, l2);
                assert(out.lexemes =~= seq![lx] + rest.lexemes);
                assert forall|k: int| 0 <= k < out.lexemes.len() - 1 implies (
                #[trigger] out.lexemes[k].kind) != LexemeType::EOF by {
                    if k > 0 {
                        assert(out.lexemes[k] == rest.lexemes[k - 1]);
                    }
                }
                assert forall|k: int|
                    0 <= k < out.lexemes.len() && (#[trigger] out.lexemes[k].kind)
                        == LexemeType::Numeric implies crate::values::is_numeral(
                    out.lexemes[k].text,
                ) by {
                    if k > 0 {
                        assert(out.lexemes[k] == rest.lexemes[k - 1]);
                    }
                }
                assert forall|k: int|
                    0 <= k < out.lexemes.len() && (#[trigger] out.lexemes[k].kind)
                        == LexemeType::Identifier implies encode_utf8(out.lexemes[k].text).len()
                    <= 255 by {
                    if k > 0 {
                        assert(out.lexemes[k] == rest.lexemes[k - 1]);
                    }
                }
            }
        },
        Err(m) => {
            lemma_lex_from_wf(data, n2, l2);
        },
    }
}

/// What the lexer hands on always satisfies what the parser assumes.
pub proof fn theorem_lexemes_well_formed(source: Seq<char>)
    ensures
        wf_lexemes(lex_model(source).lexemes),
{
    lemma_lex_from_wf(source, 0, 1);
}


} // verus!
