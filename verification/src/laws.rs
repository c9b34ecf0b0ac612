//! Cross-component laws: properties that tie the lowering compiler to the
//! virtual machine.

use vstd::prelude::*;
use crate::ast::{AstNode, LiteralValue};
use crate::bytecode::{Opcode, spec_opcode_byte, spec_u64_be, spec_u32_be, lemma_u64_be_round_trip,
    lemma_u32_be_round_trip};
use crate::compiler::{CompSt, spec_compile, spec_compile_nodes, spec_compile_node,
    spec_compile_literal, st_emit, st_patch, op_bytes};
use crate::value::ValueV;
use crate::vm::{ProgV, VmSt, StepOut, RunRes, spec_step_to, spec_run_to};

verus! {

/// Law (stack balance, literal case): lowering a single number literal and
/// executing the compiled program from an empty stack finishes with exactly
/// one value on the stack — the literal itself.
pub proof fn lemma_stack_balance_number_literal(bits: u64, fuel: nat)
    requires
        fuel >= 2,
    ensures
        ({
            let st0 = CompSt {
                consts: Seq::<Seq<char>>::empty(),
                code: Seq::<u8>::empty(),
                funcs: Seq::<(Seq<char>, int)>::empty(),
            };
            let compiled = spec_compile(
                seq![AstNode::Literal(LiteralValue::Number(bits))],
                st0,
            );
            &&& compiled is Ok
            &&& ({
                let p = ProgV {
                    consts: compiled.unwrap().consts,
                    code: compiled.unwrap().code,
                };
                let init = VmSt {
                    pc: 0,
                    stack: Seq::<ValueV>::empty(),
                    vars: Seq::<(Seq<char>, ValueV)>::empty(),
                    immut: Seq::<Seq<char>>::empty(),
                    calls: Seq::<int>::empty(),
                    out: Seq::<ValueV>::empty(),
                };
                exists|stf: VmSt|
                    #[trigger] spec_run_to(p, init, fuel, RunRes::Finished(stf))
                        && stf.stack.len() == 1 && stf.stack[0] == ValueV::Num(bits)
            })
        }),
{
    let st0 = CompSt {
        consts: Seq::<Seq<char>>::empty(),
        code: Seq::<u8>::empty(),
        funcs: Seq::<(Seq<char>, int)>::empty(),
    };
    let nodes = seq![AstNode::Literal(LiteralValue::Number(bits))];
    assert(nodes.len() == 1);
    assert(nodes[0] == AstNode::Literal(LiteralValue::Number(bits)));
    assert(nodes.drop_first() =~= Seq::<AstNode>::empty());
    let st1 = st_emit(st0, op_bytes(Opcode::PushNumber) + spec_u64_be(bits));
    assert(spec_compile_literal(LiteralValue::Number(bits), st0) == Ok::<CompSt, ()>(st1));
    assert(spec_compile_node(nodes[0], st0) == Ok::<CompSt, ()>(st1));
    assert(spec_compile_nodes(Seq::<AstNode>::empty(), st1) == Ok::<CompSt, ()>(st1));
    assert(nodes.drop_first() == Seq::<AstNode>::empty());
    assert(spec_compile_nodes(nodes, st0) == Ok::<CompSt, ()>(st1));
    let st2 = st_emit(st1, op_bytes(Opcode::End));
    assert(spec_compile(nodes, st0) == Ok::<CompSt, ()>(st2));
    let code = st2.code;
    assert(code.len() == 10);
    assert(code[0] == spec_opcode_byte(Opcode::PushNumber));
    assert(code[9] == spec_opcode_byte(Opcode::End));
    assert(code.subrange(1, 9) =~= spec_u64_be(bits));
    lemma_u64_be_round_trip(bits);

    let p = ProgV { consts: st2.consts, code };
    let init = VmSt {
        pc: 0,
        stack: Seq::<ValueV>::empty(),
        vars: Seq::<(Seq<char>, ValueV)>::empty(),
        immut: Seq::<Seq<char>>::empty(),
        calls: Seq::<int>::empty(),
        out: Seq::<ValueV>::empty(),
    };
    let mid = VmSt { pc: 9, stack: init.stack.push(ValueV::Num(bits)), ..init };
    assert(spec_step_to(p, init, StepOut::Next(mid)));
    let fin = VmSt { pc: 10, ..mid };
    assert(spec_step_to(p, mid, StepOut::Done(fin)));
    assert(spec_run_to(p, mid, (fuel - 1) as nat, RunRes::Finished(fin)));
    assert(spec_run_to(p, init, fuel, RunRes::Finished(fin)));
    assert(fin.stack.len() == 1 && fin.stack[0] == ValueV::Num(bits));
    let compiled = spec_compile(nodes, st0);
    assert(compiled is Ok);
    let pe = ProgV { consts: compiled.unwrap().consts, code: compiled.unwrap().code };
    assert(pe == p);
    assert(spec_run_to(pe, init, fuel, RunRes::Finished(fin)));
}

/// Law (patch correctness, literal case): lowering a conditional whose
/// condition is the false number literal, with number-literal branches, and
/// executing the compiled program runs exactly the else branch: the result
/// stack holds the else value and never the then value.
pub proof fn lemma_patch_correctness_if_false(a: u64, b: u64, fuel: nat)
    requires
        fuel >= 4,
    ensures
        ({
            let st0 = CompSt {
                consts: Seq::<Seq<char>>::empty(),
                code: Seq::<u8>::empty(),
                funcs: Seq::<(Seq<char>, int)>::empty(),
            };
            let node = AstNode::IfThen {
                condition: Box::new(AstNode::Literal(LiteralValue::Number(0))),
                then_branch: Box::new(AstNode::Literal(LiteralValue::Number(a))),
                else_branch: Some(Box::new(AstNode::Literal(LiteralValue::Number(b)))),
            };
            let compiled = spec_compile(seq![node], st0);
            &&& compiled is Ok
            &&& ({
                let p = ProgV {
                    consts: compiled.unwrap().consts,
                    code: compiled.unwrap().code,
                };
                let init = VmSt {
                    pc: 0,
                    stack: Seq::<ValueV>::empty(),
                    vars: Seq::<(Seq<char>, ValueV)>::empty(),
                    immut: Seq::<Seq<char>>::empty(),
                    calls: Seq::<int>::empty(),
                    out: Seq::<ValueV>::empty(),
                };
                exists|stf: VmSt|
                    #[trigger] spec_run_to(p, init, fuel, RunRes::Finished(stf))
                        && stf.stack =~= seq![ValueV::Num(b)]
            })
        }),
{
    let st0 = CompSt {
        consts: Seq::<Seq<char>>::empty(),
        code: Seq::<u8>::empty(),
        funcs: Seq::<(Seq<char>, int)>::empty(),
    };
    let node = AstNode::IfThen {
        condition: Box::new(AstNode::Literal(LiteralValue::Number(0))),
        then_branch: Box::new(AstNode::Literal(LiteralValue::Number(a))),
        else_branch: Some(Box::new(AstNode::Literal(LiteralValue::Number(b)))),
    };
    let nodes = seq![node];
    assert(nodes.len() == 1 && nodes[0] == node);
    assert(nodes.drop_first() =~= Seq::<AstNode>::empty());

    // The lowering, step by step.
    let s1 = st_emit(st0, op_bytes(Opcode::PushNumber) + spec_u64_be(0));
    assert(spec_compile_node(AstNode::Literal(LiteralValue::Number(0)), st0) == Ok::<
        CompSt,
        (),
    >(s1));
    assert(s1.code.len() == 9);
    let s2 = st_emit(s1, op_bytes(Opcode::JumpIfFalse));
    let s3 = st_emit(s2, spec_u32_be(0));
    assert(s3.code.len() == 14);
    let s4 = st_emit(s3, op_bytes(Opcode::PushNumber) + spec_u64_be(a));
    assert(spec_compile_node(AstNode::Literal(LiteralValue::Number(a)), s3) == Ok::<
        CompSt,
        (),
    >(s4));
    assert(s4.code.len() == 23);
    let s5 = st_emit(s4, op_bytes(Opcode::Jump));
    let s6 = st_emit(s5, spec_u32_be(0));
    assert(s6.code.len() == 28);
    let s7 = st_patch(s6, 10, 28);
    assert(s7.code.len() == 28);
    let s8 = st_emit(s7, op_bytes(Opcode::PushNumber) + spec_u64_be(b));
    assert(spec_compile_node(AstNode::Literal(LiteralValue::Number(b)), s7) == Ok::<
        CompSt,
        (),
    >(s8));
    assert(s8.code.len() == 37);
    let s9 = st_patch(s8, 24, 37);
    assert(spec_compile_node(node, st0) == Ok::<CompSt, ()>(s9));
    assert(spec_compile_nodes(Seq::<AstNode>::empty(), s9) == Ok::<CompSt, ()>(s9));
    assert(nodes.drop_first() == Seq::<AstNode>::empty());
    assert(spec_compile_nodes(nodes, st0) == Ok::<CompSt, ()>(s9));
    let s10 = st_emit(s9, op_bytes(Opcode::End));
    assert(spec_compile(nodes, st0) == Ok::<CompSt, ()>(s10));

    // The exact bytes at the positions execution visits.
    let code = s10.code;
    assert(code.len() == 38);
    assert(code[0] == spec_opcode_byte(Opcode::PushNumber));
    assert(code.subrange(1, 9) =~= spec_u64_be(0));
    assert(code[9] == spec_opcode_byte(Opcode::JumpIfFalse));
    assert(code.subrange(10, 14) =~= spec_u32_be(28));
    assert(code[28] == spec_opcode_byte(Opcode::PushNumber));
    assert(code.subrange(29, 37) =~= spec_u64_be(b));
    assert(code[37] == spec_opcode_byte(Opcode::End));
    lemma_u64_be_round_trip(0);
    lemma_u64_be_round_trip(b);
    lemma_u32_be_round_trip(28);

    // The run: push the false condition, take the patched jump to the else
    // branch, push its value, end.
    let p = ProgV { consts: s10.consts, code };
    let init = VmSt {
        pc: 0,
        stack: Seq::<ValueV>::empty(),
        vars: Seq::<(Seq<char>, ValueV)>::empty(),
        immut: Seq::<Seq<char>>::empty(),
        calls: Seq::<int>::empty(),
        out: Seq::<ValueV>::empty(),
    };
    let m1 = VmSt { pc: 9, stack: init.stack.push(ValueV::Num(0)), ..init };
    assert(spec_step_to(p, init, StepOut::Next(m1)));
    assert(!crate::numeric::spec_num_truthy(0)) by (bit_vector);
    let m2 = VmSt { pc: 28, stack: init.stack, ..init };
    assert(m1.stack.drop_last() =~= init.stack);
    assert(spec_step_to(p, m1, StepOut::Next(m2)));
    let m3 = VmSt { pc: 37, stack: init.stack.push(ValueV::Num(b)), ..init };
    assert(spec_step_to(p, m2, StepOut::Next(m3)));
    let fin = VmSt { pc: 38, ..m3 };
    assert(spec_step_to(p, m3, StepOut::Done(fin)));
    assert(spec_run_to(p, m3, (fuel - 3) as nat, RunRes::Finished(fin)));
    assert(spec_run_to(p, m2, (fuel - 2) as nat, RunRes::Finished(fin)));
    assert(spec_run_to(p, m1, (fuel - 1) as nat, RunRes::Finished(fin)));
    assert(spec_run_to(p, init, fuel, RunRes::Finished(fin)));
    assert(fin.stack =~= seq![ValueV::Num(b)]);

    let compiled = spec_compile(nodes, st0);
    assert(compiled is Ok);
    let pe = ProgV { consts: compiled.unwrap().consts, code: compiled.unwrap().code };
    assert(pe == p);
    assert(spec_run_to(pe, init, fuel, RunRes::Finished(fin)));
}

} // verus!
