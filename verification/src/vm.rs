//! The stack virtual machine: a bounded fetch-decode-execute loop over a
//! bytecode program, operating a typed value stack and a name-to-value
//! environment. Malformed or adversarial bytecode yields a typed error,
//! never a panic or a hang: every fetch is bounds-checked, every unmapped
//! opcode byte is a codec error, and the loop is bounded by an iteration
//! ceiling.

use vstd::prelude::*;
use crate::bytecode::{BytecodeProgram, Opcode, spec_opcode_of_byte, spec_u32_from_be,
    spec_u64_from_be};
use crate::error::AetherError;
use crate::numeric::{spec_num_lt, spec_is_zero, spec_pow_bits, spec_sqrt_bits, num_add, num_sub,
    num_mul, num_div, ABS_MASK, add_bits, sub_bits, mul_bits, div_bits, pow_bits, sqrt_bits,
    num_lt_bits, is_zero_bits};
use crate::value::{Value, ValueV, spec_val_eq, spec_truthy, spec_obj_get, spec_obj_insert,
    spec_value_text, spec_arr_views, spec_obj_views, lemma_arr_views, value_eq, obj_lookup,
    obj_insert, lemma_arr_views_push, lemma_arr_views_drop_last};
use crate::outside::{sha256_hex_of, regex_valid, regex_matches, split_parts, sha256_hex,
    now_rfc3339, random_u64, regex_is_match, split_string};

verus! {

/// Bit pattern of the approximate-equality tolerance (one millionth).
pub const APPROX_EPSILON_BITS: u64 = 0x3EB0_C6F7_A0B5_ED8D;

/// Default maximum iteration ceiling.
pub const DEFAULT_MAX_ITERATIONS: usize = 10000;

/// The program, abstractly: its constant pool and its code bytes. It is
/// read-only input to execution.
#[verifier::ext_equal]
pub struct ProgV {
    pub consts: Seq<Seq<char>>,
    pub code: Seq<u8>,
}

/// The machine's execution state, abstractly: the program counter, the
/// operand stack, the environment, the set of immutable names, the call
/// stack of return addresses, and the values the program has output.
#[verifier::ext_equal]
pub struct VmSt {
    pub pc: int,
    pub stack: Seq<ValueV>,
    pub vars: Seq<(Seq<char>, ValueV)>,
    pub immut: Seq<Seq<char>>,
    pub calls: Seq<int>,
    pub out: Seq<ValueV>,
}

/// What one fetch-decode-execute step can yield: a successor state, a
/// graceful halt, a codec fault on an unmapped opcode byte, or a runtime
/// fault.
pub enum StepOut {
    Next(VmSt),
    Done(VmSt),
    FailDecode,
    FailRuntime,
}

/// How a whole run can end.
pub enum RunRes {
    Finished(VmSt),
    FailedDecode,
    FailedRuntime,
}

/// Whether a name is in the immutable set.
pub open spec fn spec_has_name(names: Seq<Seq<char>>, name: Seq<char>) -> bool {
    exists|j: int| 0 <= j < names.len() && names[j] == name
}

/// Four-byte big-endian operand at `pos`, when in bounds.
pub open spec fn spec_operand_u32(code: Seq<u8>, pos: int) -> u32 {
    spec_u32_from_be(code.subrange(pos, pos + 4))
}

/// The number inside a value, if it is a number.
pub open spec fn spec_as_num(v: ValueV) -> Option<u64> {
    match v {
        ValueV::Num(b) => Some(b),
        _ => None,
    }
}

/// Build a map from the top `n` key-value pairs of the stack, popping a
/// value then its key each time; a key that is not a string is skipped.
/// Yields the entries and the remaining stack.
pub open spec fn spec_make_object(
    stack: Seq<ValueV>,
    n: nat,
    acc: Seq<(Seq<char>, ValueV)>,
) -> (Seq<(Seq<char>, ValueV)>, Seq<ValueV>)
    decreases n,
{
    if n == 0 {
        (acc, stack)
    } else {
        let value = stack.last();
        let key = stack[stack.len() - 2];
        let rest = stack.drop_last().drop_last();
        let acc2 = match key {
            ValueV::Str(k) => spec_obj_insert(acc, k, value),
            _ => acc,
        };
        spec_make_object(rest, (n - 1) as nat, acc2)
    }
}

/// The remaining pieces of a join: a leading separator when anything came
/// before, then the element's text, then the rest.
pub open spec fn spec_join_tail(a: Seq<ValueV>, sep: Seq<char>, leading: bool) -> Seq<char>
    decreases a.len(),
{
    if a.len() == 0 {
        Seq::<char>::empty()
    } else {
        (if leading {
            sep
        } else {
            Seq::<char>::empty()
        }) + spec_value_text(a[0]) + spec_join_tail(a.drop_first(), sep, true)
    }
}

/// The text of array elements joined with a separator.
pub open spec fn spec_join_texts(a: Seq<ValueV>, sep: Seq<char>) -> Seq<char> {
    spec_join_tail(a, sep, false)
}

/// The step relation of the machine: from state `st` under program `p`,
/// one fetch-decode-execute step can yield `out`. Every opcode's effect is
/// a function of the state except the random and datetime instructions,
/// which may push any number or string.
pub open spec fn spec_step_to(p: ProgV, st: VmSt, out: StepOut) -> bool
    recommends
        0 <= st.pc < p.code.len(),
{
    match spec_opcode_of_byte(p.code[st.pc]) {
        None => out == StepOut::FailDecode,
        Some(op) => {
            let pc1 = st.pc + 1;
            let n = st.stack.len() as int;
            match op {
                Opcode::PushNull => out == StepOut::Next(
                    VmSt { pc: pc1, stack: st.stack.push(ValueV::Null), ..st },
                ),
                Opcode::PushBool => if pc1 + 1 > p.code.len() {
                    out == StepOut::FailRuntime
                } else {
                    out == StepOut::Next(
                        VmSt {
                            pc: pc1 + 1,
                            stack: st.stack.push(ValueV::Bool(p.code[pc1] != 0)),
                            ..st
                        },
                    )
                },
                Opcode::PushNumber => if pc1 + 8 > p.code.len() {
                    out == StepOut::FailRuntime
                } else {
                    out == StepOut::Next(
                        VmSt {
                            pc: pc1 + 8,
                            stack: st.stack.push(
                                ValueV::Num(spec_u64_from_be(p.code.subrange(pc1, pc1 + 8))),
                            ),
                            ..st
                        },
                    )
                },
                Opcode::PushString => if pc1 + 4 > p.code.len() {
                    out == StepOut::FailRuntime
                } else {
                    let idx = spec_operand_u32(p.code, pc1) as int;
                    if idx >= p.consts.len() {
                        out == StepOut::FailRuntime
                    } else {
                        out == StepOut::Next(
                            VmSt {
                                pc: pc1 + 4,
                                stack: st.stack.push(ValueV::Str(p.consts[idx])),
                                ..st
                            },
                        )
                    }
                },
                Opcode::Pop => if n < 1 {
                    out == StepOut::FailRuntime
                } else {
                    out == StepOut::Next(VmSt { pc: pc1, stack: st.stack.drop_last(), ..st })
                },
                Opcode::Dup => if n < 1 {
                    out == StepOut::FailRuntime
                } else {
                    out == StepOut::Next(
                        VmSt { pc: pc1, stack: st.stack.push(st.stack.last()), ..st },
                    )
                },
                Opcode::LoadVar => if pc1 + 4 > p.code.len() {
                    out == StepOut::FailRuntime
                } else {
                    let idx = spec_operand_u32(p.code, pc1) as int;
                    if idx >= p.consts.len() {
                        out == StepOut::FailRuntime
                    } else {
                        let value = match spec_obj_get(st.vars, p.consts[idx]) {
                            Some(v) => v,
                            None => ValueV::Null,
                        };
                        out == StepOut::Next(
                            VmSt { pc: pc1 + 4, stack: st.stack.push(value), ..st },
                        )
                    }
                },
                Opcode::StoreVar => if pc1 + 4 > p.code.len() {
                    out == StepOut::FailRuntime
                } else {
                    let idx = spec_operand_u32(p.code, pc1) as int;
                    if idx >= p.consts.len() {
                        out == StepOut::FailRuntime
                    } else if spec_has_name(st.immut, p.consts[idx]) {
                        out == StepOut::FailRuntime
                    } else if n < 1 {
                        out == StepOut::FailRuntime
                    } else {
                        out == StepOut::Next(
                            VmSt {
                                pc: pc1 + 4,
                                stack: st.stack.drop_last(),
                                vars: spec_obj_insert(st.vars, p.consts[idx], st.stack.last()),
                                ..st
                            },
                        )
                    }
                },
                Opcode::StoreImmutable => if pc1 + 4 > p.code.len() {
                    out == StepOut::FailRuntime
                } else {
                    let idx = spec_operand_u32(p.code, pc1) as int;
                    if idx >= p.consts.len() {
                        out == StepOut::FailRuntime
                    } else if spec_has_name(st.immut, p.consts[idx]) {
                        out == StepOut::FailRuntime
                    } else if n < 1 {
                        out == StepOut::FailRuntime
                    } else {
                        out == StepOut::Next(
                            VmSt {
                                pc: pc1 + 4,
                                stack: st.stack.drop_last(),
                                vars: spec_obj_insert(st.vars, p.consts[idx], st.stack.last()),
                                immut: st.immut.push(p.consts[idx]),
                                ..st
                            },
                        )
                    }
                },
                Opcode::Add | Opcode::Sub | Opcode::Mul | Opcode::Div | Opcode::Power => if n
                    < 2 {
                    out == StepOut::FailRuntime
                } else {
                    match (spec_as_num(st.stack[n - 2]), spec_as_num(st.stack[n - 1])) {
                        (Some(l), Some(r)) => {
                            let rest = st.stack.drop_last().drop_last();
                            match op {
                                Opcode::Add => out == StepOut::Next(
                                    VmSt {
                                        pc: pc1,
                                        stack: rest.push(ValueV::Num(num_add(l, r))),
                                        ..st
                                    },
                                ),
                                Opcode::Sub => out == StepOut::Next(
                                    VmSt {
                                        pc: pc1,
                                        stack: rest.push(ValueV::Num(num_sub(l, r))),
                                        ..st
                                    },
                                ),
                                Opcode::Mul => out == StepOut::Next(
                                    VmSt {
                                        pc: pc1,
                                        stack: rest.push(ValueV::Num(num_mul(l, r))),
                                        ..st
                                    },
                                ),
                                Opcode::Div => if spec_is_zero(r) {
                                    out == StepOut::FailRuntime
                                } else {
                                    out == StepOut::Next(
                                        VmSt {
                                            pc: pc1,
                                            stack: rest.push(ValueV::Num(num_div(l, r))),
                                            ..st
                                        },
                                    )
                                },
                                _ => match spec_pow_bits(l, r) {
                                    Ok(v) => out == StepOut::Next(
                                        VmSt {
                                            pc: pc1,
                                            stack: rest.push(ValueV::Num(v)),
                                            ..st
                                        },
                                    ),
                                    Err(()) => out == StepOut::FailRuntime,
                                },
                            }
                        },
                        _ => out == StepOut::FailRuntime,
                    }
                },
                Opcode::Root => if n < 1 {
                    out == StepOut::FailRuntime
                } else {
                    match spec_as_num(st.stack[n - 1]) {
                        Some(v) => out == StepOut::Next(
                            VmSt {
                                pc: pc1,
                                stack: st.stack.drop_last().push(
                                    ValueV::Num(spec_sqrt_bits(v)),
                                ),
                                ..st
                            },
                        ),
                        None => out == StepOut::FailRuntime,
                    }
                },
                Opcode::Equal | Opcode::NotEqual => if n < 2 {
                    out == StepOut::FailRuntime
                } else {
                    let eq = spec_val_eq(st.stack[n - 2], st.stack[n - 1]);
                    let b = if op == Opcode::Equal {
                        eq
                    } else {
                        !eq
                    };
                    out == StepOut::Next(
                        VmSt {
                            pc: pc1,
                            stack: st.stack.drop_last().drop_last().push(ValueV::Bool(b)),
                            ..st
                        },
                    )
                },
                Opcode::LessThan | Opcode::GreaterThan => if n < 2 {
                    out == StepOut::FailRuntime
                } else {
                    match (spec_as_num(st.stack[n - 2]), spec_as_num(st.stack[n - 1])) {
                        (Some(l), Some(r)) => {
                            let b = if op == Opcode::LessThan {
                                spec_num_lt(l, r)
                            } else {
                                spec_num_lt(r, l)
                            };
                            out == StepOut::Next(
                                VmSt {
                                    pc: pc1,
                                    stack: st.stack.drop_last().drop_last().push(
                                        ValueV::Bool(b),
                                    ),
                                    ..st
                                },
                            )
                        },
                        _ => out == StepOut::FailRuntime,
                    }
                },
                Opcode::Approx => if n < 2 {
                    out == StepOut::FailRuntime
                } else {
                    match (spec_as_num(st.stack[n - 2]), spec_as_num(st.stack[n - 1])) {
                        (Some(l), Some(r)) => {
                            let b = spec_num_lt(
                                num_sub(l, r) & ABS_MASK,
                                APPROX_EPSILON_BITS,
                            );
                            out == StepOut::Next(
                                VmSt {
                                    pc: pc1,
                                    stack: st.stack.drop_last().drop_last().push(
                                        ValueV::Bool(b),
                                    ),
                                    ..st
                                },
                            )
                        },
                        _ => out == StepOut::FailRuntime,
                    }
                },
                Opcode::And | Opcode::Or => if n < 2 {
                    out == StepOut::FailRuntime
                } else {
                    let l = spec_truthy(st.stack[n - 2]);
                    let r = spec_truthy(st.stack[n - 1]);
                    let b = if op == Opcode::And {
                        l && r
                    } else {
                        l || r
                    };
                    out == StepOut::Next(
                        VmSt {
                            pc: pc1,
                            stack: st.stack.drop_last().drop_last().push(ValueV::Bool(b)),
                            ..st
                        },
                    )
                },
                Opcode::Not => if n < 1 {
                    out == StepOut::FailRuntime
                } else {
                    out == StepOut::Next(
                        VmSt {
                            pc: pc1,
                            stack: st.stack.drop_last().push(
                                ValueV::Bool(!spec_truthy(st.stack[n - 1])),
                            ),
                            ..st
                        },
                    )
                },
                Opcode::Input => out == StepOut::Next(
                    VmSt { pc: pc1, stack: st.stack.push(ValueV::Null), ..st },
                ),
                Opcode::Output | Opcode::Log => if n < 1 {
                    out == StepOut::FailRuntime
                } else {
                    out == StepOut::Next(
                        VmSt { pc: pc1, out: st.out.push(st.stack.last()), ..st },
                    )
                },
                Opcode::JsonParse => if n < 1 {
                    out == StepOut::FailRuntime
                } else {
                    out == StepOut::Next(VmSt { pc: pc1, ..st })
                },
                Opcode::Persist => if n < 1 {
                    out == StepOut::FailRuntime
                } else {
                    out == StepOut::Next(VmSt { pc: pc1, ..st })
                },
                Opcode::Query => if n < 1 {
                    out == StepOut::FailRuntime
                } else {
                    out == StepOut::Next(
                        VmSt { pc: pc1, stack: st.stack.push(st.stack.last()), ..st },
                    )
                },
                Opcode::Jump => if pc1 + 4 > p.code.len() {
                    out == StepOut::FailRuntime
                } else {
                    out == StepOut::Next(
                        VmSt { pc: spec_operand_u32(p.code, pc1) as int, ..st },
                    )
                },
                Opcode::JumpIfFalse => if pc1 + 4 > p.code.len() {
                    out == StepOut::FailRuntime
                } else if n < 1 {
                    out == StepOut::FailRuntime
                } else {
                    let target = spec_operand_u32(p.code, pc1) as int;
                    let next_pc = if spec_truthy(st.stack.last()) {
                        pc1 + 4
                    } else {
                        target
                    };
                    out == StepOut::Next(
                        VmSt { pc: next_pc, stack: st.stack.drop_last(), ..st },
                    )
                },
                Opcode::JumpIfNull => if pc1 + 4 > p.code.len() {
                    out == StepOut::FailRuntime
                } else if n < 1 {
                    out == StepOut::FailRuntime
                } else {
                    let target = spec_operand_u32(p.code, pc1) as int;
                    let next_pc = if st.stack.last() == ValueV::Null {
                        target
                    } else {
                        pc1 + 4
                    };
                    out == StepOut::Next(VmSt { pc: next_pc, ..st })
                },
                Opcode::Call => if pc1 + 5 > p.code.len() {
                    out == StepOut::FailRuntime
                } else {
                    out == StepOut::Next(
                        VmSt { pc: pc1 + 5, calls: st.calls.push(pc1 + 5), ..st },
                    )
                },
                Opcode::Return => if st.calls.len() > 0 {
                    out == StepOut::Next(
                        VmSt { pc: st.calls.last(), calls: st.calls.drop_last(), ..st },
                    )
                } else {
                    out == StepOut::Done(VmSt { pc: pc1, ..st })
                },
                Opcode::Halt => out == StepOut::FailRuntime,
                Opcode::MakeArray => if pc1 + 4 > p.code.len() {
                    out == StepOut::FailRuntime
                } else {
                    let cnt = spec_operand_u32(p.code, pc1) as int;
                    if n < cnt {
                        out == StepOut::FailRuntime
                    } else {
                        out == StepOut::Next(
                            VmSt {
                                pc: pc1 + 4,
                                stack: st.stack.take(n - cnt).push(
                                    ValueV::Arr(st.stack.skip(n - cnt)),
                                ),
                                ..st
                            },
                        )
                    }
                },
                Opcode::MakeObject => if pc1 + 4 > p.code.len() {
                    out == StepOut::FailRuntime
                } else {
                    let cnt = spec_operand_u32(p.code, pc1) as int;
                    if n < 2 * cnt {
                        out == StepOut::FailRuntime
                    } else {
                        let built = spec_make_object(st.stack, cnt as nat, Seq::empty());
                        out == StepOut::Next(
                            VmSt {
                                pc: pc1 + 4,
                                stack: built.1.push(ValueV::Obj(built.0)),
                                ..st
                            },
                        )
                    }
                },
                Opcode::LoopStart | Opcode::ForEach | Opcode::TryStart | Opcode::Mock => if pc1
                    + 4 > p.code.len() {
                    out == StepOut::FailRuntime
                } else {
                    out == StepOut::Next(VmSt { pc: pc1 + 4, ..st })
                },
                Opcode::LoopEnd => if pc1 + 4 > p.code.len() {
                    out == StepOut::FailRuntime
                } else {
                    out == StepOut::Next(
                        VmSt { pc: spec_operand_u32(p.code, pc1) as int, ..st },
                    )
                },
                Opcode::Hash => if n < 1 {
                    out == StepOut::FailRuntime
                } else {
                    out == StepOut::Next(
                        VmSt {
                            pc: pc1,
                            stack: st.stack.drop_last().push(
                                ValueV::Str(sha256_hex_of(spec_value_text(st.stack.last()))),
                            ),
                            ..st
                        },
                    )
                },
                Opcode::DateTime => exists|s: Seq<char>|
                    out == StepOut::Next(
                        VmSt { pc: pc1, stack: st.stack.push(ValueV::Str(s)), ..st },
                    ),
                Opcode::Random => exists|b: u64|
                    out == StepOut::Next(
                        VmSt { pc: pc1, stack: st.stack.push(ValueV::Num(b)), ..st },
                    ),
                Opcode::Debug | Opcode::TryEnd | Opcode::Async | Opcode::Await | Opcode::Delta
                    | Opcode::Filter | Opcode::Reduce | Opcode::BenchmarkStart
                    | Opcode::BenchmarkEnd => out == StepOut::Next(VmSt { pc: pc1, ..st }),
                Opcode::Retry => if pc1 + 1 > p.code.len() {
                    out == StepOut::FailRuntime
                } else {
                    out == StepOut::Next(VmSt { pc: pc1 + 1, ..st })
                },
                Opcode::TestStart | Opcode::Import => if pc1 + 4 > p.code.len() {
                    out == StepOut::FailRuntime
                } else {
                    let idx = spec_operand_u32(p.code, pc1) as int;
                    if idx >= p.consts.len() {
                        out == StepOut::FailRuntime
                    } else if op == Opcode::Import {
                        out == StepOut::Next(
                            VmSt { pc: pc1 + 4, stack: st.stack.push(ValueV::Null), ..st },
                        )
                    } else {
                        out == StepOut::Next(VmSt { pc: pc1 + 4, ..st })
                    }
                },
                Opcode::Assert => if n < 1 {
                    out == StepOut::FailRuntime
                } else if spec_truthy(st.stack.last()) {
                    out == StepOut::Next(VmSt { pc: pc1, stack: st.stack.drop_last(), ..st })
                } else {
                    out == StepOut::FailRuntime
                },
                Opcode::Split => if n < 2 {
                    out == StepOut::FailRuntime
                } else {
                    match (st.stack[n - 2], st.stack[n - 1]) {
                        (ValueV::Str(s), ValueV::Str(d)) => {
                            let parts = split_parts(s, d);
                            out == StepOut::Next(
                                VmSt {
                                    pc: pc1,
                                    stack: st.stack.drop_last().drop_last().push(
                                        ValueV::Arr(
                                            Seq::new(
                                                parts.len(),
                                                |i: int| ValueV::Str(parts[i]),
                                            ),
                                        ),
                                    ),
                                    ..st
                                },
                            )
                        },
                        _ => out == StepOut::FailRuntime,
                    }
                },
                Opcode::Join => if n < 2 {
                    out == StepOut::FailRuntime
                } else {
                    match (st.stack[n - 2], st.stack[n - 1]) {
                        (ValueV::Arr(a), ValueV::Str(sep)) => out == StepOut::Next(
                            VmSt {
                                pc: pc1,
                                stack: st.stack.drop_last().drop_last().push(
                                    ValueV::Str(spec_join_texts(a, sep)),
                                ),
                                ..st
                            },
                        ),
                        _ => out == StepOut::FailRuntime,
                    }
                },
                Opcode::Regex => if n < 2 {
                    out == StepOut::FailRuntime
                } else {
                    match (st.stack[n - 2], st.stack[n - 1]) {
                        (ValueV::Str(pat), ValueV::Str(tgt)) => {
                            if !regex_valid(pat) {
                                out == StepOut::FailRuntime
                            } else {
                                out == StepOut::Next(
                                    VmSt {
                                        pc: pc1,
                                        stack: st.stack.drop_last().drop_last().push(
                                            ValueV::Bool(regex_matches(pat, tgt)),
                                        ),
                                        ..st
                                    },
                                )
                            }
                        },
                        _ => out == StepOut::FailRuntime,
                    }
                },
                Opcode::Encrypt | Opcode::Decrypt => if n < 2 {
                    out == StepOut::FailRuntime
                } else {
                    let data = st.stack[n - 2];
                    let marker = if op == Opcode::Encrypt {
                        "[ENCRYPTED:"@ + spec_value_text(data) + "]"@
                    } else {
                        "[DECRYPTED:"@ + spec_value_text(data) + "]"@
                    };
                    out == StepOut::Next(
                        VmSt {
                            pc: pc1,
                            stack: st.stack.drop_last().drop_last().push(ValueV::Str(marker)),
                            ..st
                        },
                    )
                },
                Opcode::FileHandle => if n < 1 {
                    out == StepOut::FailRuntime
                } else {
                    out == StepOut::Next(
                        VmSt {
                            pc: pc1,
                            stack: st.stack.drop_last().push(
                                ValueV::Str(
                                    "[FILE:"@ + spec_value_text(st.stack.last()) + "]"@,
                                ),
                            ),
                            ..st
                        },
                    )
                },
                Opcode::FileRead => if n < 1 {
                    out == StepOut::FailRuntime
                } else {
                    out == StepOut::Next(
                        VmSt {
                            pc: pc1,
                            stack: st.stack.drop_last().push(ValueV::Str("[FILE CONTENT]"@)),
                            ..st
                        },
                    )
                },
                Opcode::FileWrite | Opcode::FileAppend => if n < 2 {
                    out == StepOut::FailRuntime
                } else {
                    out == StepOut::Next(
                        VmSt { pc: pc1, stack: st.stack.drop_last().drop_last(), ..st },
                    )
                },
                Opcode::End => out == StepOut::Done(VmSt { pc: pc1, ..st }),
                _ => out == StepOut::FailRuntime,
            }
        },
    }
}

/// The run relation: from state `st` with `fuel` iterations left, the run
/// can end in `res`. Exceeding the iteration ceiling is a runtime fault.
pub open spec fn spec_run_to(p: ProgV, st: VmSt, fuel: nat, res: RunRes) -> bool
    decreases fuel,
{
    if st.pc >= p.code.len() || st.pc < 0 {
        res == RunRes::Finished(st)
    } else if fuel == 0 {
        res == RunRes::FailedRuntime
    } else {
        exists|out: StepOut|
            #[trigger] spec_step_to(p, st, out) && match out {
                StepOut::Next(st2) => spec_run_to(p, st2, (fuel - 1) as nat, res),
                StepOut::Done(st2) => res == RunRes::Finished(st2),
                StepOut::FailDecode => res == RunRes::FailedDecode,
                StepOut::FailRuntime => res == RunRes::FailedRuntime,
            }
    }
}

/// What one executed step asks the driving loop to do.
pub enum StepFlow {
    /// Keep going.
    Continue,
    /// The program halted gracefully.
    Finished,
    /// The step failed with a typed error.
    Fail(AetherError),
}

/// The virtual machine: a program treated as read-only input, and the
/// per-execution state that lives for exactly one `execute` call.
pub struct VM {
    /// The bytecode program.
    pub program: BytecodeProgram,
    /// The program counter.
    pub pc: usize,
    /// The operand stack.
    pub stack: Vec<Value>,
    /// The name-to-value environment.
    pub variables: Vec<(String, Value)>,
    /// The names marked immutable.
    pub immutable_vars: Vec<String>,
    /// Return addresses of calls in progress.
    pub call_stack: Vec<usize>,
    /// The iteration ceiling: the single safety net against bytecode that
    /// never halts.
    pub max_iterations: usize,
    /// The values the program has output, in order.
    pub outputs: Vec<Value>,
}

impl VM {
    /// The program, abstractly.
    pub open spec fn pv(&self) -> ProgV {
        ProgV { consts: self.program.constants.deep_view(), code: self.program.code@ }
    }

    /// The execution state, abstractly.
    pub open spec fn vst(&self) -> VmSt {
        VmSt {
            pc: self.pc as int,
            stack: spec_arr_views(self.stack@),
            vars: spec_obj_views(self.variables@),
            immut: self.immutable_vars.deep_view(),
            calls: Seq::new(self.call_stack@.len(), |i: int| self.call_stack@[i] as int),
            out: spec_arr_views(self.outputs@),
        }
    }

    /// Create a machine over a program, with fresh empty state and the
    /// default iteration ceiling.
    pub fn new(program: BytecodeProgram) -> (r: Self)
        ensures
            r.pv() == (ProgV { consts: program.constants.deep_view(), code: program.code@ }),
            r.vst() == (VmSt {
                pc: 0,
                stack: Seq::<ValueV>::empty(),
                vars: Seq::<(Seq<char>, ValueV)>::empty(),
                immut: Seq::<Seq<char>>::empty(),
                calls: Seq::<int>::empty(),
                out: Seq::<ValueV>::empty(),
            }),
            r.max_iterations == DEFAULT_MAX_ITERATIONS,
    {
        let r = VM {
            program,
            pc: 0,
            stack: Vec::new(),
            variables: Vec::new(),
            immutable_vars: Vec::new(),
            call_stack: Vec::new(),
            max_iterations: DEFAULT_MAX_ITERATIONS,
            outputs: Vec::new(),
        };
        proof {
            assert(r.vst() =~= VmSt {
                pc: 0,
                stack: Seq::<ValueV>::empty(),
                vars: Seq::<(Seq<char>, ValueV)>::empty(),
                immut: Seq::<Seq<char>>::empty(),
                calls: Seq::<int>::empty(),
                out: Seq::<ValueV>::empty(),
            });
        }
        r
    }

    /// Read a four-byte big-endian operand at the counter and advance past
    /// it; truncated bytecode is a runtime error.
    fn fetch_u32(&mut self) -> (r: Result<u32, AetherError>)
        ensures
            final(self).program == old(self).program,
            final(self).stack == old(self).stack,
            final(self).variables == old(self).variables,
            final(self).immutable_vars == old(self).immutable_vars,
            final(self).call_stack == old(self).call_stack,
            final(self).max_iterations == old(self).max_iterations,
            final(self).outputs == old(self).outputs,
            match r {
                Ok(v) => old(self).pc + 4 <= old(self).program.code@.len() && v
                    == spec_operand_u32(old(self).pv().code, old(self).pc as int) && final(self).pc == old(self).pc + 4,
                Err(e) => old(self).pc + 4 > old(self).program.code@.len() && (e matches
                AetherError::RuntimeError(_)) && final(self).pc == old(self).pc,
            },
    {
        let len = self.program.code.len();
        if len < 4 || self.pc > len - 4 {
            return Err(AetherError::RuntimeError(String::from_str("Unexpected end of bytecode")));
        }
        let v = crate::bytecode::read_u32_be(self.program.code.as_slice(), self.pc);
        self.pc = self.pc + 4;
        Ok(v)
    }

    /// Read an eight-byte big-endian operand and advance past it.
    fn fetch_u64(&mut self) -> (r: Result<u64, AetherError>)
        ensures
            final(self).program == old(self).program,
            final(self).stack == old(self).stack,
            final(self).variables == old(self).variables,
            final(self).immutable_vars == old(self).immutable_vars,
            final(self).call_stack == old(self).call_stack,
            final(self).max_iterations == old(self).max_iterations,
            final(self).outputs == old(self).outputs,
            match r {
                Ok(v) => old(self).pc + 8 <= old(self).program.code@.len() && v
                    == spec_u64_from_be(
                    old(self).pv().code.subrange(old(self).pc as int, old(self).pc + 8),
                ) && final(self).pc == old(self).pc + 8,
                Err(e) => old(self).pc + 8 > old(self).program.code@.len() && (e matches
                AetherError::RuntimeError(_)) && final(self).pc == old(self).pc,
            },
    {
        let len = self.program.code.len();
        if len < 8 || self.pc > len - 8 {
            return Err(AetherError::RuntimeError(String::from_str("Unexpected end of bytecode")));
        }
        let v = crate::bytecode::read_u64_be(self.program.code.as_slice(), self.pc);
        self.pc = self.pc + 8;
        Ok(v)
    }

    /// Read a one-byte operand and advance past it.
    fn fetch_u8(&mut self) -> (r: Result<u8, AetherError>)
        ensures
            final(self).program == old(self).program,
            final(self).stack == old(self).stack,
            final(self).variables == old(self).variables,
            final(self).immutable_vars == old(self).immutable_vars,
            final(self).call_stack == old(self).call_stack,
            final(self).max_iterations == old(self).max_iterations,
            final(self).outputs == old(self).outputs,
            match r {
                Ok(v) => old(self).pc + 1 <= old(self).program.code@.len() && v == old(self).pv().code[old(self).pc as int] && final(self).pc == old(self).pc + 1,
                Err(e) => old(self).pc + 1 > old(self).program.code@.len() && (e matches
                AetherError::RuntimeError(_)) && final(self).pc == old(self).pc,
            },
    {
        if self.pc >= self.program.code.len() {
            return Err(AetherError::RuntimeError(String::from_str("Unexpected end of bytecode")));
        }
        let v = self.program.code[self.pc];
        self.pc = self.pc + 1;
        Ok(v)
    }

    /// Pop the top value; an empty stack is a runtime error.
    fn pop_value(&mut self) -> (r: Result<Value, AetherError>)
        ensures
            final(self).program == old(self).program,
            final(self).pc == old(self).pc,
            final(self).variables == old(self).variables,
            final(self).immutable_vars == old(self).immutable_vars,
            final(self).call_stack == old(self).call_stack,
            final(self).max_iterations == old(self).max_iterations,
            final(self).outputs == old(self).outputs,
            match r {
                Ok(v) => old(self).stack@.len() > 0 && old(self).vst().stack.len() > 0 && v@
                    == old(self).vst().stack.last() && final(self).vst().stack == old(
                    self,
                ).vst().stack.drop_last() && final(self).stack@ == old(self).stack@.drop_last(),
                Err(e) => old(self).stack@.len() == 0 && (e matches AetherError::RuntimeError(
                    _,
                )) && final(self).stack@ == old(self).stack@,
            },
    {
        proof {
            lemma_arr_views(self.stack@);
            if self.stack@.len() > 0 {
                lemma_arr_views_drop_last(self.stack@);
            }
        }
        match self.stack.pop() {
            Some(v) => Ok(v),
            None => Err(AetherError::RuntimeError(String::from_str("Stack underflow"))),
        }
    }

    /// Pop the top value as a number; a missing or non-numeric operand is a
    /// runtime error naming the expected kind.
    fn pop_number(&mut self) -> (r: Result<u64, AetherError>)
        ensures
            final(self).program == old(self).program,
            final(self).pc == old(self).pc,
            final(self).variables == old(self).variables,
            final(self).immutable_vars == old(self).immutable_vars,
            final(self).call_stack == old(self).call_stack,
            final(self).max_iterations == old(self).max_iterations,
            final(self).outputs == old(self).outputs,
            match r {
                Ok(bits) => old(self).stack@.len() > 0 && old(self).vst().stack.len() > 0 && old(
                    self,
                ).vst().stack.last() == ValueV::Num(bits) && final(self).vst().stack == old(
                    self,
                ).vst().stack.drop_last(),
                Err(e) => (e matches AetherError::RuntimeError(_)) && (old(self).stack@.len()
                    == 0 || spec_as_num(old(self).vst().stack.last()) is None),
            },
    {
        match self.pop_value() {
            Ok(v) => match v {
                Value::Number(bits) => Ok(bits),
                _ => Err(AetherError::RuntimeError(String::from_str("Expected number"))),
            },
            Err(e) => Err(e),
        }
    }
}

/// Whether the name is in the list.
fn has_name(names: &Vec<String>, name: &String) -> (r: bool)
    ensures
        r == spec_has_name(names.deep_view(), name@),
{
    let mut i: usize = 0;
    while i < names.len()
        invariant
            0 <= i <= names.len(),
            forall|j: int| 0 <= j < i ==> names.deep_view()[j] != name@,
        decreases names.len() - i,
    {
        if names[i] == *name {
            assert(names.deep_view()[i as int] == name@);
            return true;
        }
        assert(names.deep_view()[i as int] == names@[i as int]@);
        i = i + 1;
    }
    false
}

impl VM {

    fn h_push(&mut self, op: Opcode) -> (r: StepFlow)
        requires
            old(self).pc < old(self).program.code@.len(),
            spec_opcode_of_byte(old(self).pv().code[old(self).pc as int]) == Some(op),
            op == Opcode::PushNull || op == Opcode::PushBool || op == Opcode::PushNumber || op == Opcode::PushString || op == Opcode::Pop || op == Opcode::Dup,
        ensures
            final(self).pv() == old(self).pv(),
            final(self).max_iterations == old(self).max_iterations,
            match r {
                StepFlow::Continue => spec_step_to(
                    old(self).pv(),
                    old(self).vst(),
                    StepOut::Next(final(self).vst()),
                ),
                StepFlow::Finished => spec_step_to(
                    old(self).pv(),
                    old(self).vst(),
                    StepOut::Done(final(self).vst()),
                ),
                StepFlow::Fail(e) => ((e matches AetherError::BytecodeError(_))
                    && spec_step_to(old(self).pv(), old(self).vst(), StepOut::FailDecode)) || ((
                e matches AetherError::RuntimeError(_)) && spec_step_to(
                    old(self).pv(),
                    old(self).vst(),
                    StepOut::FailRuntime,
                )),
            },
    {
        let ghost p = self.pv();
        let ghost pre = self.vst();
        let _codelen = self.program.code.len();
        self.pc = self.pc + 1;
        match op {
            Opcode::PushNull => {
                proof {
                    lemma_arr_views_push(self.stack@, Value::Null);
                }
                self.stack.push(Value::Null);
                proof {
                    assert(self.vst() =~= VmSt {
                        pc: pre.pc + 1,
                        stack: pre.stack.push(ValueV::Null),
                        ..pre
                    });
                    assert(spec_step_to(p, pre, StepOut::Next(self.vst())));
                }
                StepFlow::Continue
            },
            Opcode::PushBool => {
                let b = match self.fetch_u8() {
                    Ok(b) => b,
                    Err(e) => {
                        return StepFlow::Fail(e);
                    },
                };
                proof {
                    lemma_arr_views_push(self.stack@, Value::Boolean(b != 0));
                }
                self.stack.push(Value::Boolean(b != 0));
                proof {
                    assert(self.vst() =~= VmSt {
                        pc: pre.pc + 2,
                        stack: pre.stack.push(ValueV::Bool(p.code[pre.pc + 1] != 0)),
                        ..pre
                    });
                }
                StepFlow::Continue
            },
            Opcode::PushNumber => {
                let bits = match self.fetch_u64() {
                    Ok(v) => v,
                    Err(e) => {
                        return StepFlow::Fail(e);
                    },
                };
                proof {
                    lemma_arr_views_push(self.stack@, Value::Number(bits));
                }
                self.stack.push(Value::Number(bits));
                proof {
                    assert(self.vst() =~= VmSt {
                        pc: pre.pc + 9,
                        stack: pre.stack.push(
                            ValueV::Num(spec_u64_from_be(p.code.subrange(pre.pc + 1, pre.pc + 9))),
                        ),
                        ..pre
                    });
                }
                StepFlow::Continue
            },
            Opcode::PushString => {
                let idx = match self.fetch_u32() {
                    Ok(v) => v,
                    Err(e) => {
                        return StepFlow::Fail(e);
                    },
                };
                if idx as usize >= self.program.constants.len() {
                    return StepFlow::Fail(
                        AetherError::RuntimeError(String::from_str("Invalid constant index")),
                    );
                }
                let sv = self.program.constants[idx as usize].clone();
                proof {
                    assert(sv@ == p.consts[idx as int]);
                    lemma_arr_views_push(self.stack@, Value::String(sv));
                }
                self.stack.push(Value::String(sv));
                proof {
                    assert(self.vst() =~= VmSt {
                        pc: pre.pc + 5,
                        stack: pre.stack.push(ValueV::Str(p.consts[idx as int])),
                        ..pre
                    });
                }
                StepFlow::Continue
            },
            Opcode::Pop => {
                match self.pop_value() {
                    Ok(_) => {
                        proof {
                            assert(self.vst() =~= VmSt {
                                pc: pre.pc + 1,
                                stack: pre.stack.drop_last(),
                                ..pre
                            });
                        }
                        StepFlow::Continue
                    },
                    Err(e) => StepFlow::Fail(e),
                }
            },
            _ => {
                // Dup
                if self.stack.len() == 0 {
                    return StepFlow::Fail(
                        AetherError::RuntimeError(String::from_str("Stack underflow")),
                    );
                }
                proof {
                    lemma_arr_views(self.stack@);
                }
                let v = self.stack[self.stack.len() - 1].duplicate();
                proof {
                    lemma_arr_views_push(self.stack@, v);
                    assert(v@ == pre.stack.last());
                }
                self.stack.push(v);
                proof {
                    assert(self.vst() =~= VmSt {
                        pc: pre.pc + 1,
                        stack: pre.stack.push(pre.stack.last()),
                        ..pre
                    });
                }
                StepFlow::Continue
            },
        }
    }

    fn h_vars(&mut self, op: Opcode) -> (r: StepFlow)
        requires
            old(self).pc < old(self).program.code@.len(),
            spec_opcode_of_byte(old(self).pv().code[old(self).pc as int]) == Some(op),
            op == Opcode::LoadVar || op == Opcode::StoreVar || op == Opcode::StoreImmutable,
        ensures
            final(self).pv() == old(self).pv(),
            final(self).max_iterations == old(self).max_iterations,
            match r {
                StepFlow::Continue => spec_step_to(
                    old(self).pv(),
                    old(self).vst(),
                    StepOut::Next(final(self).vst()),
                ),
                StepFlow::Finished => spec_step_to(
                    old(self).pv(),
                    old(self).vst(),
                    StepOut::Done(final(self).vst()),
                ),
                StepFlow::Fail(e) => ((e matches AetherError::BytecodeError(_))
                    && spec_step_to(old(self).pv(), old(self).vst(), StepOut::FailDecode)) || ((
                e matches AetherError::RuntimeError(_)) && spec_step_to(
                    old(self).pv(),
                    old(self).vst(),
                    StepOut::FailRuntime,
                )),
            },
    {
        let ghost p = self.pv();
        let ghost pre = self.vst();
        let _codelen = self.program.code.len();
        self.pc = self.pc + 1;
        let idx = match self.fetch_u32() {
            Ok(v) => v,
            Err(e) => {
                return StepFlow::Fail(e);
            },
        };
        if idx as usize >= self.program.constants.len() {
            return StepFlow::Fail(
                AetherError::RuntimeError(String::from_str("Invalid constant index")),
            );
        }
        let name = self.program.constants[idx as usize].clone();
        proof {
            assert(name@ == p.consts[idx as int]);
        }
        match op {
            Opcode::LoadVar => {
                let value = match obj_lookup(&self.variables, &name) {
                    Some(v) => v.duplicate(),
                    None => Value::Null,
                };
                proof {
                    lemma_arr_views_push(self.stack@, value);
                }
                self.stack.push(value);
                proof {
                    assert(self.vst() =~= VmSt {
                        pc: pre.pc + 5,
                        stack: pre.stack.push(
                            match spec_obj_get(pre.vars, p.consts[idx as int]) {
                                Some(v) => v,
                                None => ValueV::Null,
                            },
                        ),
                        ..pre
                    });
                }
                StepFlow::Continue
            },
            Opcode::StoreVar => {
                if has_name(&self.immutable_vars, &name) {
                    return StepFlow::Fail(
                        AetherError::RuntimeError(
                            String::from_str("Cannot modify immutable variable"),
                        ),
                    );
                }
                let v = match self.pop_value() {
                    Ok(v) => v,
                    Err(e) => {
                        return StepFlow::Fail(e);
                    },
                };
                obj_insert(&mut self.variables, name, v);
                proof {
                    assert(self.vst() =~= VmSt {
                        pc: pre.pc + 5,
                        stack: pre.stack.drop_last(),
                        vars: spec_obj_insert(pre.vars, p.consts[idx as int], pre.stack.last()),
                        ..pre
                    });
                }
                StepFlow::Continue
            },
            _ => {
                // StoreImmutable. Marking a name immutable twice fails, as
                // does storing over an immutable name.
                if has_name(&self.immutable_vars, &name) {
                    return StepFlow::Fail(
                        AetherError::RuntimeError(
                            String::from_str("Cannot modify immutable variable"),
                        ),
                    );
                }
                let v = match self.pop_value() {
                    Ok(v) => v,
                    Err(e) => {
                        return StepFlow::Fail(e);
                    },
                };
                let name2 = name.clone();
                obj_insert(&mut self.variables, name, v);
                self.immutable_vars.push(name2);
                proof {
                    assert(self.immutable_vars.deep_view() =~= pre.immut.push(
                        p.consts[idx as int],
                    ));
                    assert(self.vst() =~= VmSt {
                        pc: pre.pc + 5,
                        stack: pre.stack.drop_last(),
                        vars: spec_obj_insert(pre.vars, p.consts[idx as int], pre.stack.last()),
                        immut: pre.immut.push(p.consts[idx as int]),
                        ..pre
                    });
                }
                StepFlow::Continue
            },
        }
    }

}

impl VM {

    fn h_arith(&mut self, op: Opcode) -> (r: StepFlow)
        requires
            old(self).pc < old(self).program.code@.len(),
            spec_opcode_of_byte(old(self).pv().code[old(self).pc as int]) == Some(op),
            op == Opcode::Add || op == Opcode::Sub || op == Opcode::Mul || op == Opcode::Div || op == Opcode::Power,
        ensures
            final(self).pv() == old(self).pv(),
            final(self).max_iterations == old(self).max_iterations,
            match r {
                StepFlow::Continue => spec_step_to(
                    old(self).pv(),
                    old(self).vst(),
                    StepOut::Next(final(self).vst()),
                ),
                StepFlow::Finished => spec_step_to(
                    old(self).pv(),
                    old(self).vst(),
                    StepOut::Done(final(self).vst()),
                ),
                StepFlow::Fail(e) => ((e matches AetherError::BytecodeError(_))
                    && spec_step_to(old(self).pv(), old(self).vst(), StepOut::FailDecode)) || ((
                e matches AetherError::RuntimeError(_)) && spec_step_to(
                    old(self).pv(),
                    old(self).vst(),
                    StepOut::FailRuntime,
                )),
            },
    {
        let ghost p = self.pv();
        let ghost pre = self.vst();
        let _codelen = self.program.code.len();
        self.pc = self.pc + 1;
        let right = match self.pop_number() {
            Ok(v) => v,
            Err(e) => {
                return StepFlow::Fail(e);
            },
        };
        let left = match self.pop_number() {
            Ok(v) => v,
            Err(e) => {
                return StepFlow::Fail(e);
            },
        };
        proof {
            assert(pre.stack.len() >= 2);
            assert(pre.stack[pre.stack.len() - 2] == ValueV::Num(left));
            assert(self.vst().stack == pre.stack.drop_last().drop_last());
        }
        let result: u64 = match op {
            Opcode::Add => add_bits(left, right),
            Opcode::Sub => sub_bits(left, right),
            Opcode::Mul => mul_bits(left, right),
            Opcode::Div => {
                if is_zero_bits(right) {
                    return StepFlow::Fail(
                        AetherError::RuntimeError(String::from_str("Division by zero")),
                    );
                }
                div_bits(left, right)
            },
            _ => {
                match pow_bits(left, right) {
                    Ok(v) => v,
                    Err(()) => {
                        // Scope decision: a non-integral or non-finite
                        // exponent is not supported by this execution engine.
                        return StepFlow::Fail(
                            AetherError::RuntimeError(
                                String::from_str("unsupported power exponent"),
                            ),
                        );
                    },
                }
            },
        };
        proof {
            lemma_arr_views_push(self.stack@, Value::Number(result));
        }
        self.stack.push(Value::Number(result));
        proof {
            assert(self.vst() =~= VmSt {
                pc: pre.pc + 1,
                stack: pre.stack.drop_last().drop_last().push(ValueV::Num(result)),
                ..pre
            });
        }
        StepFlow::Continue
    }

    fn h_root(&mut self, op: Opcode) -> (r: StepFlow)
        requires
            old(self).pc < old(self).program.code@.len(),
            spec_opcode_of_byte(old(self).pv().code[old(self).pc as int]) == Some(op),
            op == Opcode::Root,
        ensures
            final(self).pv() == old(self).pv(),
            final(self).max_iterations == old(self).max_iterations,
            match r {
                StepFlow::Continue => spec_step_to(
                    old(self).pv(),
                    old(self).vst(),
                    StepOut::Next(final(self).vst()),
                ),
                StepFlow::Finished => spec_step_to(
                    old(self).pv(),
                    old(self).vst(),
                    StepOut::Done(final(self).vst()),
                ),
                StepFlow::Fail(e) => ((e matches AetherError::BytecodeError(_))
                    && spec_step_to(old(self).pv(), old(self).vst(), StepOut::FailDecode)) || ((
                e matches AetherError::RuntimeError(_)) && spec_step_to(
                    old(self).pv(),
                    old(self).vst(),
                    StepOut::FailRuntime,
                )),
            },
    {
        let ghost p = self.pv();
        let ghost pre = self.vst();
        let _codelen = self.program.code.len();
        self.pc = self.pc + 1;
        let v = match self.pop_number() {
            Ok(v) => v,
            Err(e) => {
                return StepFlow::Fail(e);
            },
        };
        let result = sqrt_bits(v);
        proof {
            lemma_arr_views_push(self.stack@, Value::Number(result));
        }
        self.stack.push(Value::Number(result));
        proof {
            assert(self.vst() =~= VmSt {
                pc: pre.pc + 1,
                stack: pre.stack.drop_last().push(ValueV::Num(spec_sqrt_bits(v))),
                ..pre
            });
        }
        StepFlow::Continue
    }

    fn h_compare(&mut self, op: Opcode) -> (r: StepFlow)
        requires
            old(self).pc < old(self).program.code@.len(),
            spec_opcode_of_byte(old(self).pv().code[old(self).pc as int]) == Some(op),
            op == Opcode::Equal || op == Opcode::NotEqual || op == Opcode::LessThan || op == Opcode::GreaterThan || op == Opcode::Approx,
        ensures
            final(self).pv() == old(self).pv(),
            final(self).max_iterations == old(self).max_iterations,
            match r {
                StepFlow::Continue => spec_step_to(
                    old(self).pv(),
                    old(self).vst(),
                    StepOut::Next(final(self).vst()),
                ),
                StepFlow::Finished => spec_step_to(
                    old(self).pv(),
                    old(self).vst(),
                    StepOut::Done(final(self).vst()),
                ),
                StepFlow::Fail(e) => ((e matches AetherError::BytecodeError(_))
                    && spec_step_to(old(self).pv(), old(self).vst(), StepOut::FailDecode)) || ((
                e matches AetherError::RuntimeError(_)) && spec_step_to(
                    old(self).pv(),
                    old(self).vst(),
                    StepOut::FailRuntime,
                )),
            },
    {
        let ghost p = self.pv();
        let ghost pre = self.vst();
        let _codelen = self.program.code.len();
        self.pc = self.pc + 1;
        match op {
            Opcode::Equal | Opcode::NotEqual => {
                let right = match self.pop_value() {
                    Ok(v) => v,
                    Err(e) => {
                        return StepFlow::Fail(e);
                    },
                };
                let left = match self.pop_value() {
                    Ok(v) => v,
                    Err(e) => {
                        return StepFlow::Fail(e);
                    },
                };
                proof {
                    assert(pre.stack.len() >= 2);
                    assert(left@ == pre.stack[pre.stack.len() - 2]);
                    assert(self.vst().stack == pre.stack.drop_last().drop_last());
                }
                let eq = value_eq(&left, &right);
                let b = if matches!(op, Opcode::Equal) {
                    eq
                } else {
                    !eq
                };
                proof {
                    lemma_arr_views_push(self.stack@, Value::Boolean(b));
                }
                self.stack.push(Value::Boolean(b));
                proof {
                    assert(self.vst() =~= VmSt {
                        pc: pre.pc + 1,
                        stack: pre.stack.drop_last().drop_last().push(ValueV::Bool(b)),
                        ..pre
                    });
                }
                StepFlow::Continue
            },
            _ => {
                let right = match self.pop_number() {
                    Ok(v) => v,
                    Err(e) => {
                        return StepFlow::Fail(e);
                    },
                };
                let left = match self.pop_number() {
                    Ok(v) => v,
                    Err(e) => {
                        return StepFlow::Fail(e);
                    },
                };
                proof {
                    assert(pre.stack.len() >= 2);
                    assert(pre.stack[pre.stack.len() - 2] == ValueV::Num(left));
                    assert(self.vst().stack == pre.stack.drop_last().drop_last());
                }
                let b: bool = match op {
                    Opcode::LessThan => num_lt_bits(left, right),
                    Opcode::GreaterThan => num_lt_bits(right, left),
                    _ => {
                        let d = sub_bits(left, right);
                        num_lt_bits(d & ABS_MASK, APPROX_EPSILON_BITS)
                    },
                };
                proof {
                    lemma_arr_views_push(self.stack@, Value::Boolean(b));
                }
                self.stack.push(Value::Boolean(b));
                proof {
                    assert(self.vst() =~= VmSt {
                        pc: pre.pc + 1,
                        stack: pre.stack.drop_last().drop_last().push(ValueV::Bool(b)),
                        ..pre
                    });
                }
                StepFlow::Continue
            },
        }
    }

    fn h_logic(&mut self, op: Opcode) -> (r: StepFlow)
        requires
            old(self).pc < old(self).program.code@.len(),
            spec_opcode_of_byte(old(self).pv().code[old(self).pc as int]) == Some(op),
            op == Opcode::And || op == Opcode::Or || op == Opcode::Not,
        ensures
            final(self).pv() == old(self).pv(),
            final(self).max_iterations == old(self).max_iterations,
            match r {
                StepFlow::Continue => spec_step_to(
                    old(self).pv(),
                    old(self).vst(),
                    StepOut::Next(final(self).vst()),
                ),
                StepFlow::Finished => spec_step_to(
                    old(self).pv(),
                    old(self).vst(),
                    StepOut::Done(final(self).vst()),
                ),
                StepFlow::Fail(e) => ((e matches AetherError::BytecodeError(_))
                    && spec_step_to(old(self).pv(), old(self).vst(), StepOut::FailDecode)) || ((
                e matches AetherError::RuntimeError(_)) && spec_step_to(
                    old(self).pv(),
                    old(self).vst(),
                    StepOut::FailRuntime,
                )),
            },
    {
        let ghost p = self.pv();
        let ghost pre = self.vst();
        let _codelen = self.program.code.len();
        self.pc = self.pc + 1;
        match op {
            Opcode::Not => {
                let v = match self.pop_value() {
                    Ok(v) => v,
                    Err(e) => {
                        return StepFlow::Fail(e);
                    },
                };
                let b = !v.is_truthy();
                proof {
                    lemma_arr_views_push(self.stack@, Value::Boolean(b));
                }
                self.stack.push(Value::Boolean(b));
                proof {
                    assert(self.vst() =~= VmSt {
                        pc: pre.pc + 1,
                        stack: pre.stack.drop_last().push(
                            ValueV::Bool(!spec_truthy(pre.stack.last())),
                        ),
                        ..pre
                    });
                }
                StepFlow::Continue
            },
            _ => {
                let right = match self.pop_value() {
                    Ok(v) => v,
                    Err(e) => {
                        return StepFlow::Fail(e);
                    },
                };
                let left = match self.pop_value() {
                    Ok(v) => v,
                    Err(e) => {
                        return StepFlow::Fail(e);
                    },
                };
                proof {
                    assert(pre.stack.len() >= 2);
                    assert(left@ == pre.stack[pre.stack.len() - 2]);
                    assert(self.vst().stack == pre.stack.drop_last().drop_last());
                }
                let lt = left.is_truthy();
                let rt = right.is_truthy();
                let b = if matches!(op, Opcode::And) {
                    lt && rt
                } else {
                    lt || rt
                };
                proof {
                    lemma_arr_views_push(self.stack@, Value::Boolean(b));
                }
                self.stack.push(Value::Boolean(b));
                proof {
                    assert(self.vst() =~= VmSt {
                        pc: pre.pc + 1,
                        stack: pre.stack.drop_last().drop_last().push(ValueV::Bool(b)),
                        ..pre
                    });
                }
                StepFlow::Continue
            },
        }
    }

    fn h_io(&mut self, op: Opcode) -> (r: StepFlow)
        requires
            old(self).pc < old(self).program.code@.len(),
            spec_opcode_of_byte(old(self).pv().code[old(self).pc as int]) == Some(op),
            op == Opcode::Input || op == Opcode::Output || op == Opcode::Log || op == Opcode::JsonParse || op == Opcode::Persist || op == Opcode::Query || op == Opcode::Debug || op == Opcode::Assert || op == Opcode::Halt,
        ensures
            final(self).pv() == old(self).pv(),
            final(self).max_iterations == old(self).max_iterations,
            match r {
                StepFlow::Continue => spec_step_to(
                    old(self).pv(),
                    old(self).vst(),
                    StepOut::Next(final(self).vst()),
                ),
                StepFlow::Finished => spec_step_to(
                    old(self).pv(),
                    old(self).vst(),
                    StepOut::Done(final(self).vst()),
                ),
                StepFlow::Fail(e) => ((e matches AetherError::BytecodeError(_))
                    && spec_step_to(old(self).pv(), old(self).vst(), StepOut::FailDecode)) || ((
                e matches AetherError::RuntimeError(_)) && spec_step_to(
                    old(self).pv(),
                    old(self).vst(),
                    StepOut::FailRuntime,
                )),
            },
    {
        let ghost p = self.pv();
        let ghost pre = self.vst();
        let _codelen = self.program.code.len();
        self.pc = self.pc + 1;
        match op {
            Opcode::Input => {
                proof {
                    lemma_arr_views_push(self.stack@, Value::Null);
                }
                self.stack.push(Value::Null);
                proof {
                    assert(self.vst() =~= VmSt {
                        pc: pre.pc + 1,
                        stack: pre.stack.push(ValueV::Null),
                        ..pre
                    });
                }
                StepFlow::Continue
            },
            Opcode::Output | Opcode::Log => {
                if self.stack.len() == 0 {
                    return StepFlow::Fail(
                        AetherError::RuntimeError(String::from_str("Stack underflow")),
                    );
                }
                proof {
                    lemma_arr_views(self.stack@);
                }
                let v = self.stack[self.stack.len() - 1].duplicate();
                proof {
                    lemma_arr_views_push(self.outputs@, v);
                    assert(v@ == pre.stack.last());
                }
                self.outputs.push(v);
                proof {
                    assert(self.vst() =~= VmSt {
                        pc: pre.pc + 1,
                        out: pre.out.push(pre.stack.last()),
                        ..pre
                    });
                }
                StepFlow::Continue
            },
            Opcode::JsonParse | Opcode::Persist => {
                if self.stack.len() == 0 {
                    return StepFlow::Fail(
                        AetherError::RuntimeError(String::from_str("Stack underflow")),
                    );
                }
                proof {
                    lemma_arr_views(self.stack@);
                    assert(self.vst() =~= VmSt { pc: pre.pc + 1, ..pre });
                }
                StepFlow::Continue
            },
            Opcode::Query => {
                if self.stack.len() == 0 {
                    return StepFlow::Fail(
                        AetherError::RuntimeError(String::from_str("Stack underflow")),
                    );
                }
                proof {
                    lemma_arr_views(self.stack@);
                }
                let v = self.stack[self.stack.len() - 1].duplicate();
                proof {
                    lemma_arr_views_push(self.stack@, v);
                    assert(v@ == pre.stack.last());
                }
                self.stack.push(v);
                proof {
                    assert(self.vst() =~= VmSt {
                        pc: pre.pc + 1,
                        stack: pre.stack.push(pre.stack.last()),
                        ..pre
                    });
                }
                StepFlow::Continue
            },
            Opcode::Debug => {
                proof {
                    assert(self.vst() =~= VmSt { pc: pre.pc + 1, ..pre });
                }
                StepFlow::Continue
            },
            Opcode::Assert => {
                let v = match self.pop_value() {
                    Ok(v) => v,
                    Err(e) => {
                        return StepFlow::Fail(e);
                    },
                };
                if !v.is_truthy() {
                    return StepFlow::Fail(
                        AetherError::RuntimeError(String::from_str("Assertion failed")),
                    );
                }
                proof {
                    assert(self.vst() =~= VmSt {
                        pc: pre.pc + 1,
                        stack: pre.stack.drop_last(),
                        ..pre
                    });
                }
                StepFlow::Continue
            },
            _ => {
                // Halt: an explicit program-authored termination carrying a
                // payload, surfaced as a runtime error.
                let v = match self.pop_value() {
                    Ok(v) => v,
                    Err(e) => {
                        return StepFlow::Fail(e);
                    },
                };
                let msg = String::from_str("Halted with: ").concat(v.to_text().as_str());
                StepFlow::Fail(AetherError::RuntimeError(msg))
            },
        }
    }

    fn h_flow(&mut self, op: Opcode) -> (r: StepFlow)
        requires
            old(self).pc < old(self).program.code@.len(),
            spec_opcode_of_byte(old(self).pv().code[old(self).pc as int]) == Some(op),
            op == Opcode::Jump || op == Opcode::JumpIfFalse || op == Opcode::JumpIfNull || op == Opcode::Call || op == Opcode::Return || op == Opcode::LoopStart || op == Opcode::LoopEnd || op == Opcode::ForEach || op == Opcode::TryStart || op == Opcode::TryEnd || op == Opcode::Retry || op == Opcode::Mock || op == Opcode::Async || op == Opcode::Await || op == Opcode::Delta || op == Opcode::Filter || op == Opcode::Reduce || op == Opcode::BenchmarkStart || op == Opcode::BenchmarkEnd || op == Opcode::End || op == Opcode::TestStart || op == Opcode::Import,
        ensures
            final(self).pv() == old(self).pv(),
            final(self).max_iterations == old(self).max_iterations,
            match r {
                StepFlow::Continue => spec_step_to(
                    old(self).pv(),
                    old(self).vst(),
                    StepOut::Next(final(self).vst()),
                ),
                StepFlow::Finished => spec_step_to(
                    old(self).pv(),
                    old(self).vst(),
                    StepOut::Done(final(self).vst()),
                ),
                StepFlow::Fail(e) => ((e matches AetherError::BytecodeError(_))
                    && spec_step_to(old(self).pv(), old(self).vst(), StepOut::FailDecode)) || ((
                e matches AetherError::RuntimeError(_)) && spec_step_to(
                    old(self).pv(),
                    old(self).vst(),
                    StepOut::FailRuntime,
                )),
            },
    {
        let ghost p = self.pv();
        let ghost pre = self.vst();
        let _codelen = self.program.code.len();
        self.pc = self.pc + 1;
        match op {
            Opcode::Jump | Opcode::LoopEnd => {
                let target = match self.fetch_u32() {
                    Ok(v) => v,
                    Err(e) => {
                        return StepFlow::Fail(e);
                    },
                };
                self.pc = target as usize;
                proof {
                    assert(self.vst() =~= VmSt { pc: target as int, ..pre });
                }
                StepFlow::Continue
            },
            Opcode::JumpIfFalse => {
                let target = match self.fetch_u32() {
                    Ok(v) => v,
                    Err(e) => {
                        return StepFlow::Fail(e);
                    },
                };
                let v = match self.pop_value() {
                    Ok(v) => v,
                    Err(e) => {
                        return StepFlow::Fail(e);
                    },
                };
                if !v.is_truthy() {
                    self.pc = target as usize;
                }
                proof {
                    assert(self.vst() =~= VmSt {
                        pc: if spec_truthy(pre.stack.last()) {
                            pre.pc + 5
                        } else {
                            target as int
                        },
                        stack: pre.stack.drop_last(),
                        ..pre
                    });
                }
                StepFlow::Continue
            },
            Opcode::JumpIfNull => {
                let target = match self.fetch_u32() {
                    Ok(v) => v,
                    Err(e) => {
                        return StepFlow::Fail(e);
                    },
                };
                if self.stack.len() == 0 {
                    return StepFlow::Fail(
                        AetherError::RuntimeError(String::from_str("Stack underflow")),
                    );
                }
                proof {
                    lemma_arr_views(self.stack@);
                }
                let is_null = self.stack[self.stack.len() - 1].is_null();
                if is_null {
                    self.pc = target as usize;
                }
                proof {
                    assert(self.vst() =~= VmSt {
                        pc: if pre.stack.last() == ValueV::Null {
                            target as int
                        } else {
                            pre.pc + 5
                        },
                        ..pre
                    });
                }
                StepFlow::Continue
            },
            Opcode::Call => {
                let target = match self.fetch_u32() {
                    Ok(v) => v,
                    Err(e) => {
                        return StepFlow::Fail(e);
                    },
                };
                let argc = match self.fetch_u8() {
                    Ok(v) => v,
                    Err(e) => {
                        return StepFlow::Fail(e);
                    },
                };
                self.call_stack.push(self.pc);
                proof {
                    assert(Seq::new(
                        self.call_stack@.len(),
                        |i: int| self.call_stack@[i] as int,
                    ) =~= pre.calls.push(pre.pc + 6));
                    assert(self.vst() =~= VmSt {
                        pc: pre.pc + 6,
                        calls: pre.calls.push(pre.pc + 6),
                        ..pre
                    });
                }
                StepFlow::Continue
            },
            Opcode::Return => {
                match self.call_stack.pop() {
                    Some(addr) => {
                        self.pc = addr;
                        proof {
                            assert(Seq::new(
                                self.call_stack@.len(),
                                |i: int| self.call_stack@[i] as int,
                            ) =~= pre.calls.drop_last());
                            assert(pre.calls.last() == addr as int);
                            assert(self.vst() =~= VmSt {
                                pc: pre.calls.last(),
                                calls: pre.calls.drop_last(),
                                ..pre
                            });
                        }
                        StepFlow::Continue
                    },
                    None => {
                        proof {
                            assert(pre.calls.len() == 0);
                            assert(self.vst() =~= VmSt { pc: pre.pc + 1, ..pre });
                        }
                        StepFlow::Finished
                    },
                }
            },
            Opcode::LoopStart | Opcode::ForEach | Opcode::TryStart | Opcode::Mock => {
                match self.fetch_u32() {
                    Ok(_) => {
                        proof {
                            assert(self.vst() =~= VmSt { pc: pre.pc + 5, ..pre });
                        }
                        StepFlow::Continue
                    },
                    Err(e) => StepFlow::Fail(e),
                }
            },
            Opcode::Retry => {
                match self.fetch_u8() {
                    Ok(_) => {
                        proof {
                            assert(self.vst() =~= VmSt { pc: pre.pc + 2, ..pre });
                        }
                        StepFlow::Continue
                    },
                    Err(e) => StepFlow::Fail(e),
                }
            },
            Opcode::TestStart | Opcode::Import => {
                let idx = match self.fetch_u32() {
                    Ok(v) => v,
                    Err(e) => {
                        return StepFlow::Fail(e);
                    },
                };
                if idx as usize >= self.program.constants.len() {
                    return StepFlow::Fail(
                        AetherError::RuntimeError(String::from_str("Invalid constant index")),
                    );
                }
                if matches!(op, Opcode::Import) {
                    proof {
                        lemma_arr_views_push(self.stack@, Value::Null);
                    }
                    self.stack.push(Value::Null);
                    proof {
                        assert(self.vst() =~= VmSt {
                            pc: pre.pc + 5,
                            stack: pre.stack.push(ValueV::Null),
                            ..pre
                        });
                    }
                    StepFlow::Continue
                } else {
                    proof {
                        assert(self.vst() =~= VmSt { pc: pre.pc + 5, ..pre });
                    }
                    StepFlow::Continue
                }
            },
            Opcode::End => {
                proof {
                    assert(self.vst() =~= VmSt { pc: pre.pc + 1, ..pre });
                }
                StepFlow::Finished
            },
            _ => {
                // TryEnd, Async, Await, Delta, Filter, Reduce, and the
                // benchmark markers are inert markers here.
                proof {
                    assert(self.vst() =~= VmSt { pc: pre.pc + 1, ..pre });
                }
                StepFlow::Continue
            },
        }
    }

}

impl VM {

    fn h_make_array(&mut self, op: Opcode) -> (r: StepFlow)
        requires
            old(self).pc < old(self).program.code@.len(),
            spec_opcode_of_byte(old(self).pv().code[old(self).pc as int]) == Some(op),
            op == Opcode::MakeArray,
        ensures
            final(self).pv() == old(self).pv(),
            final(self).max_iterations == old(self).max_iterations,
            match r {
                StepFlow::Continue => spec_step_to(
                    old(self).pv(),
                    old(self).vst(),
                    StepOut::Next(final(self).vst()),
                ),
                StepFlow::Finished => spec_step_to(
                    old(self).pv(),
                    old(self).vst(),
                    StepOut::Done(final(self).vst()),
                ),
                StepFlow::Fail(e) => ((e matches AetherError::BytecodeError(_))
                    && spec_step_to(old(self).pv(), old(self).vst(), StepOut::FailDecode)) || ((
                e matches AetherError::RuntimeError(_)) && spec_step_to(
                    old(self).pv(),
                    old(self).vst(),
                    StepOut::FailRuntime,
                )),
            },
    {
        let ghost p = self.pv();
        let ghost pre = self.vst();
        let _codelen = self.program.code.len();
        self.pc = self.pc + 1;
        let cnt = match self.fetch_u32() {
            Ok(v) => v,
            Err(e) => {
                return StepFlow::Fail(e);
            },
        };
        proof {
            lemma_arr_views(self.stack@);
        }
        if self.stack.len() < cnt as usize {
            return StepFlow::Fail(
                AetherError::RuntimeError(String::from_str("Stack underflow")),
            );
        }
        let start = self.stack.len() - cnt as usize;
        let ghost whole = self.stack@;
        let tail = self.stack.split_off(start);
        proof {
            lemma_arr_views(whole);
            lemma_arr_views(self.stack@);
            lemma_arr_views(tail@);
            assert(spec_arr_views(self.stack@) =~= pre.stack.take(
                pre.stack.len() - cnt as int,
            ));
            assert(spec_arr_views(tail@) =~= pre.stack.skip(pre.stack.len() - cnt as int));
        }
        let arr = Value::Array(tail);
        proof {
            lemma_arr_views_push(self.stack@, arr);
            assert(arr@ == ValueV::Arr(pre.stack.skip(pre.stack.len() - cnt as int)));
        }
        self.stack.push(arr);
        proof {
            assert(self.vst() =~= VmSt {
                pc: pre.pc + 5,
                stack: pre.stack.take(pre.stack.len() - cnt as int).push(
                    ValueV::Arr(pre.stack.skip(pre.stack.len() - cnt as int)),
                ),
                ..pre
            });
        }
        StepFlow::Continue
    }

    fn h_make_object(&mut self, op: Opcode) -> (r: StepFlow)
        requires
            old(self).pc < old(self).program.code@.len(),
            spec_opcode_of_byte(old(self).pv().code[old(self).pc as int]) == Some(op),
            op == Opcode::MakeObject,
        ensures
            final(self).pv() == old(self).pv(),
            final(self).max_iterations == old(self).max_iterations,
            match r {
                StepFlow::Continue => spec_step_to(
                    old(self).pv(),
                    old(self).vst(),
                    StepOut::Next(final(self).vst()),
                ),
                StepFlow::Finished => spec_step_to(
                    old(self).pv(),
                    old(self).vst(),
                    StepOut::Done(final(self).vst()),
                ),
                StepFlow::Fail(e) => ((e matches AetherError::BytecodeError(_))
                    && spec_step_to(old(self).pv(), old(self).vst(), StepOut::FailDecode)) || ((
                e matches AetherError::RuntimeError(_)) && spec_step_to(
                    old(self).pv(),
                    old(self).vst(),
                    StepOut::FailRuntime,
                )),
            },
    {
        let ghost p = self.pv();
        let ghost pre = self.vst();
        let _codelen = self.program.code.len();
        self.pc = self.pc + 1;
        let cnt = match self.fetch_u32() {
            Ok(v) => v,
            Err(e) => {
                return StepFlow::Fail(e);
            },
        };
        proof {
            lemma_arr_views(self.stack@);
        }
        if self.stack.len() < (cnt as usize) || (self.stack.len() - (cnt as usize)) < (cnt as usize) {
            return StepFlow::Fail(
                AetherError::RuntimeError(String::from_str("Stack underflow")),
            );
        }
        let mut entries: Vec<(String, Value)> = Vec::new();
        let mut i: usize = 0;
        proof {
            assert(crate::value::obj_view(&entries) =~= Seq::<(Seq<char>, ValueV)>::empty());
        }
        while i < cnt as usize
            invariant
                0 <= i <= cnt,
                self.stack@.len() >= 2 * (cnt - i),
                spec_make_object(pre.stack, cnt as nat, Seq::empty()) == spec_make_object(
                    spec_arr_views(self.stack@),
                    (cnt - i) as nat,
                    crate::value::obj_view(&entries),
                ),
                self.pc == pre.pc + 5,
                self.program == old(self).program,
                spec_obj_views(self.variables@) == pre.vars,
                self.immutable_vars.deep_view() == pre.immut,
                Seq::new(self.call_stack@.len(), |j: int| self.call_stack@[j] as int)
                    == pre.calls,
                spec_arr_views(self.outputs@) == pre.out,
                self.max_iterations == old(self).max_iterations,
            decreases cnt - i,
        {
            let ghost stv = spec_arr_views(self.stack@);
            proof {
                lemma_arr_views(self.stack@);
            }
            let value = match self.pop_value() {
                Ok(v) => v,
                Err(e) => {
                    proof {
                        assert(false);
                    }
                    return StepFlow::Fail(e);
                },
            };
            let key = match self.pop_value() {
                Ok(v) => v,
                Err(e) => {
                    proof {
                        assert(false);
                    }
                    return StepFlow::Fail(e);
                },
            };
            proof {
                assert(key@ == stv[stv.len() - 2]);
                assert(spec_arr_views(self.stack@) == stv.drop_last().drop_last());
            }
            match key {
                Value::String(k) => {
                    obj_insert(&mut entries, k, value);
                },
                _ => {},
            }
            i = i + 1;
        }
        let obj = Value::Object(entries);
        proof {
            lemma_arr_views_push(self.stack@, obj);
        }
        self.stack.push(obj);
        proof {
            let built = spec_make_object(pre.stack, cnt as nat, Seq::empty());
            assert(self.vst() =~= VmSt {
                pc: pre.pc + 5,
                stack: built.1.push(ValueV::Obj(built.0)),
                ..pre
            });
        }
        StepFlow::Continue
    }

    fn h_strings(&mut self, op: Opcode) -> (r: StepFlow)
        requires
            old(self).pc < old(self).program.code@.len(),
            spec_opcode_of_byte(old(self).pv().code[old(self).pc as int]) == Some(op),
            op == Opcode::Split || op == Opcode::Join,
        ensures
            final(self).pv() == old(self).pv(),
            final(self).max_iterations == old(self).max_iterations,
            match r {
                StepFlow::Continue => spec_step_to(
                    old(self).pv(),
                    old(self).vst(),
                    StepOut::Next(final(self).vst()),
                ),
                StepFlow::Finished => spec_step_to(
                    old(self).pv(),
                    old(self).vst(),
                    StepOut::Done(final(self).vst()),
                ),
                StepFlow::Fail(e) => ((e matches AetherError::BytecodeError(_))
                    && spec_step_to(old(self).pv(), old(self).vst(), StepOut::FailDecode)) || ((
                e matches AetherError::RuntimeError(_)) && spec_step_to(
                    old(self).pv(),
                    old(self).vst(),
                    StepOut::FailRuntime,
                )),
            },
    {
        let ghost p = self.pv();
        let ghost pre = self.vst();
        let _codelen = self.program.code.len();
        self.pc = self.pc + 1;
        let second = match self.pop_value() {
            Ok(v) => v,
            Err(e) => {
                return StepFlow::Fail(e);
            },
        };
        let first = match self.pop_value() {
            Ok(v) => v,
            Err(e) => {
                return StepFlow::Fail(e);
            },
        };
        proof {
            assert(pre.stack.len() >= 2);
            assert(first@ == pre.stack[pre.stack.len() - 2]);
            assert(self.vst().stack == pre.stack.drop_last().drop_last());
        }
        if matches!(op, Opcode::Split) {
            match (first, second) {
                (Value::String(t), Value::String(d)) => {
                    let parts = split_string(t.as_str(), d.as_str());
                    let mut elems: Vec<Value> = Vec::new();
                    let mut i: usize = 0;
                    let ghost pv_parts = crate::outside::split_parts(t@, d@);
                    proof {
                        assert(parts.deep_view().len() == parts@.len());
                    }
                    while i < parts.len()
                        invariant
                            0 <= i <= parts.len(),
                            parts.deep_view() == pv_parts,
                            parts.deep_view().len() == parts@.len(),
                            elems@.len() == i,
                            forall|j: int|
                                0 <= j < i ==> (#[trigger] elems@[j])@ == ValueV::Str(
                                    pv_parts[j],
                                ),
                        decreases parts.len() - i,
                    {
                        proof {
                            assert(parts.deep_view()[i as int] == parts@[i as int]@);
                        }
                        elems.push(Value::String(parts[i].clone()));
                        i = i + 1;
                    }
                    let arr = Value::Array(elems);
                    proof {
                        lemma_arr_views(arr->Array_0@);
                        assert(spec_arr_views(arr->Array_0@) =~= Seq::new(
                            pv_parts.len(),
                            |j: int| ValueV::Str(pv_parts[j]),
                        ));
                        assert(arr@ == ValueV::Arr(
                            Seq::new(pv_parts.len(), |j: int| ValueV::Str(pv_parts[j])),
                        ));
                        lemma_arr_views_push(self.stack@, arr);
                    }
                    self.stack.push(arr);
                    proof {
                        assert(self.vst() =~= VmSt {
                            pc: pre.pc + 1,
                            stack: pre.stack.drop_last().drop_last().push(
                                ValueV::Arr(
                                    Seq::new(
                                        pv_parts.len(),
                                        |j: int| ValueV::Str(pv_parts[j]),
                                    ),
                                ),
                            ),
                            ..pre
                        });
                    }
                    StepFlow::Continue
                },
                _ => StepFlow::Fail(
                    AetherError::RuntimeError(String::from_str("Split requires string inputs")),
                ),
            }
        } else {
            match (first, second) {
                (Value::Array(arr), Value::String(sep)) => {
                    let ghost av = spec_arr_views(arr@);
                    let mut acc = String::new();
                    let mut i: usize = 0;
                    proof {
                        lemma_arr_views(arr@);
                        assert(av.skip(0) =~= av);
                    }
                    while i < arr.len()
                        invariant
                            0 <= i <= arr.len(),
                            av == spec_arr_views(arr@),
                            av.len() == arr@.len(),
                            spec_join_texts(av, sep@) == acc@ + spec_join_tail(
                                av.skip(i as int),
                                sep@,
                                i > 0,
                            ),
                        decreases arr.len() - i,
                    {
                        if i > 0 {
                            acc.append(sep.as_str());
                        }
                        proof {
                            lemma_arr_views(arr@);
                            assert(av[i as int] == arr@[i as int]@);
                        }
                        let t = arr[i].to_text();
                        acc.append(t.as_str());
                        proof {
                            assert(av.skip(i as int)[0] == av[i as int]);
                            assert(av.skip(i as int).drop_first() =~= av.skip(i + 1));
                        }
                        i = i + 1;
                    }
                    proof {
                        assert(av.skip(av.len() as int).len() == 0);
                        assert(acc@ == spec_join_texts(av, sep@));
                    }
                    let joined = Value::String(acc);
                    proof {
                        lemma_arr_views_push(self.stack@, joined);
                    }
                    self.stack.push(joined);
                    proof {
                        assert(self.vst() =~= VmSt {
                            pc: pre.pc + 1,
                            stack: pre.stack.drop_last().drop_last().push(
                                ValueV::Str(spec_join_texts(av, sep@)),
                            ),
                            ..pre
                        });
                    }
                    StepFlow::Continue
                },
                _ => StepFlow::Fail(
                    AetherError::RuntimeError(String::from_str("Join requires array and string")),
                ),
            }
        }
    }

}

impl VM {
    fn h_domain(&mut self, op: Opcode) -> (r: StepFlow)
        requires
            old(self).pc < old(self).program.code@.len(),
            spec_opcode_of_byte(old(self).pv().code[old(self).pc as int]) == Some(op),
            op == Opcode::Hash || op == Opcode::DateTime || op == Opcode::Random || op
                == Opcode::Regex || op == Opcode::Encrypt || op == Opcode::Decrypt || op
                == Opcode::FileHandle || op == Opcode::FileRead || op == Opcode::FileWrite || op
                == Opcode::FileAppend,
        ensures
            final(self).pv() == old(self).pv(),
            final(self).max_iterations == old(self).max_iterations,
            match r {
                StepFlow::Continue => spec_step_to(
                    old(self).pv(),
                    old(self).vst(),
                    StepOut::Next(final(self).vst()),
                ),
                StepFlow::Finished => spec_step_to(
                    old(self).pv(),
                    old(self).vst(),
                    StepOut::Done(final(self).vst()),
                ),
                StepFlow::Fail(e) => ((e matches AetherError::BytecodeError(_))
                    && spec_step_to(old(self).pv(), old(self).vst(), StepOut::FailDecode)) || ((
                e matches AetherError::RuntimeError(_)) && spec_step_to(
                    old(self).pv(),
                    old(self).vst(),
                    StepOut::FailRuntime,
                )),
            },
    {
        let ghost p = self.pv();
        let ghost pre = self.vst();
        let _codelen = self.program.code.len();
        self.pc = self.pc + 1;
        match op {
            Opcode::Hash => {
                let v = match self.pop_value() {
                    Ok(v) => v,
                    Err(e) => {
                        return StepFlow::Fail(e);
                    },
                };
                let text = v.to_text();
                let digest = sha256_hex(text.as_str());
                let sv = Value::String(digest);
                proof {
                    lemma_arr_views_push(self.stack@, sv);
                }
                self.stack.push(sv);
                proof {
                    assert(self.vst() =~= VmSt {
                        pc: pre.pc + 1,
                        stack: pre.stack.drop_last().push(
                            ValueV::Str(sha256_hex_of(spec_value_text(pre.stack.last()))),
                        ),
                        ..pre
                    });
                }
                StepFlow::Continue
            },
            Opcode::DateTime => {
                let ts = now_rfc3339();
                let ghost tv = ts@;
                let sv = Value::String(ts);
                proof {
                    lemma_arr_views_push(self.stack@, sv);
                }
                self.stack.push(sv);
                proof {
                    assert(self.vst() =~= VmSt {
                        pc: pre.pc + 1,
                        stack: pre.stack.push(ValueV::Str(tv)),
                        ..pre
                    });
                    assert(StepOut::Next(self.vst()) == StepOut::Next(
                        VmSt { pc: pre.pc + 1, stack: pre.stack.push(ValueV::Str(tv)), ..pre },
                    ));
                }
                StepFlow::Continue
            },
            Opcode::Random => {
                let raw = random_u64();
                let scaled = sub_bits(crate::numeric::ONE_BITS | (raw >> 12),
                    crate::numeric::ONE_BITS);
                let nv = Value::Number(scaled);
                proof {
                    lemma_arr_views_push(self.stack@, nv);
                }
                self.stack.push(nv);
                proof {
                    assert(self.vst() =~= VmSt {
                        pc: pre.pc + 1,
                        stack: pre.stack.push(ValueV::Num(scaled)),
                        ..pre
                    });
                    assert(StepOut::Next(self.vst()) == StepOut::Next(
                        VmSt {
                            pc: pre.pc + 1,
                            stack: pre.stack.push(ValueV::Num(scaled)),
                            ..pre
                        },
                    ));
                }
                StepFlow::Continue
            },
            Opcode::Regex => {
                let target = match self.pop_value() {
                    Ok(v) => v,
                    Err(e) => {
                        return StepFlow::Fail(e);
                    },
                };
                let pattern = match self.pop_value() {
                    Ok(v) => v,
                    Err(e) => {
                        return StepFlow::Fail(e);
                    },
                };
                proof {
                    assert(pre.stack.len() >= 2);
                    assert(pattern@ == pre.stack[pre.stack.len() - 2]);
                    assert(self.vst().stack == pre.stack.drop_last().drop_last());
                }
                match (pattern, target) {
                    (Value::String(pat), Value::String(tgt)) => {
                        match regex_is_match(pat.as_str(), tgt.as_str()) {
                            Some(b) => {
                                let bv = Value::Boolean(b);
                                proof {
                                    lemma_arr_views_push(self.stack@, bv);
                                }
                                self.stack.push(bv);
                                proof {
                                    assert(self.vst() =~= VmSt {
                                        pc: pre.pc + 1,
                                        stack: pre.stack.drop_last().drop_last().push(
                                            ValueV::Bool(regex_matches(pat@, tgt@)),
                                        ),
                                        ..pre
                                    });
                                }
                                StepFlow::Continue
                            },
                            None => StepFlow::Fail(
                                AetherError::RuntimeError(
                                    String::from_str("Invalid regex pattern"),
                                ),
                            ),
                        }
                    },
                    _ => StepFlow::Fail(
                        AetherError::RuntimeError(String::from_str("Regex requires string inputs")),
                    ),
                }
            },
            Opcode::Encrypt | Opcode::Decrypt => {
                let _key = match self.pop_value() {
                    Ok(v) => v,
                    Err(e) => {
                        return StepFlow::Fail(e);
                    },
                };
                let data = match self.pop_value() {
                    Ok(v) => v,
                    Err(e) => {
                        return StepFlow::Fail(e);
                    },
                };
                proof {
                    assert(pre.stack.len() >= 2);
                    assert(data@ == pre.stack[pre.stack.len() - 2]);
                    assert(self.vst().stack == pre.stack.drop_last().drop_last());
                }
                let text = data.to_text();
                let marker = if matches!(op, Opcode::Encrypt) {
                    String::from_str("[ENCRYPTED:").concat(text.as_str()).concat("]")
                } else {
                    String::from_str("[DECRYPTED:").concat(text.as_str()).concat("]")
                };
                let sv = Value::String(marker);
                proof {
                    lemma_arr_views_push(self.stack@, sv);
                }
                self.stack.push(sv);
                proof {
                    let m = if op == Opcode::Encrypt {
                        "[ENCRYPTED:"@ + spec_value_text(pre.stack[pre.stack.len() - 2]) + "]"@
                    } else {
                        "[DECRYPTED:"@ + spec_value_text(pre.stack[pre.stack.len() - 2]) + "]"@
                    };
                    assert(self.vst() =~= VmSt {
                        pc: pre.pc + 1,
                        stack: pre.stack.drop_last().drop_last().push(ValueV::Str(m)),
                        ..pre
                    });
                }
                StepFlow::Continue
            },
            Opcode::FileHandle => {
                let v = match self.pop_value() {
                    Ok(v) => v,
                    Err(e) => {
                        return StepFlow::Fail(e);
                    },
                };
                let text = v.to_text();
                let marker = String::from_str("[FILE:").concat(text.as_str()).concat("]");
                let sv = Value::String(marker);
                proof {
                    lemma_arr_views_push(self.stack@, sv);
                }
                self.stack.push(sv);
                proof {
                    assert(self.vst() =~= VmSt {
                        pc: pre.pc + 1,
                        stack: pre.stack.drop_last().push(
                            ValueV::Str("[FILE:"@ + spec_value_text(pre.stack.last()) + "]"@),
                        ),
                        ..pre
                    });
                }
                StepFlow::Continue
            },
            Opcode::FileRead => {
                let _handle = match self.pop_value() {
                    Ok(v) => v,
                    Err(e) => {
                        return StepFlow::Fail(e);
                    },
                };
                let sv = Value::String(String::from_str("[FILE CONTENT]"));
                proof {
                    lemma_arr_views_push(self.stack@, sv);
                }
                self.stack.push(sv);
                proof {
                    assert(self.vst() =~= VmSt {
                        pc: pre.pc + 1,
                        stack: pre.stack.drop_last().push(ValueV::Str("[FILE CONTENT]"@)),
                        ..pre
                    });
                }
                StepFlow::Continue
            },
            _ => {
                // FileWrite | FileAppend
                let _content = match self.pop_value() {
                    Ok(v) => v,
                    Err(e) => {
                        return StepFlow::Fail(e);
                    },
                };
                let _handle = match self.pop_value() {
                    Ok(v) => v,
                    Err(e) => {
                        return StepFlow::Fail(e);
                    },
                };
                proof {
                    assert(pre.stack.len() >= 2);
                    assert(self.vst() =~= VmSt {
                        pc: pre.pc + 1,
                        stack: pre.stack.drop_last().drop_last(),
                        ..pre
                    });
                }
                StepFlow::Continue
            },
        }
    }

    /// One fetch-decode-execute step.
    fn step(&mut self) -> (r: StepFlow)
        requires
            old(self).pc < old(self).program.code@.len(),
        ensures
            final(self).pv() == old(self).pv(),
            final(self).max_iterations == old(self).max_iterations,
            match r {
                StepFlow::Continue => spec_step_to(
                    old(self).pv(),
                    old(self).vst(),
                    StepOut::Next(final(self).vst()),
                ),
                StepFlow::Finished => spec_step_to(
                    old(self).pv(),
                    old(self).vst(),
                    StepOut::Done(final(self).vst()),
                ),
                StepFlow::Fail(e) => ((e matches AetherError::BytecodeError(_))
                    && spec_step_to(old(self).pv(), old(self).vst(), StepOut::FailDecode)) || ((
                e matches AetherError::RuntimeError(_)) && spec_step_to(
                    old(self).pv(),
                    old(self).vst(),
                    StepOut::FailRuntime,
                )),
            },
    {
        let op_byte = self.program.code[self.pc];
        let op = match Opcode::from_byte(op_byte) {
            Ok(o) => o,
            Err(e) => {
                return StepFlow::Fail(e);
            },
        };
        match op {
            Opcode::PushNull | Opcode::PushBool | Opcode::PushNumber | Opcode::PushString
                | Opcode::Pop | Opcode::Dup => self.h_push(op),
            Opcode::LoadVar | Opcode::StoreVar | Opcode::StoreImmutable => self.h_vars(op),
            Opcode::Add | Opcode::Sub | Opcode::Mul | Opcode::Div | Opcode::Power => self.h_arith(
                op,
            ),
            Opcode::Root => self.h_root(op),
            Opcode::Equal | Opcode::NotEqual | Opcode::LessThan | Opcode::GreaterThan
                | Opcode::Approx => self.h_compare(op),
            Opcode::And | Opcode::Or | Opcode::Not => self.h_logic(op),
            Opcode::Input | Opcode::Output | Opcode::Log | Opcode::JsonParse | Opcode::Persist
                | Opcode::Query | Opcode::Debug | Opcode::Assert | Opcode::Halt => self.h_io(op),
            Opcode::Jump | Opcode::JumpIfFalse | Opcode::JumpIfNull | Opcode::Call
                | Opcode::Return | Opcode::LoopStart | Opcode::LoopEnd | Opcode::ForEach
                | Opcode::TryStart | Opcode::TryEnd | Opcode::Retry | Opcode::Mock
                | Opcode::Async | Opcode::Await | Opcode::Delta | Opcode::Filter
                | Opcode::Reduce | Opcode::BenchmarkStart | Opcode::BenchmarkEnd | Opcode::End
                | Opcode::TestStart | Opcode::Import => self.h_flow(op),
            Opcode::MakeArray => self.h_make_array(op),
            Opcode::MakeObject => self.h_make_object(op),
            Opcode::Split | Opcode::Join => self.h_strings(op),
            Opcode::Hash | Opcode::DateTime | Opcode::Random | Opcode::Regex | Opcode::Encrypt
                | Opcode::Decrypt | Opcode::FileHandle | Opcode::FileRead | Opcode::FileWrite
                | Opcode::FileAppend => self.h_domain(op),
            _ => {
                // Defined in the instruction set but intentionally without
                // semantics in this execution engine.
                StepFlow::Fail(
                    AetherError::RuntimeError(
                        String::from_str("opcode not supported by this execution engine"),
                    ),
                )
            },
        }
    }

    fn take_result(&mut self) -> (v: Value)
        ensures
            v@ == (if old(self).vst().stack.len() == 0 {
                ValueV::Null
            } else {
                old(self).vst().stack.last()
            }),
            final(self).vst().out == old(self).vst().out,
            final(self).vst().vars == old(self).vst().vars,
            final(self).vst().immut == old(self).vst().immut,
            final(self).pv() == old(self).pv(),
    {
        proof {
            lemma_arr_views(self.stack@);
            if self.stack@.len() > 0 {
                lemma_arr_views_drop_last(self.stack@);
            }
        }
        match self.stack.pop() {
            Some(v) => v,
            None => Value::Null,
        }
    }

    /// Run the program to completion: success with the final stack top (or
    /// the absence value), a typed error, or the iteration-ceiling error —
    /// never a hang and never a panic. The result is an outcome of the
    /// machine's step relation from the starting state, with the iteration
    /// ceiling as fuel; the recorded outputs are those of that run.
    pub fn execute(&mut self) -> (r: Result<Value, AetherError>)
        ensures
            final(self).pv() == old(self).pv(),
            match r {
                Ok(v) => exists|stf: VmSt|
                    {
                        &&& #[trigger] spec_run_to(
                            old(self).pv(),
                            old(self).vst(),
                            old(self).max_iterations as nat,
                            RunRes::Finished(stf),
                        )
                        &&& v@ == (if stf.stack.len() == 0 {
                            ValueV::Null
                        } else {
                            stf.stack.last()
                        })
                        &&& final(self).vst().out == stf.out
                        &&& final(self).vst().vars == stf.vars
                        &&& final(self).vst().immut == stf.immut
                    },
                Err(e) => ((e matches AetherError::BytecodeError(_)) && spec_run_to(
                    old(self).pv(),
                    old(self).vst(),
                    old(self).max_iterations as nat,
                    RunRes::FailedDecode,
                )) || ((e matches AetherError::RuntimeError(_)) && spec_run_to(
                    old(self).pv(),
                    old(self).vst(),
                    old(self).max_iterations as nat,
                    RunRes::FailedRuntime,
                )),
            },
    {
        let ghost p = self.pv();
        let ghost st0 = self.vst();
        let ghost fuel0 = self.max_iterations as nat;
        let mut iteration_count: usize = 0;
        while self.pc < self.program.code.len()
            invariant
                self.pv() == p,
                p == old(self).pv(),
                self.max_iterations == old(self).max_iterations,
                iteration_count <= self.max_iterations,
                fuel0 == old(self).max_iterations as nat,
                st0 == old(self).vst(),
                forall|res: RunRes|
                    spec_run_to(p, self.vst(), (fuel0 - iteration_count) as nat, res)
                        ==> spec_run_to(p, st0, fuel0, res),
            decreases self.max_iterations + 1 - iteration_count,
        {
            if iteration_count >= self.max_iterations {
                proof {
                    assert(spec_run_to(
                        p,
                        self.vst(),
                        (fuel0 - iteration_count) as nat,
                        RunRes::FailedRuntime,
                    ));
                }
                return Err(
                    AetherError::RuntimeError(
                        String::from_str("Maximum iteration count exceeded"),
                    ),
                );
            }
            iteration_count = iteration_count + 1;
            let ghost prev = self.vst();
            let ghost fuel_rem = (fuel0 - (iteration_count - 1)) as nat;
            let flow = self.step();
            match flow {
                StepFlow::Continue => {
                    proof {
                        assert forall|res: RunRes|
                            spec_run_to(
                                p,
                                self.vst(),
                                (fuel0 - iteration_count) as nat,
                                res,
                            ) implies spec_run_to(p, st0, fuel0, res) by {
                            assert(spec_step_to(p, prev, StepOut::Next(self.vst())));
                            assert(spec_run_to(p, prev, fuel_rem, res));
                        }
                    }
                },
                StepFlow::Finished => {
                    let ghost stf = self.vst();
                    proof {
                        assert(spec_step_to(p, prev, StepOut::Done(stf)));
                        assert(spec_run_to(p, prev, fuel_rem, RunRes::Finished(stf)));
                        assert(spec_run_to(p, st0, fuel0, RunRes::Finished(stf)));
                    }
                    let v = self.take_result();
                    return Ok(v);
                },
                StepFlow::Fail(e) => {
                    proof {
                        if spec_step_to(p, prev, StepOut::FailDecode) {
                            assert(spec_run_to(p, prev, fuel_rem, RunRes::FailedDecode));
                        }
                        if spec_step_to(p, prev, StepOut::FailRuntime) {
                            assert(spec_run_to(p, prev, fuel_rem, RunRes::FailedRuntime));
                        }
                    }
                    return Err(e);
                },
            }
        }
        let ghost stf = self.vst();
        proof {
            assert(spec_run_to(p, stf, (fuel0 - iteration_count) as nat, RunRes::Finished(stf)));
            assert(spec_run_to(p, st0, fuel0, RunRes::Finished(stf)));
        }
        let v = self.take_result();
        Ok(v)
    }
}

} // verus!
