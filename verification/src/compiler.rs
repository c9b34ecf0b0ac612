//! The lowering compiler: walks an externally supplied syntax tree once and
//! emits instructions into a bytecode program, using forward-reference
//! patching for control flow. Every node kind with a defined lowering
//! leaves exactly one net new value on the operand stack when executed;
//! node kinds without one fail compilation with a named error.

use vstd::prelude::*;
use crate::ast::{AstNode, LiteralValue, ComparisonOp, NullaryOp, UnaryOp, BinaryOp, TernaryOp,
    PrefixOp, HttpMethod};
use crate::bytecode::{Opcode, BytecodeProgram, spec_opcode_byte, spec_u32_be, spec_u64_be,
    spec_add_constant};
use crate::error::AetherError;
use crate::numeric::{num_of_u32, u32_to_bits};

verus! {

/// The name that denotes the implicit pipeline value. A reference to it
/// lowers to nothing: the value is already on the operand stack.
pub const PIPE_VARIABLE: &'static str = "_pipe";

/// The compiler's abstract state: the constant pool, the instruction
/// stream, and the table of declared function entry offsets.
#[verifier::ext_equal]
pub struct CompSt {
    pub consts: Seq<Seq<char>>,
    pub code: Seq<u8>,
    pub funcs: Seq<(Seq<char>, int)>,
}

/// Append bytes to the instruction stream.
pub open spec fn st_emit(st: CompSt, bytes: Seq<u8>) -> CompSt {
    CompSt { code: st.code + bytes, ..st }
}

/// Overwrite four bytes at `pos` with the big-endian encoding of `v`.
pub open spec fn st_patch(st: CompSt, pos: int, v: u32) -> CompSt {
    CompSt {
        code: st.code.subrange(0, pos) + spec_u32_be(v) + st.code.subrange(
            pos + 4,
            st.code.len() as int,
        ),
        ..st
    }
}

/// Insert a string into the pool, failing when the pool is full.
pub open spec fn spec_add_const_checked(st: CompSt, s: Seq<char>) -> Result<(CompSt, u32), ()> {
    if st.consts.len() < 0xFFFF_FFFF {
        let r = spec_add_constant(st.consts, s);
        Ok((CompSt { consts: r.0, ..st }, r.1 as u32))
    } else {
        Err(())
    }
}

/// A code offset as a `u32` operand, failing when it does not fit.
pub open spec fn spec_pos_u32(pos: int) -> Result<u32, ()> {
    if pos <= 0xFFFF_FFFF {
        Ok(pos as u32)
    } else {
        Err(())
    }
}

/// The opcode of a childless domain operation.
pub open spec fn spec_nullary_opcode(op: NullaryOp) -> Opcode {
    match op {
        NullaryOp::Input => Opcode::Input,
        NullaryOp::DateTime => Opcode::DateTime,
        NullaryOp::Random => Opcode::Random,
        NullaryOp::Debug => Opcode::Debug,
        NullaryOp::EndOfFile => Opcode::EndOfFile,
        NullaryOp::Infinity => Opcode::Infinity,
    }
}

/// The opcode of a one-child domain operation.
pub open spec fn spec_unary_opcode(op: UnaryOp) -> Opcode {
    match op {
        UnaryOp::Output => Opcode::Output,
        UnaryOp::JsonParse => Opcode::JsonParse,
        UnaryOp::Persist => Opcode::Persist,
        UnaryOp::Halt => Opcode::Halt,
        UnaryOp::Root => Opcode::Root,
        UnaryOp::Not => Opcode::Not,
        UnaryOp::Hash => Opcode::Hash,
        UnaryOp::Await => Opcode::Await,
        UnaryOp::Log => Opcode::Log,
        UnaryOp::Assert => Opcode::Assert,
        UnaryOp::Emit => Opcode::Emit,
        UnaryOp::Auth => Opcode::Auth,
        UnaryOp::FileHandle => Opcode::FileHandle,
        UnaryOp::ReadContent => Opcode::FileRead,
        UnaryOp::Directory => Opcode::Directory,
        UnaryOp::PathResolve => Opcode::PathResolve,
        UnaryOp::DeleteFile => Opcode::DeleteFile,
        UnaryOp::EnvVar => Opcode::EnvVar,
        UnaryOp::ProcessCreate => Opcode::ProcessCreate,
        UnaryOp::ShellExec => Opcode::ShellExec,
        UnaryOp::MemoryAlloc => Opcode::MemoryAlloc,
        UnaryOp::ExitProgram => Opcode::ExitProgram,
        UnaryOp::CreateSocket => Opcode::CreateSocket,
        UnaryOp::ListenPort => Opcode::ListenPort,
        UnaryOp::ConnectRemote => Opcode::ConnectRemote,
        UnaryOp::PortNumber => Opcode::PortNumber,
        UnaryOp::CreatePacket => Opcode::CreatePacket,
        UnaryOp::Handshake => Opcode::Handshake,
        UnaryOp::CreateStream => Opcode::CreateStream,
        UnaryOp::CreateBuffer => Opcode::CreateBuffer,
        UnaryOp::FlushBuffer => Opcode::FlushBuffer,
    }
}

/// The opcode of a two-child domain operation.
pub open spec fn spec_binary_opcode(op: BinaryOp) -> Opcode {
    match op {
        BinaryOp::Add => Opcode::Add,
        BinaryOp::Subtract => Opcode::Sub,
        BinaryOp::Multiply => Opcode::Mul,
        BinaryOp::Divide => Opcode::Div,
        BinaryOp::Power => Opcode::Power,
        BinaryOp::Equal => Opcode::Equal,
        BinaryOp::NotEqual => Opcode::NotEqual,
        BinaryOp::And => Opcode::And,
        BinaryOp::Or => Opcode::Or,
        BinaryOp::Approx => Opcode::Approx,
        BinaryOp::StringConcat => Opcode::Join,
        BinaryOp::WriteContent => Opcode::FileWrite,
        BinaryOp::AppendContent => Opcode::FileAppend,
        BinaryOp::SetPermission => Opcode::SetPermission,
        BinaryOp::SendSignal => Opcode::SendSignal,
        BinaryOp::Sign => Opcode::Sign,
        BinaryOp::SkipBytes => Opcode::SkipBytes,
        BinaryOp::Watch => Opcode::Watch,
        BinaryOp::RegexMatch => Opcode::RegexMatch,
        BinaryOp::Encrypt => Opcode::Encrypt,
        BinaryOp::Decrypt => Opcode::Decrypt,
    }
}

/// The opcode of a three-child domain operation.
pub open spec fn spec_ternary_opcode(op: TernaryOp) -> Opcode {
    match op {
        TernaryOp::VerifySignature => Opcode::VerifySignature,
    }
}

/// The opcode emitted before a prefixed operation's body.
pub open spec fn spec_prefix_opcode(op: PrefixOp) -> Opcode {
    match op {
        PrefixOp::Async => Opcode::Async,
        PrefixOp::Thread => Opcode::Thread,
        PrefixOp::Lock => Opcode::Lock,
        PrefixOp::Benchmark => Opcode::BenchmarkStart,
    }
}

/// The opcode emitted after a prefixed operation's body, if any.
pub open spec fn spec_prefix_end_opcode(op: PrefixOp) -> Option<Opcode> {
    match op {
        PrefixOp::Benchmark => Some(Opcode::BenchmarkEnd),
        _ => None,
    }
}

/// The opcode of an HTTP request method.
pub open spec fn spec_http_opcode(m: HttpMethod) -> Opcode {
    match m {
        HttpMethod::Get => Opcode::HttpGet,
        HttpMethod::Post => Opcode::HttpPost,
        HttpMethod::Put => Opcode::HttpPut,
        HttpMethod::Delete => Opcode::HttpDelete,
        HttpMethod::Patch => Opcode::HttpPatch,
        HttpMethod::Head => Opcode::HttpHead,
        HttpMethod::Options => Opcode::HttpOptions,
    }
}

/// Whether requests of this method carry a body expression.
pub open spec fn spec_http_has_body(m: HttpMethod) -> bool {
    match m {
        HttpMethod::Post | HttpMethod::Put | HttpMethod::Patch => true,
        _ => false,
    }
}

/// One opcode byte as a byte sequence.
pub open spec fn op_bytes(op: Opcode) -> Seq<u8> {
    seq![spec_opcode_byte(op)]
}

/// What lowering a literal emits.
pub open spec fn spec_compile_literal(lit: LiteralValue, st: CompSt) -> Result<CompSt, ()> {
    match lit {
        LiteralValue::String(s) => match spec_add_const_checked(st, s@) {
            Ok((st1, idx)) => Ok(
                st_emit(st1, op_bytes(Opcode::PushString) + spec_u32_be(idx)),
            ),
            Err(()) => Err(()),
        },
        LiteralValue::Number(bits) => Ok(
            st_emit(st, op_bytes(Opcode::PushNumber) + spec_u64_be(bits)),
        ),
    }
}

/// Patch every site in the list to the target value, in order.
pub open spec fn spec_patch_all(st: CompSt, sites: Seq<int>, v: u32) -> CompSt
    decreases sites.len(),
{
    if sites.len() == 0 {
        st
    } else {
        spec_patch_all(st_patch(st, sites[0], v), sites.drop_first(), v)
    }
}

/// What lowering one syntax node does to the compiler state: the exact
/// constants, code bytes and function entries that come out, or a
/// compile error for a node with no defined lowering or an operand that
/// does not fit the format.
pub open spec fn spec_compile_node(node: AstNode, st: CompSt) -> Result<CompSt, ()>
    decreases node,
{
    match node {
        AstNode::Literal(lit) => spec_compile_literal(lit, st),
        AstNode::Variable(name) => {
            if name@ == PIPE_VARIABLE@ {
                Ok(st)
            } else {
                match spec_add_const_checked(st, name@) {
                    Ok((st1, idx)) => Ok(
                        st_emit(st1, op_bytes(Opcode::LoadVar) + spec_u32_be(idx)),
                    ),
                    Err(()) => Err(()),
                }
            }
        },
        AstNode::Sequence(nodes) => spec_compile_nodes(nodes@, st),
        AstNode::Pipe { source, operation } => match spec_compile_node(*source, st) {
            Ok(st1) => spec_compile_node(*operation, st1),
            Err(()) => Err(()),
        },
        AstNode::PipeInto { value, variable } => match spec_compile_node(*value, st) {
            Ok(st1) => {
                let st2 = st_emit(st1, op_bytes(Opcode::Dup));
                match spec_add_const_checked(st2, variable@) {
                    Ok((st3, idx)) => Ok(
                        st_emit(st3, op_bytes(Opcode::StoreVar) + spec_u32_be(idx)),
                    ),
                    Err(()) => Err(()),
                }
            },
            Err(()) => Err(()),
        },
        AstNode::Guard { condition, then_branch } => match spec_compile_node(*condition, st) {
            Ok(st1) => {
                let st2 = st_emit(st1, op_bytes(Opcode::JumpIfNull));
                let jp = st2.code.len() as int;
                let st3 = st_emit(st2, spec_u32_be(0));
                match spec_compile_node(*then_branch, st3) {
                    Ok(st4) => match spec_pos_u32(st4.code.len() as int) {
                        Ok(end) => Ok(st_patch(st4, jp, end)),
                        Err(()) => Err(()),
                    },
                    Err(()) => Err(()),
                }
            },
            Err(()) => Err(()),
        },
        AstNode::IfThen { condition, then_branch, else_branch } => match spec_compile_node(
            *condition,
            st,
        ) {
            Ok(st1) => {
                let st2 = st_emit(st1, op_bytes(Opcode::JumpIfFalse));
                let jp_else = st2.code.len() as int;
                let st3 = st_emit(st2, spec_u32_be(0));
                match spec_compile_node(*then_branch, st3) {
                    Ok(st4) => match else_branch {
                        Some(else_node) => {
                            let st5 = st_emit(st4, op_bytes(Opcode::Jump));
                            let jp_end = st5.code.len() as int;
                            let st6 = st_emit(st5, spec_u32_be(0));
                            match spec_pos_u32(st6.code.len() as int) {
                                Ok(else_start) => {
                                    let st7 = st_patch(st6, jp_else, else_start);
                                    match spec_compile_node(*else_node, st7) {
                                        Ok(st8) => match spec_pos_u32(st8.code.len() as int) {
                                            Ok(end) => Ok(st_patch(st8, jp_end, end)),
                                            Err(()) => Err(()),
                                        },
                                        Err(()) => Err(()),
                                    }
                                },
                                Err(()) => Err(()),
                            }
                        },
                        None => match spec_pos_u32(st4.code.len() as int) {
                            Ok(end) => Ok(st_patch(st4, jp_else, end)),
                            Err(()) => Err(()),
                        },
                    },
                    Err(()) => Err(()),
                }
            },
            Err(()) => Err(()),
        },
        AstNode::Loop { condition, body } => {
            let start_pos = st.code.len() as int;
            let st1 = st_emit(st, op_bytes(Opcode::LoopStart));
            let placeholder = st1.code.len() as int;
            let st2 = st_emit(st1, spec_u32_be(0));
            let after_cond: Result<(CompSt, Seq<int>), ()> = match condition {
                Some(cond) => match spec_compile_node(*cond, st2) {
                    Ok(st3) => {
                        let st4 = st_emit(st3, op_bytes(Opcode::JumpIfFalse));
                        let cjp = st4.code.len() as int;
                        Ok((st_emit(st4, spec_u32_be(0)), seq![placeholder, cjp]))
                    },
                    Err(()) => Err(()),
                },
                None => Ok((st2, seq![placeholder])),
            };
            match after_cond {
                Ok((st5, sites)) => match spec_compile_node(*body, st5) {
                    Ok(st6) => match spec_pos_u32(start_pos) {
                        Ok(sp) => {
                            let st7 = st_emit(
                                st6,
                                op_bytes(Opcode::LoopEnd) + spec_u32_be(sp),
                            );
                            match spec_pos_u32(st7.code.len() as int) {
                                Ok(end) => Ok(spec_patch_all(st7, sites, end)),
                                Err(()) => Err(()),
                            }
                        },
                        Err(()) => Err(()),
                    },
                    Err(()) => Err(()),
                },
                Err(()) => Err(()),
            }
        },
        AstNode::ForEach { variable, collection, body } => match spec_compile_node(
            *collection,
            st,
        ) {
            Ok(st1) => match spec_add_const_checked(st1, variable@) {
                Ok((st2, var_idx)) => {
                    let st3 = st_emit(st2, op_bytes(Opcode::ForEach) + spec_u32_be(var_idx));
                    let start_pos = st3.code.len() as int;
                    match spec_compile_node(*body, st3) {
                        Ok(st4) => match spec_pos_u32(start_pos) {
                            Ok(sp) => Ok(
                                st_emit(st4, op_bytes(Opcode::LoopEnd) + spec_u32_be(sp)),
                            ),
                            Err(()) => Err(()),
                        },
                        Err(()) => Err(()),
                    }
                },
                Err(()) => Err(()),
            },
            Err(()) => Err(()),
        },
        AstNode::Function { name, body } => match spec_add_const_checked(st, name@) {
            Ok((st1, func_idx)) => {
                let declared = CompSt {
                    funcs: st1.funcs.push((name@, st1.code.len() as int)),
                    ..st1
                };
                let st2 = st_emit(declared, op_bytes(Opcode::Jump));
                let jp = st2.code.len() as int;
                let st3 = st_emit(st2, spec_u32_be(0));
                let func_start = st3.code.len() as int;
                match spec_compile_node(*body, st3) {
                    Ok(st4) => {
                        let st5 = st_emit(st4, op_bytes(Opcode::Return));
                        match spec_pos_u32(st5.code.len() as int) {
                            Ok(end) => {
                                let st6 = st_patch(st5, jp, end);
                                match spec_pos_u32(func_start) {
                                    Ok(fs) => Ok(
                                        st_emit(
                                            st6,
                                            op_bytes(Opcode::PushNumber) + spec_u64_be(
                                                num_of_u32(fs),
                                            ) + op_bytes(Opcode::StoreVar) + spec_u32_be(
                                                func_idx,
                                            ),
                                        ),
                                    ),
                                    Err(()) => Err(()),
                                }
                            },
                            Err(()) => Err(()),
                        }
                    },
                    Err(()) => Err(()),
                }
            },
            Err(()) => Err(()),
        },
        AstNode::TryRescue { try_body, rescue_body } => {
            let st1 = st_emit(st, op_bytes(Opcode::TryStart));
            let rp = st1.code.len() as int;
            let st2 = st_emit(st1, spec_u32_be(0));
            match spec_compile_node(*try_body, st2) {
                Ok(st3) => {
                    let st4 = st_emit(st3, op_bytes(Opcode::TryEnd));
                    match rescue_body {
                        Some(rescue) => match spec_pos_u32(st4.code.len() as int) {
                            Ok(rs) => spec_compile_node(*rescue, st_patch(st4, rp, rs)),
                            Err(()) => Err(()),
                        },
                        None => Ok(st4),
                    }
                },
                Err(()) => Err(()),
            }
        },
        AstNode::Retry { max_attempts, body } => {
            let attempts: u8 = match max_attempts {
                Some(a) => a,
                None => 3,
            };
            let st1 = st_emit(st, op_bytes(Opcode::Retry) + seq![attempts]);
            spec_compile_node(*body, st1)
        },
        AstNode::Empty => Ok(st_emit(st, op_bytes(Opcode::PushNull))),
        AstNode::Immutable { name, value } => match spec_compile_node(*value, st) {
            Ok(st1) => match spec_add_const_checked(st1, name@) {
                Ok((st2, idx)) => Ok(
                    st_emit(st2, op_bytes(Opcode::StoreImmutable) + spec_u32_be(idx)),
                ),
                Err(()) => Err(()),
            },
            Err(()) => Err(()),
        },
        AstNode::Delta { name, value } => match spec_compile_node(*value, st) {
            Ok(st1) => match spec_add_const_checked(st1, name@) {
                Ok((st2, idx)) => Ok(
                    st_emit(
                        st2,
                        op_bytes(Opcode::StoreVar) + spec_u32_be(idx) + op_bytes(Opcode::Delta),
                    ),
                ),
                Err(()) => Err(()),
            },
            Err(()) => Err(()),
        },
        AstNode::Import { module } => match spec_add_const_checked(st, module@) {
            Ok((st1, idx)) => Ok(st_emit(st1, op_bytes(Opcode::Import) + spec_u32_be(idx))),
            Err(()) => Err(()),
        },
        AstNode::Test { name, body } => match spec_add_const_checked(st, name@) {
            Ok((st1, idx)) => {
                let st2 = st_emit(st1, op_bytes(Opcode::TestStart) + spec_u32_be(idx));
                spec_compile_node(*body, st2)
            },
            Err(()) => Err(()),
        },
        AstNode::PropertyAccess { object, property } => match spec_compile_node(*object, st) {
            Ok(st1) => match spec_add_const_checked(st1, property@) {
                Ok((st2, idx)) => Ok(
                    st_emit(
                        st2,
                        op_bytes(Opcode::PushString) + spec_u32_be(idx) + op_bytes(
                            Opcode::PropertyAccess,
                        ),
                    ),
                ),
                Err(()) => Err(()),
            },
            Err(()) => Err(()),
        },
        AstNode::Comparison { left, operator, right } => match spec_compile_node(*left, st) {
            Ok(st1) => match spec_compile_node(*right, st1) {
                Ok(st2) => match operator {
                    ComparisonOp::GreaterThan => Ok(
                        st_emit(st2, op_bytes(Opcode::GreaterThan)),
                    ),
                    ComparisonOp::LessThan => Ok(st_emit(st2, op_bytes(Opcode::LessThan))),
                    ComparisonOp::GreaterEqual => Err(()),
                    ComparisonOp::LessEqual => Err(()),
                },
                Err(()) => Err(()),
            },
            Err(()) => Err(()),
        },
        AstNode::Split { target, delimiter } => {
            let after_target: Result<CompSt, ()> = if !(*target matches AstNode::Empty) {
                spec_compile_node(*target, st)
            } else {
                Ok(st)
            };
            match after_target {
                Ok(st1) => {
                    let after_delim: Result<CompSt, ()> = match delimiter {
                        Some(d) => spec_compile_node(*d, st1),
                        None => match spec_add_const_checked(st1, " "@) {
                            Ok((stx, idx)) => Ok(
                                st_emit(stx, op_bytes(Opcode::PushString) + spec_u32_be(idx)),
                            ),
                            Err(()) => Err(()),
                        },
                    };
                    match after_delim {
                        Ok(st2) => Ok(st_emit(st2, op_bytes(Opcode::Split))),
                        Err(()) => Err(()),
                    }
                },
                Err(()) => Err(()),
            }
        },
        AstNode::Join { elements, separator } => {
            let after_elems: Result<CompSt, ()> = if !(*elements matches AstNode::Empty) {
                spec_compile_node(*elements, st)
            } else {
                Ok(st)
            };
            match after_elems {
                Ok(st1) => {
                    let after_sep: Result<CompSt, ()> = match separator {
                        Some(sp) => spec_compile_node(*sp, st1),
                        None => match spec_add_const_checked(st1, ""@) {
                            Ok((stx, idx)) => Ok(
                                st_emit(stx, op_bytes(Opcode::PushString) + spec_u32_be(idx)),
                            ),
                            Err(()) => Err(()),
                        },
                    };
                    match after_sep {
                        Ok(st2) => Ok(st_emit(st2, op_bytes(Opcode::Join))),
                        Err(()) => Err(()),
                    }
                },
                Err(()) => Err(()),
            }
        },
        AstNode::Reduce { operation, initial } => match spec_compile_node(*initial, st) {
            Ok(st1) => match spec_compile_node(*operation, st1) {
                Ok(st2) => Ok(st_emit(st2, op_bytes(Opcode::Reduce))),
                Err(()) => Err(()),
            },
            Err(()) => Err(()),
        },
        AstNode::Filter { predicate } => match spec_compile_node(*predicate, st) {
            Ok(st1) => Ok(st_emit(st1, op_bytes(Opcode::Filter))),
            Err(()) => Err(()),
        },
        AstNode::Mock { target } => match spec_compile_node(*target, st) {
            Ok(st1) => Ok(st_emit(st1, op_bytes(Opcode::Mock) + spec_u32_be(0))),
            Err(()) => Err(()),
        },
        AstNode::ArrayLiteral { elements } => match spec_compile_nodes(elements@, st) {
            Ok(st1) => match spec_pos_u32(elements@.len() as int) {
                Ok(n) => Ok(st_emit(st1, op_bytes(Opcode::MakeArray) + spec_u32_be(n))),
                Err(()) => Err(()),
            },
            Err(()) => Err(()),
        },
        AstNode::ObjectLiteral { pairs } => match spec_compile_pairs(pairs@, st) {
            Ok(st1) => match spec_pos_u32(pairs@.len() as int) {
                Ok(n) => Ok(st_emit(st1, op_bytes(Opcode::MakeObject) + spec_u32_be(n))),
                Err(()) => Err(()),
            },
            Err(()) => Err(()),
        },
        AstNode::Http { method, url, body, headers } => match spec_compile_node(*url, st) {
            Ok(st1) => {
                let after_body: Result<CompSt, ()> = if spec_http_has_body(method) {
                    match body {
                        Some(b) => spec_compile_node(*b, st1),
                        None => Ok(st_emit(st1, op_bytes(Opcode::PushNull))),
                    }
                } else {
                    Ok(st1)
                };
                match after_body {
                    Ok(st2) => {
                        let after_headers: Result<CompSt, ()> = match headers {
                            Some(h) => spec_compile_node(*h, st2),
                            None => Ok(st_emit(st2, op_bytes(Opcode::PushNull))),
                        };
                        match after_headers {
                            Ok(st3) => Ok(st_emit(st3, op_bytes(spec_http_opcode(method)))),
                            Err(()) => Err(()),
                        }
                    },
                    Err(()) => Err(()),
                }
            },
            Err(()) => Err(()),
        },
        AstNode::Nullary(op) => Ok(st_emit(st, op_bytes(spec_nullary_opcode(op)))),
        AstNode::Unary { op, operand } => match spec_compile_node(*operand, st) {
            Ok(st1) => Ok(st_emit(st1, op_bytes(spec_unary_opcode(op)))),
            Err(()) => Err(()),
        },
        AstNode::Binary { op, left, right } => match spec_compile_node(*left, st) {
            Ok(st1) => match spec_compile_node(*right, st1) {
                Ok(st2) => Ok(st_emit(st2, op_bytes(spec_binary_opcode(op)))),
                Err(()) => Err(()),
            },
            Err(()) => Err(()),
        },
        AstNode::Ternary { op, first, second, third } => match spec_compile_node(*first, st) {
            Ok(st1) => match spec_compile_node(*second, st1) {
                Ok(st2) => match spec_compile_node(*third, st2) {
                    Ok(st3) => Ok(st_emit(st3, op_bytes(spec_ternary_opcode(op)))),
                    Err(()) => Err(()),
                },
                Err(()) => Err(()),
            },
            Err(()) => Err(()),
        },
        AstNode::Prefix { op, body } => {
            let st1 = st_emit(st, op_bytes(spec_prefix_opcode(op)));
            match spec_compile_node(*body, st1) {
                Ok(st2) => match spec_prefix_end_opcode(op) {
                    Some(end) => Ok(st_emit(st2, op_bytes(end))),
                    None => Ok(st2),
                },
                Err(()) => Err(()),
            }
        },
        AstNode::Modulo { .. } => Err(()),
        AstNode::Length { .. } => Err(()),
        AstNode::Index { .. } => Err(()),
    }
}

/// Lower a sequence of nodes in order.
pub open spec fn spec_compile_nodes(nodes: Seq<AstNode>, st: CompSt) -> Result<CompSt, ()>
    decreases nodes,
{
    if nodes.len() == 0 {
        Ok(st)
    } else {
        match spec_compile_node(nodes[0], st) {
            Ok(st1) => spec_compile_nodes(nodes.drop_first(), st1),
            Err(()) => Err(()),
        }
    }
}

/// Lower the key-value pairs of an object literal in order.
pub open spec fn spec_compile_pairs(pairs: Seq<(String, AstNode)>, st: CompSt) -> Result<
    CompSt,
    (),
>
    decreases pairs,
{
    if pairs.len() == 0 {
        Ok(st)
    } else {
        match spec_add_const_checked(st, pairs[0].0@) {
            Ok((st1, idx)) => {
                let st2 = st_emit(st1, op_bytes(Opcode::PushString) + spec_u32_be(idx));
                match spec_compile_node(pairs[0].1, st2) {
                    Ok(st3) => spec_compile_pairs(pairs.drop_first(), st3),
                    Err(()) => Err(()),
                }
            },
            Err(()) => Err(()),
        }
    }
}

/// What compiling a whole program yields: the nodes in order, then the end
/// instruction.
pub open spec fn spec_compile(nodes: Seq<AstNode>, st: CompSt) -> Result<CompSt, ()> {
    match spec_compile_nodes(nodes, st) {
        Ok(st1) => Ok(st_emit(st1, op_bytes(Opcode::End))),
        Err(()) => Err(()),
    }
}


/// One in-progress loop: its start offset and the not-yet-resolved exit
/// patch sites registered while lowering it.
pub struct LoopContext {
    /// The loop's start offset.
    pub start_pos: usize,
    /// The pending exit patch sites.
    pub end_patches: Vec<usize>,
}

/// The lowering compiler's context: the program under construction, the
/// declared function entries, and the stack of in-progress loop contexts.
pub struct Compiler {
    /// The program under construction.
    pub program: BytecodeProgram,
    /// Declared functions and their entry offsets.
    pub functions: Vec<(String, usize)>,
    /// The in-progress loop contexts, innermost last.
    pub loop_stack: Vec<LoopContext>,
}

impl Compiler {
    /// The compiler's abstract state.
    pub open spec fn st(&self) -> CompSt {
        CompSt {
            consts: self.program.constants.deep_view(),
            code: self.program.code@,
            funcs: Seq::new(
                self.functions@.len(),
                |i: int| (self.functions@[i].0@, self.functions@[i].1 as int),
            ),
        }
    }

    /// Create a new compiler over an empty program.
    pub fn new() -> (r: Self)
        ensures
            r.st() == (CompSt {
                consts: Seq::<Seq<char>>::empty(),
                code: Seq::<u8>::empty(),
                funcs: Seq::<(Seq<char>, int)>::empty(),
            }),
            r.loop_stack@.len() == 0,
    {
        let r = Compiler {
            program: BytecodeProgram::new(),
            functions: Vec::new(),
            loop_stack: Vec::new(),
        };
        proof {
            assert(r.st() =~= CompSt {
                consts: Seq::<Seq<char>>::empty(),
                code: Seq::<u8>::empty(),
                funcs: Seq::<(Seq<char>, int)>::empty(),
            });
        }
        r
    }

    fn add_const_checked(&mut self, value: String) -> (r: Result<u32, AetherError>)
        ensures
            match r {
                Ok(idx) => {
                    &&& spec_add_const_checked(old(self).st(), value@) == Ok::<_, ()>(
                        (final(self).st(), idx),
                    )
                    &&& final(self).program.code == old(self).program.code
                    &&& final(self).functions == old(self).functions
                    &&& final(self).loop_stack@ == old(self).loop_stack@
                },
                Err(e) => {
                    &&& spec_add_const_checked(old(self).st(), value@) == Err::<
                        (CompSt, u32),
                        _,
                    >(())
                    &&& e matches AetherError::CompilerError(_)
                },
            },
    {
        proof {
            assert(self.program.constants.deep_view().len() == self.program.constants@.len());
        }
        if self.program.constants.len() < 0xFFFF_FFFF {
            let idx = self.program.add_constant(value);
            proof {
                assert(final(self).st() =~= CompSt {
                    consts: spec_add_constant(old(self).st().consts, value@).0,
                    ..old(self).st()
                });
            }
            Ok(idx)
        } else {
            Err(AetherError::CompilerError(String::from_str("constant pool overflow")))
        }
    }
}

fn pos_u32(pos: usize) -> (r: Result<u32, AetherError>)
    ensures
        match r {
            Ok(v) => spec_pos_u32(pos as int) == Ok::<_, ()>(v),
            Err(e) => spec_pos_u32(pos as int) == Err::<u32, _>(()) && (e matches
            AetherError::CompilerError(_)),
        },
{
    if pos <= 0xFFFF_FFFF {
        Ok(pos as u32)
    } else {
        Err(AetherError::CompilerError(String::from_str("bytecode offset does not fit the format")))
    }
}

/// The opcode of a childless domain operation.
fn nullary_opcode(op: NullaryOp) -> (r: Opcode)
    ensures
        r == spec_nullary_opcode(op),
{
    match op {
        NullaryOp::Input => Opcode::Input,
        NullaryOp::DateTime => Opcode::DateTime,
        NullaryOp::Random => Opcode::Random,
        NullaryOp::Debug => Opcode::Debug,
        NullaryOp::EndOfFile => Opcode::EndOfFile,
        NullaryOp::Infinity => Opcode::Infinity,
    }
}

/// The opcode of a one-child domain operation.
fn unary_opcode(op: UnaryOp) -> (r: Opcode)
    ensures
        r == spec_unary_opcode(op),
{
    match op {
        UnaryOp::Output => Opcode::Output,
        UnaryOp::JsonParse => Opcode::JsonParse,
        UnaryOp::Persist => Opcode::Persist,
        UnaryOp::Halt => Opcode::Halt,
        UnaryOp::Root => Opcode::Root,
        UnaryOp::Not => Opcode::Not,
        UnaryOp::Hash => Opcode::Hash,
        UnaryOp::Await => Opcode::Await,
        UnaryOp::Log => Opcode::Log,
        UnaryOp::Assert => Opcode::Assert,
        UnaryOp::Emit => Opcode::Emit,
        UnaryOp::Auth => Opcode::Auth,
        UnaryOp::FileHandle => Opcode::FileHandle,
        UnaryOp::ReadContent => Opcode::FileRead,
        UnaryOp::Directory => Opcode::Directory,
        UnaryOp::PathResolve => Opcode::PathResolve,
        UnaryOp::DeleteFile => Opcode::DeleteFile,
        UnaryOp::EnvVar => Opcode::EnvVar,
        UnaryOp::ProcessCreate => Opcode::ProcessCreate,
        UnaryOp::ShellExec => Opcode::ShellExec,
        UnaryOp::MemoryAlloc => Opcode::MemoryAlloc,
        UnaryOp::ExitProgram => Opcode::ExitProgram,
        UnaryOp::CreateSocket => Opcode::CreateSocket,
        UnaryOp::ListenPort => Opcode::ListenPort,
        UnaryOp::ConnectRemote => Opcode::ConnectRemote,
        UnaryOp::PortNumber => Opcode::PortNumber,
        UnaryOp::CreatePacket => Opcode::CreatePacket,
        UnaryOp::Handshake => Opcode::Handshake,
        UnaryOp::CreateStream => Opcode::CreateStream,
        UnaryOp::CreateBuffer => Opcode::CreateBuffer,
        UnaryOp::FlushBuffer => Opcode::FlushBuffer,
    }
}

/// The opcode of a two-child domain operation.
fn binary_opcode(op: BinaryOp) -> (r: Opcode)
    ensures
        r == spec_binary_opcode(op),
{
    match op {
        BinaryOp::Add => Opcode::Add,
        BinaryOp::Subtract => Opcode::Sub,
        BinaryOp::Multiply => Opcode::Mul,
        BinaryOp::Divide => Opcode::Div,
        BinaryOp::Power => Opcode::Power,
        BinaryOp::Equal => Opcode::Equal,
        BinaryOp::NotEqual => Opcode::NotEqual,
        BinaryOp::And => Opcode::And,
        BinaryOp::Or => Opcode::Or,
        BinaryOp::Approx => Opcode::Approx,
        BinaryOp::StringConcat => Opcode::Join,
        BinaryOp::WriteContent => Opcode::FileWrite,
        BinaryOp::AppendContent => Opcode::FileAppend,
        BinaryOp::SetPermission => Opcode::SetPermission,
        BinaryOp::SendSignal => Opcode::SendSignal,
        BinaryOp::Sign => Opcode::Sign,
        BinaryOp::SkipBytes => Opcode::SkipBytes,
        BinaryOp::Watch => Opcode::Watch,
        BinaryOp::RegexMatch => Opcode::RegexMatch,
        BinaryOp::Encrypt => Opcode::Encrypt,
        BinaryOp::Decrypt => Opcode::Decrypt,
    }
}

/// The opcode emitted before a prefixed operation's body.
fn prefix_opcode(op: PrefixOp) -> (r: Opcode)
    ensures
        r == spec_prefix_opcode(op),
{
    match op {
        PrefixOp::Async => Opcode::Async,
        PrefixOp::Thread => Opcode::Thread,
        PrefixOp::Lock => Opcode::Lock,
        PrefixOp::Benchmark => Opcode::BenchmarkStart,
    }
}

/// The opcode of an HTTP request method.
fn http_opcode(m: HttpMethod) -> (r: Opcode)
    ensures
        r == spec_http_opcode(m),
{
    match m {
        HttpMethod::Get => Opcode::HttpGet,
        HttpMethod::Post => Opcode::HttpPost,
        HttpMethod::Put => Opcode::HttpPut,
        HttpMethod::Delete => Opcode::HttpDelete,
        HttpMethod::Patch => Opcode::HttpPatch,
        HttpMethod::Head => Opcode::HttpHead,
        HttpMethod::Options => Opcode::HttpOptions,
    }
}

/// Whether requests of this method carry a body expression.
fn http_has_body(m: HttpMethod) -> (r: bool)
    ensures
        r == spec_http_has_body(m),
{
    match m {
        HttpMethod::Post | HttpMethod::Put | HttpMethod::Patch => true,
        _ => false,
    }
}


impl Compiler {
    /// Lower a literal value.
    pub fn compile_literal(&mut self, lit: &LiteralValue) -> (r: Result<(), AetherError>)
        ensures
            match r {
                Ok(_) => {
                    &&& spec_compile_literal(*lit, old(self).st()) == Ok::<_, ()>(final(self).st())
                    &&& final(self).loop_stack@ == old(self).loop_stack@
                    &&& final(self).program.code@.len() >= old(self).program.code@.len()
                },
                Err(e) => {
                    &&& spec_compile_literal(*lit, old(self).st()) == Err::<CompSt, ()>(())
                    &&& e matches AetherError::CompilerError(_)
                },
            },
    {
        match lit {
            LiteralValue::String(sv) => {
                let idx = self.add_const_checked(sv.clone())?;
                let ghost st1 = self.st();
                self.program.emit_opcode(Opcode::PushString);
                self.program.emit_u32(idx);
                proof {
                    assert(self.st() =~= st_emit(
                        st1,
                        op_bytes(Opcode::PushString) + spec_u32_be(idx),
                    ));
                }
                Ok(())
            },
            LiteralValue::Number(bits) => {
                let ghost st0 = self.st();
                self.program.emit_opcode(Opcode::PushNumber);
                self.program.emit_num_bits(*bits);
                proof {
                    assert(self.st() =~= st_emit(
                        st0,
                        op_bytes(Opcode::PushNumber) + spec_u64_be(*bits),
                    ));
                }
                Ok(())
            },
        }
    }

    /// Lower one syntax node. On success the program has grown by exactly
    /// the instructions the abstract lowering describes and every loop
    /// context opened here has been resolved; a node with no defined
    /// lowering, or an operand that does not fit the format, yields a named
    /// compile error.
    pub fn compile_node(&mut self, node: &AstNode) -> (r: Result<(), AetherError>)
        ensures
            match r {
                Ok(_) => {
                    &&& spec_compile_node(*node, old(self).st()) == Ok::<_, ()>(final(self).st())
                    &&& final(self).loop_stack@ == old(self).loop_stack@
                    &&& final(self).program.code@.len() >= old(self).program.code@.len()
                },
                Err(e) => {
                    &&& spec_compile_node(*node, old(self).st()) == Err::<CompSt, ()>(())
                    &&& e matches AetherError::CompilerError(_)
                },
            },
        decreases node, 1int,
    {
        let ghost st0 = self.st();
        match node {
            AstNode::Literal(lit) => self.compile_literal(lit),
            AstNode::Variable(..) => self.lower_variable(node),
            AstNode::Sequence(..) => self.lower_sequence(node),
            AstNode::Pipe { .. } => self.lower_pipe(node),
            AstNode::PipeInto { .. } => self.lower_pipe_into(node),
            AstNode::Guard { .. } => self.lower_guard(node),
            AstNode::IfThen { .. } => self.lower_if_then(node),
            AstNode::Loop { .. } => self.lower_loop(node),
            AstNode::ForEach { .. } => self.lower_for_each(node),
            AstNode::Function { .. } => self.lower_function(node),
            AstNode::TryRescue { .. } => self.lower_try_rescue(node),
            AstNode::Retry { .. } => self.lower_retry(node),
            AstNode::Empty => {
                self.program.emit_opcode(Opcode::PushNull);
                proof {
                    assert(self.st() =~= st_emit(st0, op_bytes(Opcode::PushNull)));
                }
                Ok(())
            },
            AstNode::Immutable { .. } => self.lower_immutable(node),
            AstNode::Delta { .. } => self.lower_delta(node),
            AstNode::Import { .. } => self.lower_import(node),
            AstNode::Test { .. } => self.lower_test(node),
            AstNode::PropertyAccess { .. } => self.lower_property_access(node),
            AstNode::Comparison { .. } => self.lower_comparison(node),
            AstNode::Split { .. } => self.lower_split(node),
            AstNode::Join { .. } => self.lower_join(node),
            AstNode::Reduce { .. } => self.lower_reduce(node),
            AstNode::Filter { .. } => self.lower_filter(node),
            AstNode::Mock { .. } => self.lower_mock(node),
            AstNode::ArrayLiteral { .. } => self.lower_array_literal(node),
            AstNode::ObjectLiteral { .. } => self.lower_object_literal(node),
            AstNode::Http { .. } => self.lower_http(node),
            AstNode::Nullary(op) => {
                let opc = nullary_opcode(*op);
                self.program.emit_opcode(opc);
                proof {
                    assert(self.st() =~= st_emit(st0, op_bytes(spec_nullary_opcode(*op))));
                }
                Ok(())
            },
            AstNode::Unary { .. } => self.lower_unary(node),
            AstNode::Binary { .. } => self.lower_binary(node),
            AstNode::Ternary { .. } => self.lower_ternary(node),
            AstNode::Prefix { .. } => self.lower_prefix(node),
            AstNode::Modulo { .. } => Err(
                AetherError::CompilerError(
                    String::from_str("Modulo not yet supported in bytecode compilation"),
                ),
            ),
            AstNode::Length { .. } => Err(
                AetherError::CompilerError(
                    String::from_str("Length not yet supported in bytecode compilation"),
                ),
            ),
            AstNode::Index { .. } => Err(
                AetherError::CompilerError(
                    String::from_str("Index not yet supported in bytecode compilation"),
                ),
            ),
        }
    }

    /// Compile a sequence of syntax nodes into a complete program, ending
    /// with the end instruction. A failed compilation yields the error and
    /// no program.
    pub fn compile(&mut self, nodes: Vec<AstNode>) -> (r: Result<BytecodeProgram, AetherError>)
        ensures
            match r {
                Ok(p) => {
                    &&& spec_compile(nodes@, old(self).st()) == Ok::<_, ()>(
                        final(self).st(),
                    )
                    &&& p.constants.deep_view() == final(self).st().consts
                    &&& p.code@ == final(self).st().code
                },
                Err(e) => {
                    &&& spec_compile(nodes@, old(self).st()) == Err::<
                        CompSt,
                        (),
                    >(())
                    &&& e matches AetherError::CompilerError(_)
                },
            },
    {
        let ghost st0 = self.st();
        let ghost all = nodes@;
        proof {
            assert(all.skip(0) =~= all);
        }
        let mut i: usize = 0;
        while i < nodes.len()
            invariant
                0 <= i <= nodes.len(),
                all == nodes@,
                spec_compile_nodes(all, st0) == spec_compile_nodes(
                    all.skip(i as int),
                    self.st(),
                ),
                st0 == old(self).st(),
            decreases nodes.len() - i,
        {
            proof {
                assert(all.skip(i as int)[0] == all[i as int]);
            }
            let res = self.compile_node(&nodes[i]);
            match res {
                Ok(_) => {},
                Err(e) => {
                    return Err(e);
                },
            }
            proof {
                assert(all.skip(i as int).drop_first() =~= all.skip(i + 1));
            }
            i = i + 1;
        }
        proof {
            assert(all.skip(all.len() as int).len() == 0);
        }
        let ghost st1 = self.st();
        self.program.emit_opcode(Opcode::End);
        proof {
            assert(self.st() =~= st_emit(st1, op_bytes(Opcode::End)));
        }
        let out = self.program_copy();
        Ok(out)
    }

    /// A copy of the program under construction.
    fn program_copy(&self) -> (r: BytecodeProgram)
        ensures
            r.constants.deep_view() == self.program.constants.deep_view(),
            r.code@ == self.program.code@,
    {
        let mut constants: Vec<String> = Vec::new();
        let mut i: usize = 0;
        while i < self.program.constants.len()
            invariant
                0 <= i <= self.program.constants.len(),
                constants@.len() == i,
                forall|j: int| 0 <= j < i ==> (#[trigger] constants@[j])@
                    == self.program.constants@[j]@,
            decreases self.program.constants.len() - i,
        {
            constants.push(self.program.constants[i].clone());
            i = i + 1;
        }
        let code = vstd::slice::slice_to_vec(self.program.code.as_slice());
        let r = BytecodeProgram { constants, code };
        proof {
            assert(r.constants.deep_view() =~= self.program.constants.deep_view());
        }
        r
    }
}

impl Compiler {

    fn lower_variable(&mut self, node: &AstNode) -> (r: Result<(), AetherError>)
        requires
            node matches AstNode::Variable(name),
        ensures
            match r {
                Ok(_) => {
                    &&& spec_compile_node(*node, old(self).st()) == Ok::<_, ()>(final(self).st())
                    &&& final(self).loop_stack@ == old(self).loop_stack@
                    &&& final(self).program.code@.len() >= old(self).program.code@.len()
                },
                Err(e) => {
                    &&& spec_compile_node(*node, old(self).st()) == Err::<CompSt, ()>(())
                    &&& e matches AetherError::CompilerError(_)
                },
            },
        decreases node, 0int,
    {
        let ghost st0 = self.st();
        match node {
            AstNode::Variable(name) => {
                if *name == String::from_str(PIPE_VARIABLE) {
                    // The pipeline value is already on the stack: emit nothing.
                    Ok(())
                } else {
                    let idx = self.add_const_checked(name.clone())?;
                    let ghost st1 = self.st();
                    self.program.emit_opcode(Opcode::LoadVar);
                    self.program.emit_u32(idx);
                    proof {
                        assert(self.st() =~= st_emit(
                            st1,
                            op_bytes(Opcode::LoadVar) + spec_u32_be(idx),
                        ));
                    }
                    Ok(())
                }
            },
            _ => {
                proof {
                    assert(false);
                }
                Err(AetherError::CompilerError(String::from_str("mismatched node shape")))
            },
        }
    }

    fn lower_sequence(&mut self, node: &AstNode) -> (r: Result<(), AetherError>)
        requires
            node matches AstNode::Sequence(nodes),
        ensures
            match r {
                Ok(_) => {
                    &&& spec_compile_node(*node, old(self).st()) == Ok::<_, ()>(final(self).st())
                    &&& final(self).loop_stack@ == old(self).loop_stack@
                    &&& final(self).program.code@.len() >= old(self).program.code@.len()
                },
                Err(e) => {
                    &&& spec_compile_node(*node, old(self).st()) == Err::<CompSt, ()>(())
                    &&& e matches AetherError::CompilerError(_)
                },
            },
        decreases node, 0int,
    {
        let ghost st0 = self.st();
        match node {
            AstNode::Sequence(nodes) => {
                proof {
                    assert(nodes@.skip(0) =~= nodes@);
                }
                let mut i: usize = 0;
                while i < nodes.len()
                    invariant
                        0 <= i <= nodes.len(),
                        *node == AstNode::Sequence(*nodes),
                        spec_compile_nodes(nodes@, st0) == spec_compile_nodes(
                            nodes@.skip(i as int),
                            self.st(),
                        ),
                        self.loop_stack@ == old(self).loop_stack@,
                        self.st().code.len() >= st0.code.len(),
                        st0 == old(self).st(),
                    decreases nodes.len() - i,
                {
                    proof {
                        assert(decreases_to!(node => node->Sequence_0));
                        assert(node->Sequence_0 == *nodes);
                        assert(decreases_to!(*nodes => nodes@));
                        assert(decreases_to!(nodes@ => nodes@[i as int]));
                        assert(nodes@.skip(i as int)[0] == nodes@[i as int]);
                    }
                    let res = self.compile_node(&nodes[i]);
                    match res {
                        Ok(_) => {},
                        Err(e) => {
                            return Err(e);
                        },
                    }
                    proof {
                        assert(nodes@.skip(i as int).drop_first() =~= nodes@.skip(i + 1));
                    }
                    i = i + 1;
                }
                proof {
                    assert(nodes@.skip(nodes@.len() as int).len() == 0);
                }
                Ok(())
            },
            _ => {
                proof {
                    assert(false);
                }
                Err(AetherError::CompilerError(String::from_str("mismatched node shape")))
            },
        }
    }

    fn lower_pipe_into(&mut self, node: &AstNode) -> (r: Result<(), AetherError>)
        requires
            node matches AstNode::PipeInto { value, variable },
        ensures
            match r {
                Ok(_) => {
                    &&& spec_compile_node(*node, old(self).st()) == Ok::<_, ()>(final(self).st())
                    &&& final(self).loop_stack@ == old(self).loop_stack@
                    &&& final(self).program.code@.len() >= old(self).program.code@.len()
                },
                Err(e) => {
                    &&& spec_compile_node(*node, old(self).st()) == Err::<CompSt, ()>(())
                    &&& e matches AetherError::CompilerError(_)
                },
            },
        decreases node, 0int,
    {
        let ghost st0 = self.st();
        match node {
            AstNode::PipeInto { value, variable } => {
                proof {
                    assert(decreases_to!(node => node->PipeInto_value));
                }
                self.compile_node(&**value)?;
                let ghost st1 = self.st();
                self.program.emit_opcode(Opcode::Dup);
                proof {
                    assert(self.st() =~= st_emit(st1, op_bytes(Opcode::Dup)));
                }
                let idx = self.add_const_checked(variable.clone())?;
                let ghost st3 = self.st();
                self.program.emit_opcode(Opcode::StoreVar);
                self.program.emit_u32(idx);
                proof {
                    assert(self.st() =~= st_emit(
                        st3,
                        op_bytes(Opcode::StoreVar) + spec_u32_be(idx),
                    ));
                }
                Ok(())
            },
            _ => {
                proof {
                    assert(false);
                }
                Err(AetherError::CompilerError(String::from_str("mismatched node shape")))
            },
        }
    }

    fn lower_guard(&mut self, node: &AstNode) -> (r: Result<(), AetherError>)
        requires
            node matches AstNode::Guard { condition, then_branch },
        ensures
            match r {
                Ok(_) => {
                    &&& spec_compile_node(*node, old(self).st()) == Ok::<_, ()>(final(self).st())
                    &&& final(self).loop_stack@ == old(self).loop_stack@
                    &&& final(self).program.code@.len() >= old(self).program.code@.len()
                },
                Err(e) => {
                    &&& spec_compile_node(*node, old(self).st()) == Err::<CompSt, ()>(())
                    &&& e matches AetherError::CompilerError(_)
                },
            },
        decreases node, 0int,
    {
        let ghost st0 = self.st();
        match node {
            AstNode::Guard { condition, then_branch } => {
                proof {
                    assert(decreases_to!(node => node->Guard_condition));
                }
                self.compile_node(&**condition)?;
                let ghost st1 = self.st();
                self.program.emit_opcode(Opcode::JumpIfNull);
                let jump_pos = self.program.position();
                self.program.emit_u32(0);
                proof {
                    assert(self.st() =~= st_emit(
                        st_emit(st1, op_bytes(Opcode::JumpIfNull)),
                        spec_u32_be(0),
                    ));
                    assert(decreases_to!(node => node->Guard_then_branch));
                }
                self.compile_node(&**then_branch)?;
                let end_pos = self.program.position();
                let end = pos_u32(end_pos)?;
                let ghost st4 = self.st();
                self.program.patch_u32(jump_pos, end);
                proof {
                    assert(self.st() =~= st_patch(st4, jump_pos as int, end));
                }
                Ok(())
            },
            _ => {
                proof {
                    assert(false);
                }
                Err(AetherError::CompilerError(String::from_str("mismatched node shape")))
            },
        }
    }

    fn lower_if_then(&mut self, node: &AstNode) -> (r: Result<(), AetherError>)
        requires
            node matches AstNode::IfThen { condition, then_branch, else_branch },
        ensures
            match r {
                Ok(_) => {
                    &&& spec_compile_node(*node, old(self).st()) == Ok::<_, ()>(final(self).st())
                    &&& final(self).loop_stack@ == old(self).loop_stack@
                    &&& final(self).program.code@.len() >= old(self).program.code@.len()
                },
                Err(e) => {
                    &&& spec_compile_node(*node, old(self).st()) == Err::<CompSt, ()>(())
                    &&& e matches AetherError::CompilerError(_)
                },
            },
        decreases node, 0int,
    {
        let ghost st0 = self.st();
        match node {
            AstNode::IfThen { condition, then_branch, else_branch } => {
                proof {
                    assert(decreases_to!(node => node->IfThen_condition));
                }
                self.compile_node(&**condition)?;
                let ghost st1 = self.st();
                self.program.emit_opcode(Opcode::JumpIfFalse);
                let jump_else_pos = self.program.position();
                self.program.emit_u32(0);
                proof {
                    assert(self.st() =~= st_emit(
                        st_emit(st1, op_bytes(Opcode::JumpIfFalse)),
                        spec_u32_be(0),
                    ));
                    assert(decreases_to!(node => node->IfThen_then_branch));
                }
                self.compile_node(&**then_branch)?;
                match else_branch {
                    Some(else_node) => {
                        let ghost st4 = self.st();
                        self.program.emit_opcode(Opcode::Jump);
                        let jump_end_pos = self.program.position();
                        self.program.emit_u32(0);
                        proof {
                            assert(self.st() =~= st_emit(
                                st_emit(st4, op_bytes(Opcode::Jump)),
                                spec_u32_be(0),
                            ));
                        }
                        let else_start_pos = self.program.position();
                        let else_start = pos_u32(else_start_pos)?;
                        let ghost st6 = self.st();
                        self.program.patch_u32(jump_else_pos, else_start);
                        proof {
                            assert(self.st() =~= st_patch(st6, jump_else_pos as int, else_start));
                            assert(decreases_to!(node => node->IfThen_else_branch));
                            assert(decreases_to!(node->IfThen_else_branch => *else_node));
                        }
                        self.compile_node(&**else_node)?;
                        let end_pos = self.program.position();
                        let end = pos_u32(end_pos)?;
                        let ghost st8 = self.st();
                        self.program.patch_u32(jump_end_pos, end);
                        proof {
                            assert(self.st() =~= st_patch(st8, jump_end_pos as int, end));
                        }
                        Ok(())
                    },
                    None => {
                        let end_pos = self.program.position();
                        let end = pos_u32(end_pos)?;
                        let ghost st4 = self.st();
                        self.program.patch_u32(jump_else_pos, end);
                        proof {
                            assert(self.st() =~= st_patch(st4, jump_else_pos as int, end));
                        }
                        Ok(())
                    },
                }
            },
            _ => {
                proof {
                    assert(false);
                }
                Err(AetherError::CompilerError(String::from_str("mismatched node shape")))
            },
        }
    }

    fn lower_loop(&mut self, node: &AstNode) -> (r: Result<(), AetherError>)
        requires
            node matches AstNode::Loop { condition, body },
        ensures
            match r {
                Ok(_) => {
                    &&& spec_compile_node(*node, old(self).st()) == Ok::<_, ()>(final(self).st())
                    &&& final(self).loop_stack@ == old(self).loop_stack@
                    &&& final(self).program.code@.len() >= old(self).program.code@.len()
                },
                Err(e) => {
                    &&& spec_compile_node(*node, old(self).st()) == Err::<CompSt, ()>(())
                    &&& e matches AetherError::CompilerError(_)
                },
            },
        decreases node, 0int,
    {
        let ghost st0 = self.st();
        match node {
            AstNode::Loop { condition, body } => {
                let start_pos = self.program.position();
                self.program.emit_opcode(Opcode::LoopStart);
                let end_patch_pos = self.program.position();
                self.program.emit_u32(0);
                let ghost st2 = self.st();
                proof {
                    assert(st2 =~= st_emit(
                        st_emit(st0, op_bytes(Opcode::LoopStart)),
                        spec_u32_be(0),
                    ));
                }
                let mut first_patches: Vec<usize> = Vec::new();
                first_patches.push(end_patch_pos);
                self.loop_stack.push(LoopContext { start_pos, end_patches: first_patches });
                let ghost sites: Seq<int> = seq![end_patch_pos as int];
                let ghost mut sites_all: Seq<int> = sites;
                match condition {
                    Some(cond) => {
                        proof {
                            assert(decreases_to!(node => node->Loop_condition));
                            assert(decreases_to!(node->Loop_condition => *cond));
                        }
                        let res = self.compile_node(&**cond);
                        match res {
                            Ok(_) => {},
                            Err(e) => {
                                return Err(e);
                            },
                        }
                        let ghost st3g = self.st();
                        self.program.emit_opcode(Opcode::JumpIfFalse);
                        let cond_jump_pos = self.program.position();
                        self.program.emit_u32(0);
                        proof {
                            assert(self.st() =~= st_emit(
                                st_emit(st3g, op_bytes(Opcode::JumpIfFalse)),
                                spec_u32_be(0),
                            ));
                        }
                        match self.loop_stack.pop() {
                            Some(mut ctx) => {
                                ctx.end_patches.push(cond_jump_pos);
                                self.loop_stack.push(ctx);
                            },
                            None => {
                                proof {
                                    assert(false);
                                }
                                return Err(
                                    AetherError::CompilerError(String::from_str("")),
                                );
                            },
                        }
                        proof {
                            sites_all = sites.push(cond_jump_pos as int);
                            assert(sites_all =~= seq![end_patch_pos as int, cond_jump_pos as int]);
                        }
                    },
                    None => {},
                }
                let ghost st5 = self.st();
                let ghost old_stack = old(self).loop_stack;
                proof {
                    assert(self.loop_stack@.len() == old_stack@.len() + 1);
                    assert(self.loop_stack@.drop_last() =~= old_stack@);
                    assert(self.loop_stack@.last().end_patches@.len() == sites_all.len());
                    assert(forall|j: int|
                        0 <= j < sites_all.len() ==> self.loop_stack@.last().end_patches@[j] as int
                            == sites_all[j]);
                    assert(forall|j: int|
                        0 <= j < sites_all.len() ==> 0 <= sites_all[j] && sites_all[j] + 4
                            <= st5.code.len());
                }
                proof {
                    assert(decreases_to!(node => node->Loop_body));
                }
                self.compile_node(&**body)?;
                let sp = pos_u32(start_pos)?;
                let ghost st6 = self.st();
                self.program.emit_opcode(Opcode::LoopEnd);
                self.program.emit_u32(sp);
                let ghost st7 = self.st();
                proof {
                    assert(st7 =~= st_emit(st6, op_bytes(Opcode::LoopEnd) + spec_u32_be(sp)));
                }
                let end_pos = self.program.position();
                let ep = pos_u32(end_pos)?;
                match self.loop_stack.pop() {
                    Some(ctx) => {
                        proof {
                            assert(self.loop_stack@ == old(self).loop_stack@);
                            assert(ctx.end_patches@.len() == sites_all.len());
                            assert(forall|j: int|
                                0 <= j < sites_all.len() ==> ctx.end_patches@[j] as int
                                    == sites_all[j]);
                            assert(sites_all.skip(0) =~= sites_all);
                        }
                        let mut i: usize = 0;
                        while i < ctx.end_patches.len()
                            invariant
                                0 <= i <= ctx.end_patches.len(),
                                ctx.end_patches@.len() == sites_all.len(),
                                forall|j: int|
                                    0 <= j < sites_all.len() ==> ctx.end_patches@[j] as int
                                        == sites_all[j],
                                forall|j: int|
                                    0 <= j < sites_all.len() ==> 0 <= sites_all[j] && sites_all[j]
                                        + 4 <= st7.code.len(),
                                spec_patch_all(st7, sites_all, ep) == spec_patch_all(
                                    self.st(),
                                    sites_all.skip(i as int),
                                    ep,
                                ),
                                self.st().code.len() == st7.code.len(),
                                self.st().consts == st7.consts,
                                self.st().funcs == st7.funcs,
                                self.loop_stack@ == old(self).loop_stack@,
                            decreases ctx.end_patches.len() - i,
                        {
                            let p = ctx.end_patches[i];
                            let ghost pre = self.st();
                            self.program.patch_u32(p, ep);
                            proof {
                                assert(self.st() =~= st_patch(pre, p as int, ep));
                                assert(sites_all.skip(i as int)[0] == sites_all[i as int]);
                                assert(sites_all.skip(i as int).drop_first() =~= sites_all.skip(
                                    i + 1,
                                ));
                                assert(self.st().code.len() == pre.code.len());
                            }
                            i = i + 1;
                        }
                        proof {
                            assert(sites_all.skip(sites_all.len() as int).len() == 0);
                            assert(spec_patch_all(st7, sites_all, ep) == self.st());
                            assert(spec_compile_node(*node, st0) == Ok::<_, ()>(self.st()));
                        }
                        Ok(())
                    },
                    None => {
                        proof {
                            assert(false);
                        }
                        Err(AetherError::CompilerError(String::from_str("mismatched node shape")))
                    },
                }
            },
            _ => {
                proof {
                    assert(false);
                }
                Err(AetherError::CompilerError(String::from_str("mismatched node shape")))
            },
        }
    }

    fn lower_for_each(&mut self, node: &AstNode) -> (r: Result<(), AetherError>)
        requires
            node matches AstNode::ForEach { variable, collection, body },
        ensures
            match r {
                Ok(_) => {
                    &&& spec_compile_node(*node, old(self).st()) == Ok::<_, ()>(final(self).st())
                    &&& final(self).loop_stack@ == old(self).loop_stack@
                    &&& final(self).program.code@.len() >= old(self).program.code@.len()
                },
                Err(e) => {
                    &&& spec_compile_node(*node, old(self).st()) == Err::<CompSt, ()>(())
                    &&& e matches AetherError::CompilerError(_)
                },
            },
        decreases node, 0int,
    {
        let ghost st0 = self.st();
        match node {
            AstNode::ForEach { variable, collection, body } => {
                proof {
                    assert(decreases_to!(node => node->ForEach_collection));
                }
                self.compile_node(&**collection)?;
                let var_idx = self.add_const_checked(variable.clone())?;
                let ghost st2 = self.st();
                self.program.emit_opcode(Opcode::ForEach);
                self.program.emit_u32(var_idx);
                proof {
                    assert(self.st() =~= st_emit(
                        st2,
                        op_bytes(Opcode::ForEach) + spec_u32_be(var_idx),
                    ));
                }
                let start_pos = self.program.position();
                proof {
                    assert(decreases_to!(node => node->ForEach_body));
                }
                self.compile_node(&**body)?;
                let sp = pos_u32(start_pos)?;
                let ghost st4 = self.st();
                self.program.emit_opcode(Opcode::LoopEnd);
                self.program.emit_u32(sp);
                proof {
                    assert(self.st() =~= st_emit(
                        st4,
                        op_bytes(Opcode::LoopEnd) + spec_u32_be(sp),
                    ));
                }
                Ok(())
            },
            _ => {
                proof {
                    assert(false);
                }
                Err(AetherError::CompilerError(String::from_str("mismatched node shape")))
            },
        }
    }

    fn lower_function(&mut self, node: &AstNode) -> (r: Result<(), AetherError>)
        requires
            node matches AstNode::Function { name, body },
        ensures
            match r {
                Ok(_) => {
                    &&& spec_compile_node(*node, old(self).st()) == Ok::<_, ()>(final(self).st())
                    &&& final(self).loop_stack@ == old(self).loop_stack@
                    &&& final(self).program.code@.len() >= old(self).program.code@.len()
                },
                Err(e) => {
                    &&& spec_compile_node(*node, old(self).st()) == Err::<CompSt, ()>(())
                    &&& e matches AetherError::CompilerError(_)
                },
            },
        decreases node, 0int,
    {
        let ghost st0 = self.st();
        match node {
            AstNode::Function { name, body } => {
                let func_idx = self.add_const_checked(name.clone())?;
                let ghost st1 = self.st();
                let entry = self.program.position();
                self.functions.push((name.clone(), entry));
                let ghost std = self.st();
                proof {
                    assert(std =~= CompSt {
                        funcs: st1.funcs.push((name@, st1.code.len() as int)),
                        ..st1
                    });
                }
                self.program.emit_opcode(Opcode::Jump);
                let jump_pos = self.program.position();
                self.program.emit_u32(0);
                let ghost st3 = self.st();
                proof {
                    assert(st3 =~= st_emit(st_emit(std, op_bytes(Opcode::Jump)), spec_u32_be(0)));
                }
                let func_start = self.program.position();
                proof {
                    assert(decreases_to!(node => node->Function_body));
                }
                self.compile_node(&**body)?;
                let ghost st4 = self.st();
                self.program.emit_opcode(Opcode::Return);
                proof {
                    assert(self.st() =~= st_emit(st4, op_bytes(Opcode::Return)));
                }
                let end_pos = self.program.position();
                let end = pos_u32(end_pos)?;
                let ghost st5 = self.st();
                self.program.patch_u32(jump_pos, end);
                proof {
                    assert(self.st() =~= st_patch(st5, jump_pos as int, end));
                }
                let fs = pos_u32(func_start)?;
                let bits = u32_to_bits(fs);
                let ghost st6 = self.st();
                self.program.emit_opcode(Opcode::PushNumber);
                self.program.emit_num_bits(bits);
                self.program.emit_opcode(Opcode::StoreVar);
                self.program.emit_u32(func_idx);
                proof {
                    assert(self.st() =~= st_emit(
                        st6,
                        op_bytes(Opcode::PushNumber) + spec_u64_be(num_of_u32(fs)) + op_bytes(
                            Opcode::StoreVar,
                        ) + spec_u32_be(func_idx),
                    ));
                }
                Ok(())
            },
            _ => {
                proof {
                    assert(false);
                }
                Err(AetherError::CompilerError(String::from_str("mismatched node shape")))
            },
        }
    }

    fn lower_try_rescue(&mut self, node: &AstNode) -> (r: Result<(), AetherError>)
        requires
            node matches AstNode::TryRescue { try_body, rescue_body },
        ensures
            match r {
                Ok(_) => {
                    &&& spec_compile_node(*node, old(self).st()) == Ok::<_, ()>(final(self).st())
                    &&& final(self).loop_stack@ == old(self).loop_stack@
                    &&& final(self).program.code@.len() >= old(self).program.code@.len()
                },
                Err(e) => {
                    &&& spec_compile_node(*node, old(self).st()) == Err::<CompSt, ()>(())
                    &&& e matches AetherError::CompilerError(_)
                },
            },
        decreases node, 0int,
    {
        let ghost st0 = self.st();
        match node {
            AstNode::TryRescue { try_body, rescue_body } => {
                self.program.emit_opcode(Opcode::TryStart);
                let rescue_pos = self.program.position();
                self.program.emit_u32(0);
                proof {
                    assert(self.st() =~= st_emit(
                        st_emit(st0, op_bytes(Opcode::TryStart)),
                        spec_u32_be(0),
                    ));
                    assert(decreases_to!(node => node->TryRescue_try_body));
                }
                self.compile_node(&**try_body)?;
                let ghost st3 = self.st();
                self.program.emit_opcode(Opcode::TryEnd);
                proof {
                    assert(self.st() =~= st_emit(st3, op_bytes(Opcode::TryEnd)));
                }
                match rescue_body {
                    Some(rescue) => {
                        let rescue_start_pos = self.program.position();
                        let rs = pos_u32(rescue_start_pos)?;
                        let ghost st4 = self.st();
                        self.program.patch_u32(rescue_pos, rs);
                        proof {
                            assert(self.st() =~= st_patch(st4, rescue_pos as int, rs));
                            assert(decreases_to!(node => node->TryRescue_rescue_body));
                            assert(decreases_to!(node->TryRescue_rescue_body => *rescue));
                        }
                        self.compile_node(&**rescue)?;
                        Ok(())
                    },
                    None => Ok(()),
                }
            },
            _ => {
                proof {
                    assert(false);
                }
                Err(AetherError::CompilerError(String::from_str("mismatched node shape")))
            },
        }
    }

    fn lower_retry(&mut self, node: &AstNode) -> (r: Result<(), AetherError>)
        requires
            node matches AstNode::Retry { max_attempts, body },
        ensures
            match r {
                Ok(_) => {
                    &&& spec_compile_node(*node, old(self).st()) == Ok::<_, ()>(final(self).st())
                    &&& final(self).loop_stack@ == old(self).loop_stack@
                    &&& final(self).program.code@.len() >= old(self).program.code@.len()
                },
                Err(e) => {
                    &&& spec_compile_node(*node, old(self).st()) == Err::<CompSt, ()>(())
                    &&& e matches AetherError::CompilerError(_)
                },
            },
        decreases node, 0int,
    {
        let ghost st0 = self.st();
        match node {
            AstNode::Retry { max_attempts, body } => {
                let attempts: u8 = match max_attempts {
                    Some(a) => *a,
                    None => 3,
                };
                self.program.emit_opcode(Opcode::Retry);
                self.program.emit_u8(attempts);
                proof {
                    assert(self.st() =~= st_emit(
                        st0,
                        op_bytes(Opcode::Retry) + seq![attempts],
                    ));
                    assert(decreases_to!(node => node->Retry_body));
                }
                self.compile_node(&**body)

            },
            _ => {
                proof {
                    assert(false);
                }
                Err(AetherError::CompilerError(String::from_str("mismatched node shape")))
            },
        }
    }

    fn lower_immutable(&mut self, node: &AstNode) -> (r: Result<(), AetherError>)
        requires
            node matches AstNode::Immutable { name, value },
        ensures
            match r {
                Ok(_) => {
                    &&& spec_compile_node(*node, old(self).st()) == Ok::<_, ()>(final(self).st())
                    &&& final(self).loop_stack@ == old(self).loop_stack@
                    &&& final(self).program.code@.len() >= old(self).program.code@.len()
                },
                Err(e) => {
                    &&& spec_compile_node(*node, old(self).st()) == Err::<CompSt, ()>(())
                    &&& e matches AetherError::CompilerError(_)
                },
            },
        decreases node, 0int,
    {
        let ghost st0 = self.st();
        match node {
            AstNode::Immutable { name, value } => {
                proof {
                    assert(decreases_to!(node => node->Immutable_value));
                }
                self.compile_node(&**value)?;
                let idx = self.add_const_checked(name.clone())?;
                let ghost st2 = self.st();
                self.program.emit_opcode(Opcode::StoreImmutable);
                self.program.emit_u32(idx);
                proof {
                    assert(self.st() =~= st_emit(
                        st2,
                        op_bytes(Opcode::StoreImmutable) + spec_u32_be(idx),
                    ));
                }
                Ok(())
            },
            _ => {
                proof {
                    assert(false);
                }
                Err(AetherError::CompilerError(String::from_str("mismatched node shape")))
            },
        }
    }

    fn lower_delta(&mut self, node: &AstNode) -> (r: Result<(), AetherError>)
        requires
            node matches AstNode::Delta { name, value },
        ensures
            match r {
                Ok(_) => {
                    &&& spec_compile_node(*node, old(self).st()) == Ok::<_, ()>(final(self).st())
                    &&& final(self).loop_stack@ == old(self).loop_stack@
                    &&& final(self).program.code@.len() >= old(self).program.code@.len()
                },
                Err(e) => {
                    &&& spec_compile_node(*node, old(self).st()) == Err::<CompSt, ()>(())
                    &&& e matches AetherError::CompilerError(_)
                },
            },
        decreases node, 0int,
    {
        let ghost st0 = self.st();
        match node {
            AstNode::Delta { name, value } => {
                proof {
                    assert(decreases_to!(node => node->Delta_value));
                }
                self.compile_node(&**value)?;
                let idx = self.add_const_checked(name.clone())?;
                let ghost st2 = self.st();
                self.program.emit_opcode(Opcode::StoreVar);
                self.program.emit_u32(idx);
                self.program.emit_opcode(Opcode::Delta);
                proof {
                    assert(self.st() =~= st_emit(
                        st2,
                        op_bytes(Opcode::StoreVar) + spec_u32_be(idx) + op_bytes(Opcode::Delta),
                    ));
                }
                Ok(())
            },
            _ => {
                proof {
                    assert(false);
                }
                Err(AetherError::CompilerError(String::from_str("mismatched node shape")))
            },
        }
    }

    fn lower_import(&mut self, node: &AstNode) -> (r: Result<(), AetherError>)
        requires
            node matches AstNode::Import { module },
        ensures
            match r {
                Ok(_) => {
                    &&& spec_compile_node(*node, old(self).st()) == Ok::<_, ()>(final(self).st())
                    &&& final(self).loop_stack@ == old(self).loop_stack@
                    &&& final(self).program.code@.len() >= old(self).program.code@.len()
                },
                Err(e) => {
                    &&& spec_compile_node(*node, old(self).st()) == Err::<CompSt, ()>(())
                    &&& e matches AetherError::CompilerError(_)
                },
            },
        decreases node, 0int,
    {
        let ghost st0 = self.st();
        match node {
            AstNode::Import { module } => {
                let idx = self.add_const_checked(module.clone())?;
                let ghost st1 = self.st();
                self.program.emit_opcode(Opcode::Import);
                self.program.emit_u32(idx);
                proof {
                    assert(self.st() =~= st_emit(
                        st1,
                        op_bytes(Opcode::Import) + spec_u32_be(idx),
                    ));
                }
                Ok(())
            },
            _ => {
                proof {
                    assert(false);
                }
                Err(AetherError::CompilerError(String::from_str("mismatched node shape")))
            },
        }
    }

    fn lower_test(&mut self, node: &AstNode) -> (r: Result<(), AetherError>)
        requires
            node matches AstNode::Test { name, body },
        ensures
            match r {
                Ok(_) => {
                    &&& spec_compile_node(*node, old(self).st()) == Ok::<_, ()>(final(self).st())
                    &&& final(self).loop_stack@ == old(self).loop_stack@
                    &&& final(self).program.code@.len() >= old(self).program.code@.len()
                },
                Err(e) => {
                    &&& spec_compile_node(*node, old(self).st()) == Err::<CompSt, ()>(())
                    &&& e matches AetherError::CompilerError(_)
                },
            },
        decreases node, 0int,
    {
        let ghost st0 = self.st();
        match node {
            AstNode::Test { name, body } => {
                let idx = self.add_const_checked(name.clone())?;
                let ghost st1 = self.st();
                self.program.emit_opcode(Opcode::TestStart);
                self.program.emit_u32(idx);
                proof {
                    assert(self.st() =~= st_emit(
                        st1,
                        op_bytes(Opcode::TestStart) + spec_u32_be(idx),
                    ));
                    assert(decreases_to!(node => node->Test_body));
                }
                self.compile_node(&**body)

            },
            _ => {
                proof {
                    assert(false);
                }
                Err(AetherError::CompilerError(String::from_str("mismatched node shape")))
            },
        }
    }

    fn lower_property_access(&mut self, node: &AstNode) -> (r: Result<(), AetherError>)
        requires
            node matches AstNode::PropertyAccess { object, property },
        ensures
            match r {
                Ok(_) => {
                    &&& spec_compile_node(*node, old(self).st()) == Ok::<_, ()>(final(self).st())
                    &&& final(self).loop_stack@ == old(self).loop_stack@
                    &&& final(self).program.code@.len() >= old(self).program.code@.len()
                },
                Err(e) => {
                    &&& spec_compile_node(*node, old(self).st()) == Err::<CompSt, ()>(())
                    &&& e matches AetherError::CompilerError(_)
                },
            },
        decreases node, 0int,
    {
        let ghost st0 = self.st();
        match node {
            AstNode::PropertyAccess { object, property } => {
                proof {
                    assert(decreases_to!(node => node->PropertyAccess_object));
                }
                self.compile_node(&**object)?;
                let idx = self.add_const_checked(property.clone())?;
                let ghost st2 = self.st();
                self.program.emit_opcode(Opcode::PushString);
                self.program.emit_u32(idx);
                self.program.emit_opcode(Opcode::PropertyAccess);
                proof {
                    assert(self.st() =~= st_emit(
                        st2,
                        op_bytes(Opcode::PushString) + spec_u32_be(idx) + op_bytes(
                            Opcode::PropertyAccess,
                        ),
                    ));
                }
                Ok(())
            },
            _ => {
                proof {
                    assert(false);
                }
                Err(AetherError::CompilerError(String::from_str("mismatched node shape")))
            },
        }
    }

    fn lower_comparison(&mut self, node: &AstNode) -> (r: Result<(), AetherError>)
        requires
            node matches AstNode::Comparison { left, operator, right },
        ensures
            match r {
                Ok(_) => {
                    &&& spec_compile_node(*node, old(self).st()) == Ok::<_, ()>(final(self).st())
                    &&& final(self).loop_stack@ == old(self).loop_stack@
                    &&& final(self).program.code@.len() >= old(self).program.code@.len()
                },
                Err(e) => {
                    &&& spec_compile_node(*node, old(self).st()) == Err::<CompSt, ()>(())
                    &&& e matches AetherError::CompilerError(_)
                },
            },
        decreases node, 0int,
    {
        let ghost st0 = self.st();
        match node {
            AstNode::Comparison { left, operator, right } => {
                proof {
                    assert(decreases_to!(node => node->Comparison_left));
                }
                self.compile_node(&**left)?;
                proof {
                    assert(decreases_to!(node => node->Comparison_right));
                }
                self.compile_node(&**right)?;
                let ghost st2 = self.st();
                match operator {
                    ComparisonOp::GreaterThan => {
                        self.program.emit_opcode(Opcode::GreaterThan);
                        proof {
                            assert(self.st() =~= st_emit(st2, op_bytes(Opcode::GreaterThan)));
                        }
                        Ok(())
                    },
                    ComparisonOp::LessThan => {
                        self.program.emit_opcode(Opcode::LessThan);
                        proof {
                            assert(self.st() =~= st_emit(st2, op_bytes(Opcode::LessThan)));
                        }
                        Ok(())
                    },
                    // The instruction set defines no opcodes for these two.
                    ComparisonOp::GreaterEqual => Err(
                        AetherError::CompilerError(
                            String::from_str("comparison without a defined lowering"),
                        ),
                    ),
                    ComparisonOp::LessEqual => Err(
                        AetherError::CompilerError(
                            String::from_str("comparison without a defined lowering"),
                        ),
                    ),
                }
            },
            _ => {
                proof {
                    assert(false);
                }
                Err(AetherError::CompilerError(String::from_str("mismatched node shape")))
            },
        }
    }

    fn lower_split(&mut self, node: &AstNode) -> (r: Result<(), AetherError>)
        requires
            node matches AstNode::Split { target, delimiter },
        ensures
            match r {
                Ok(_) => {
                    &&& spec_compile_node(*node, old(self).st()) == Ok::<_, ()>(final(self).st())
                    &&& final(self).loop_stack@ == old(self).loop_stack@
                    &&& final(self).program.code@.len() >= old(self).program.code@.len()
                },
                Err(e) => {
                    &&& spec_compile_node(*node, old(self).st()) == Err::<CompSt, ()>(())
                    &&& e matches AetherError::CompilerError(_)
                },
            },
        decreases node, 0int,
    {
        let ghost st0 = self.st();
        match node {
            AstNode::Split { target, delimiter } => {
                let target_is_empty = match &**target {
                    AstNode::Empty => true,
                    _ => false,
                };
                if !target_is_empty {
                    proof {
                        assert(decreases_to!(node => node->Split_target));
                    }
                    self.compile_node(&**target)?;
                }
                match delimiter {
                    Some(d) => {
                        proof {
                            assert(decreases_to!(node => node->Split_delimiter));
                            assert(decreases_to!(node->Split_delimiter => *d));
                        }
                        self.compile_node(&**d)?;
                    },
                    None => {
                        let idx = self.add_const_checked(String::from_str(" "))?;
                        let ghost stx = self.st();
                        self.program.emit_opcode(Opcode::PushString);
                        self.program.emit_u32(idx);
                        proof {
                            assert(self.st() =~= st_emit(
                                stx,
                                op_bytes(Opcode::PushString) + spec_u32_be(idx),
                            ));
                        }
                    },
                }
                let ghost st2 = self.st();
                self.program.emit_opcode(Opcode::Split);
                proof {
                    assert(self.st() =~= st_emit(st2, op_bytes(Opcode::Split)));
                }
                Ok(())
            },
            _ => {
                proof {
                    assert(false);
                }
                Err(AetherError::CompilerError(String::from_str("mismatched node shape")))
            },
        }
    }

    fn lower_join(&mut self, node: &AstNode) -> (r: Result<(), AetherError>)
        requires
            node matches AstNode::Join { elements, separator },
        ensures
            match r {
                Ok(_) => {
                    &&& spec_compile_node(*node, old(self).st()) == Ok::<_, ()>(final(self).st())
                    &&& final(self).loop_stack@ == old(self).loop_stack@
                    &&& final(self).program.code@.len() >= old(self).program.code@.len()
                },
                Err(e) => {
                    &&& spec_compile_node(*node, old(self).st()) == Err::<CompSt, ()>(())
                    &&& e matches AetherError::CompilerError(_)
                },
            },
        decreases node, 0int,
    {
        let ghost st0 = self.st();
        match node {
            AstNode::Join { elements, separator } => {
                let elements_is_empty = match &**elements {
                    AstNode::Empty => true,
                    _ => false,
                };
                if !elements_is_empty {
                    proof {
                        assert(decreases_to!(node => node->Join_elements));
                    }
                    self.compile_node(&**elements)?;
                }
                match separator {
                    Some(sp) => {
                        proof {
                            assert(decreases_to!(node => node->Join_separator));
                            assert(decreases_to!(node->Join_separator => *sp));
                        }
                        self.compile_node(&**sp)?;
                    },
                    None => {
                        let idx = self.add_const_checked(String::from_str(""))?;
                        let ghost stx = self.st();
                        self.program.emit_opcode(Opcode::PushString);
                        self.program.emit_u32(idx);
                        proof {
                            assert(self.st() =~= st_emit(
                                stx,
                                op_bytes(Opcode::PushString) + spec_u32_be(idx),
                            ));
                        }
                    },
                }
                let ghost st2 = self.st();
                self.program.emit_opcode(Opcode::Join);
                proof {
                    assert(self.st() =~= st_emit(st2, op_bytes(Opcode::Join)));
                }
                Ok(())
            },
            _ => {
                proof {
                    assert(false);
                }
                Err(AetherError::CompilerError(String::from_str("mismatched node shape")))
            },
        }
    }

    fn lower_reduce(&mut self, node: &AstNode) -> (r: Result<(), AetherError>)
        requires
            node matches AstNode::Reduce { operation, initial },
        ensures
            match r {
                Ok(_) => {
                    &&& spec_compile_node(*node, old(self).st()) == Ok::<_, ()>(final(self).st())
                    &&& final(self).loop_stack@ == old(self).loop_stack@
                    &&& final(self).program.code@.len() >= old(self).program.code@.len()
                },
                Err(e) => {
                    &&& spec_compile_node(*node, old(self).st()) == Err::<CompSt, ()>(())
                    &&& e matches AetherError::CompilerError(_)
                },
            },
        decreases node, 0int,
    {
        let ghost st0 = self.st();
        match node {
            AstNode::Reduce { operation, initial } => {
                proof {
                    assert(decreases_to!(node => node->Reduce_initial));
                }
                self.compile_node(&**initial)?;
                proof {
                    assert(decreases_to!(node => node->Reduce_operation));
                }
                self.compile_node(&**operation)?;
                let ghost st2 = self.st();
                self.program.emit_opcode(Opcode::Reduce);
                proof {
                    assert(self.st() =~= st_emit(st2, op_bytes(Opcode::Reduce)));
                }
                Ok(())
            },
            _ => {
                proof {
                    assert(false);
                }
                Err(AetherError::CompilerError(String::from_str("mismatched node shape")))
            },
        }
    }

    fn lower_filter(&mut self, node: &AstNode) -> (r: Result<(), AetherError>)
        requires
            node matches AstNode::Filter { predicate },
        ensures
            match r {
                Ok(_) => {
                    &&& spec_compile_node(*node, old(self).st()) == Ok::<_, ()>(final(self).st())
                    &&& final(self).loop_stack@ == old(self).loop_stack@
                    &&& final(self).program.code@.len() >= old(self).program.code@.len()
                },
                Err(e) => {
                    &&& spec_compile_node(*node, old(self).st()) == Err::<CompSt, ()>(())
                    &&& e matches AetherError::CompilerError(_)
                },
            },
        decreases node, 0int,
    {
        let ghost st0 = self.st();
        match node {
            AstNode::Filter { predicate } => {
                proof {
                    assert(decreases_to!(node => node->Filter_predicate));
                }
                self.compile_node(&**predicate)?;
                let ghost st1 = self.st();
                self.program.emit_opcode(Opcode::Filter);
                proof {
                    assert(self.st() =~= st_emit(st1, op_bytes(Opcode::Filter)));
                }
                Ok(())
            },
            _ => {
                proof {
                    assert(false);
                }
                Err(AetherError::CompilerError(String::from_str("mismatched node shape")))
            },
        }
    }

    fn lower_mock(&mut self, node: &AstNode) -> (r: Result<(), AetherError>)
        requires
            node matches AstNode::Mock { target },
        ensures
            match r {
                Ok(_) => {
                    &&& spec_compile_node(*node, old(self).st()) == Ok::<_, ()>(final(self).st())
                    &&& final(self).loop_stack@ == old(self).loop_stack@
                    &&& final(self).program.code@.len() >= old(self).program.code@.len()
                },
                Err(e) => {
                    &&& spec_compile_node(*node, old(self).st()) == Err::<CompSt, ()>(())
                    &&& e matches AetherError::CompilerError(_)
                },
            },
        decreases node, 0int,
    {
        let ghost st0 = self.st();
        match node {
            AstNode::Mock { target } => {
                proof {
                    assert(decreases_to!(node => node->Mock_target));
                }
                self.compile_node(&**target)?;
                let ghost st1 = self.st();
                self.program.emit_opcode(Opcode::Mock);
                self.program.emit_u32(0);
                proof {
                    assert(self.st() =~= st_emit(st1, op_bytes(Opcode::Mock) + spec_u32_be(0)));
                }
                Ok(())
            },
            _ => {
                proof {
                    assert(false);
                }
                Err(AetherError::CompilerError(String::from_str("mismatched node shape")))
            },
        }
    }

    fn lower_array_literal(&mut self, node: &AstNode) -> (r: Result<(), AetherError>)
        requires
            node matches AstNode::ArrayLiteral { elements },
        ensures
            match r {
                Ok(_) => {
                    &&& spec_compile_node(*node, old(self).st()) == Ok::<_, ()>(final(self).st())
                    &&& final(self).loop_stack@ == old(self).loop_stack@
                    &&& final(self).program.code@.len() >= old(self).program.code@.len()
                },
                Err(e) => {
                    &&& spec_compile_node(*node, old(self).st()) == Err::<CompSt, ()>(())
                    &&& e matches AetherError::CompilerError(_)
                },
            },
        decreases node, 0int,
    {
        let ghost st0 = self.st();
        match node {
            AstNode::ArrayLiteral { elements } => {
                proof {
                    assert(elements@.skip(0) =~= elements@);
                }
                let mut i: usize = 0;
                while i < elements.len()
                    invariant
                        0 <= i <= elements.len(),
                        *node == (AstNode::ArrayLiteral { elements: *elements }),
                        spec_compile_nodes(elements@, st0) == spec_compile_nodes(
                            elements@.skip(i as int),
                            self.st(),
                        ),
                        self.loop_stack@ == old(self).loop_stack@,
                        self.st().code.len() >= st0.code.len(),
                        st0 == old(self).st(),
                    decreases elements.len() - i,
                {
                    proof {
                        assert(decreases_to!(node => node->ArrayLiteral_elements));
                        assert(node->ArrayLiteral_elements == *elements);
                        assert(decreases_to!(*elements => elements@));
                        assert(decreases_to!(elements@ => elements@[i as int]));
                        assert(elements@.skip(i as int)[0] == elements@[i as int]);
                    }
                    let res = self.compile_node(&elements[i]);
                    match res {
                        Ok(_) => {},
                        Err(e) => {
                            return Err(e);
                        },
                    }
                    proof {
                        assert(elements@.skip(i as int).drop_first() =~= elements@.skip(i + 1));
                    }
                    i = i + 1;
                }
                proof {
                    assert(elements@.skip(elements@.len() as int).len() == 0);
                }
                let n = pos_u32(elements.len())?;
                let ghost st1 = self.st();
                self.program.emit_opcode(Opcode::MakeArray);
                self.program.emit_u32(n);
                proof {
                    assert(self.st() =~= st_emit(
                        st1,
                        op_bytes(Opcode::MakeArray) + spec_u32_be(n),
                    ));
                }
                Ok(())
            },
            _ => {
                proof {
                    assert(false);
                }
                Err(AetherError::CompilerError(String::from_str("mismatched node shape")))
            },
        }
    }

    fn lower_object_literal(&mut self, node: &AstNode) -> (r: Result<(), AetherError>)
        requires
            node matches AstNode::ObjectLiteral { pairs },
        ensures
            match r {
                Ok(_) => {
                    &&& spec_compile_node(*node, old(self).st()) == Ok::<_, ()>(final(self).st())
                    &&& final(self).loop_stack@ == old(self).loop_stack@
                    &&& final(self).program.code@.len() >= old(self).program.code@.len()
                },
                Err(e) => {
                    &&& spec_compile_node(*node, old(self).st()) == Err::<CompSt, ()>(())
                    &&& e matches AetherError::CompilerError(_)
                },
            },
        decreases node, 0int,
    {
        let ghost st0 = self.st();
        match node {
            AstNode::ObjectLiteral { pairs } => {
                proof {
                    assert(pairs@.skip(0) =~= pairs@);
                }
                let mut i: usize = 0;
                while i < pairs.len()
                    invariant
                        0 <= i <= pairs.len(),
                        *node == (AstNode::ObjectLiteral { pairs: *pairs }),
                        spec_compile_pairs(pairs@, st0) == spec_compile_pairs(
                            pairs@.skip(i as int),
                            self.st(),
                        ),
                        self.loop_stack@ == old(self).loop_stack@,
                        self.st().code.len() >= st0.code.len(),
                        st0 == old(self).st(),
                    decreases pairs.len() - i,
                {
                    proof {
                        assert(pairs@.skip(i as int)[0] == pairs@[i as int]);
                    }
                    let key = pairs[i].0.clone();
                    let idx = self.add_const_checked(key)?;
                    let ghost stx = self.st();
                    self.program.emit_opcode(Opcode::PushString);
                    self.program.emit_u32(idx);
                    proof {
                        assert(self.st() =~= st_emit(
                            stx,
                            op_bytes(Opcode::PushString) + spec_u32_be(idx),
                        ));
                        assert(decreases_to!(node => node->ObjectLiteral_pairs));
                        assert(node->ObjectLiteral_pairs == *pairs);
                        assert(decreases_to!(*pairs => pairs@));
                        assert(decreases_to!(pairs@ => pairs@[i as int]));
                        assert(decreases_to!(pairs@[i as int] => pairs@[i as int].1));
                    }
                    let res = self.compile_node(&pairs[i].1);
                    match res {
                        Ok(_) => {},
                        Err(e) => {
                            return Err(e);
                        },
                    }
                    proof {
                        assert(pairs@.skip(i as int).drop_first() =~= pairs@.skip(i + 1));
                    }
                    i = i + 1;
                }
                proof {
                    assert(pairs@.skip(pairs@.len() as int).len() == 0);
                }
                let n = pos_u32(pairs.len())?;
                let ghost st1 = self.st();
                self.program.emit_opcode(Opcode::MakeObject);
                self.program.emit_u32(n);
                proof {
                    assert(self.st() =~= st_emit(
                        st1,
                        op_bytes(Opcode::MakeObject) + spec_u32_be(n),
                    ));
                }
                Ok(())
            },
            _ => {
                proof {
                    assert(false);
                }
                Err(AetherError::CompilerError(String::from_str("mismatched node shape")))
            },
        }
    }

    fn lower_http(&mut self, node: &AstNode) -> (r: Result<(), AetherError>)
        requires
            node matches AstNode::Http { method, url, body, headers },
        ensures
            match r {
                Ok(_) => {
                    &&& spec_compile_node(*node, old(self).st()) == Ok::<_, ()>(final(self).st())
                    &&& final(self).loop_stack@ == old(self).loop_stack@
                    &&& final(self).program.code@.len() >= old(self).program.code@.len()
                },
                Err(e) => {
                    &&& spec_compile_node(*node, old(self).st()) == Err::<CompSt, ()>(())
                    &&& e matches AetherError::CompilerError(_)
                },
            },
        decreases node, 0int,
    {
        let ghost st0 = self.st();
        match node {
            AstNode::Http { method, url, body, headers } => {
                proof {
                    assert(decreases_to!(node => node->Http_url));
                }
                self.compile_node(&**url)?;
                if http_has_body(*method) {
                    match body {
                        Some(b) => {
                            proof {
                                assert(decreases_to!(node => node->Http_body));
                                assert(decreases_to!(node->Http_body => *b));
                            }
                            self.compile_node(&**b)?;
                        },
                        None => {
                            let ghost stx = self.st();
                            self.program.emit_opcode(Opcode::PushNull);
                            proof {
                                assert(self.st() =~= st_emit(stx, op_bytes(Opcode::PushNull)));
                            }
                        },
                    }
                }
                match headers {
                    Some(h) => {
                        proof {
                            assert(decreases_to!(node => node->Http_headers));
                            assert(decreases_to!(node->Http_headers => *h));
                        }
                        self.compile_node(&**h)?;
                    },
                    None => {
                        let ghost stx = self.st();
                        self.program.emit_opcode(Opcode::PushNull);
                        proof {
                            assert(self.st() =~= st_emit(stx, op_bytes(Opcode::PushNull)));
                        }
                    },
                }
                let ghost st3 = self.st();
                let opc = http_opcode(*method);
                self.program.emit_opcode(opc);
                proof {
                    assert(self.st() =~= st_emit(st3, op_bytes(spec_http_opcode(*method))));
                }
                Ok(())
            },
            _ => {
                proof {
                    assert(false);
                }
                Err(AetherError::CompilerError(String::from_str("mismatched node shape")))
            },
        }
    }

    fn lower_unary(&mut self, node: &AstNode) -> (r: Result<(), AetherError>)
        requires
            node matches AstNode::Unary { op, operand },
        ensures
            match r {
                Ok(_) => {
                    &&& spec_compile_node(*node, old(self).st()) == Ok::<_, ()>(final(self).st())
                    &&& final(self).loop_stack@ == old(self).loop_stack@
                    &&& final(self).program.code@.len() >= old(self).program.code@.len()
                },
                Err(e) => {
                    &&& spec_compile_node(*node, old(self).st()) == Err::<CompSt, ()>(())
                    &&& e matches AetherError::CompilerError(_)
                },
            },
        decreases node, 0int,
    {
        let ghost st0 = self.st();
        match node {
            AstNode::Unary { op, operand } => {
                proof {
                    assert(decreases_to!(node => node->Unary_operand));
                }
                self.compile_node(&**operand)?;
                let ghost st1 = self.st();
                let opc = unary_opcode(*op);
                self.program.emit_opcode(opc);
                proof {
                    assert(self.st() =~= st_emit(st1, op_bytes(spec_unary_opcode(*op))));
                }
                Ok(())
            },
            _ => {
                proof {
                    assert(false);
                }
                Err(AetherError::CompilerError(String::from_str("mismatched node shape")))
            },
        }
    }

    fn lower_binary(&mut self, node: &AstNode) -> (r: Result<(), AetherError>)
        requires
            node matches AstNode::Binary { op, left, right },
        ensures
            match r {
                Ok(_) => {
                    &&& spec_compile_node(*node, old(self).st()) == Ok::<_, ()>(final(self).st())
                    &&& final(self).loop_stack@ == old(self).loop_stack@
                    &&& final(self).program.code@.len() >= old(self).program.code@.len()
                },
                Err(e) => {
                    &&& spec_compile_node(*node, old(self).st()) == Err::<CompSt, ()>(())
                    &&& e matches AetherError::CompilerError(_)
                },
            },
        decreases node, 0int,
    {
        let ghost st0 = self.st();
        match node {
            AstNode::Binary { op, left, right } => {
                proof {
                    assert(decreases_to!(node => node->Binary_left));
                }
                self.compile_node(&**left)?;
                proof {
                    assert(decreases_to!(node => node->Binary_right));
                }
                self.compile_node(&**right)?;
                let ghost st2 = self.st();
                let opc = binary_opcode(*op);
                self.program.emit_opcode(opc);
                proof {
                    assert(self.st() =~= st_emit(st2, op_bytes(spec_binary_opcode(*op))));
                }
                Ok(())
            },
            _ => {
                proof {
                    assert(false);
                }
                Err(AetherError::CompilerError(String::from_str("mismatched node shape")))
            },
        }
    }

    fn lower_ternary(&mut self, node: &AstNode) -> (r: Result<(), AetherError>)
        requires
            node matches AstNode::Ternary { op, first, second, third },
        ensures
            match r {
                Ok(_) => {
                    &&& spec_compile_node(*node, old(self).st()) == Ok::<_, ()>(final(self).st())
                    &&& final(self).loop_stack@ == old(self).loop_stack@
                    &&& final(self).program.code@.len() >= old(self).program.code@.len()
                },
                Err(e) => {
                    &&& spec_compile_node(*node, old(self).st()) == Err::<CompSt, ()>(())
                    &&& e matches AetherError::CompilerError(_)
                },
            },
        decreases node, 0int,
    {
        let ghost st0 = self.st();
        match node {
            AstNode::Ternary { op, first, second, third } => {
                proof {
                    assert(decreases_to!(node => node->Ternary_first));
                }
                self.compile_node(&**first)?;
                proof {
                    assert(decreases_to!(node => node->Ternary_second));
                }
                self.compile_node(&**second)?;
                proof {
                    assert(decreases_to!(node => node->Ternary_third));
                }
                self.compile_node(&**third)?;
                let ghost st3 = self.st();
                self.program.emit_opcode(Opcode::VerifySignature);
                proof {
                    assert(self.st() =~= st_emit(st3, op_bytes(spec_ternary_opcode(*op))));
                }
                Ok(())
            },
            _ => {
                proof {
                    assert(false);
                }
                Err(AetherError::CompilerError(String::from_str("mismatched node shape")))
            },
        }
    }

    fn lower_prefix(&mut self, node: &AstNode) -> (r: Result<(), AetherError>)
        requires
            node matches AstNode::Prefix { op, body },
        ensures
            match r {
                Ok(_) => {
                    &&& spec_compile_node(*node, old(self).st()) == Ok::<_, ()>(final(self).st())
                    &&& final(self).loop_stack@ == old(self).loop_stack@
                    &&& final(self).program.code@.len() >= old(self).program.code@.len()
                },
                Err(e) => {
                    &&& spec_compile_node(*node, old(self).st()) == Err::<CompSt, ()>(())
                    &&& e matches AetherError::CompilerError(_)
                },
            },
        decreases node, 0int,
    {
        let ghost st0 = self.st();
        match node {
            AstNode::Prefix { op, body } => {
                let opc = prefix_opcode(*op);
                self.program.emit_opcode(opc);
                proof {
                    assert(self.st() =~= st_emit(st0, op_bytes(spec_prefix_opcode(*op))));
                    assert(decreases_to!(node => node->Prefix_body));
                }
                self.compile_node(&**body)?;
                match op {
                    PrefixOp::Benchmark => {
                        let ghost st2 = self.st();
                        self.program.emit_opcode(Opcode::BenchmarkEnd);
                        proof {
                            assert(self.st() =~= st_emit(st2, op_bytes(Opcode::BenchmarkEnd)));
                        }
                        Ok(())
                    },
                    _ => Ok(()),
                }
            },
            _ => {
                proof {
                    assert(false);
                }
                Err(AetherError::CompilerError(String::from_str("mismatched node shape")))
            },
        }
    }

    fn lower_pipe(&mut self, node: &AstNode) -> (r: Result<(), AetherError>)
        requires
            node matches AstNode::Pipe { source, operation },
        ensures
            match r {
                Ok(_) => {
                    &&& spec_compile_node(*node, old(self).st()) == Ok::<_, ()>(final(self).st())
                    &&& final(self).loop_stack@ == old(self).loop_stack@
                    &&& final(self).program.code@.len() >= old(self).program.code@.len()
                },
                Err(e) => {
                    &&& spec_compile_node(*node, old(self).st()) == Err::<CompSt, ()>(())
                    &&& e matches AetherError::CompilerError(_)
                },
            },
        decreases node, 0int,
    {
        let ghost st0 = self.st();
        match node {
            AstNode::Pipe { source, operation } => {
                proof {
                    assert(decreases_to!(node => node->Pipe_source));
                }
                self.compile_node(&**source)?;
                proof {
                    assert(decreases_to!(node => node->Pipe_operation));
                }
                self.compile_node(&**operation)

            },
            _ => {
                proof {
                    assert(false);
                }
                Err(AetherError::CompilerError(String::from_str("mismatched node shape")))
            },
        }
    }

}
} // verus!
