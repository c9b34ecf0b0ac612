//! Aether bytecode back end: the instruction set and its binary container,
//! the lowering compiler from syntax trees to bytecode, and the stack
//! virtual machine that executes it.

use vstd::prelude::*;

pub mod ast;
pub mod bytecode;
pub mod compiler;
pub mod error;
pub mod laws;
pub mod numeric;
pub mod outside;
pub mod value;
pub mod vm;

pub use ast::AstNode;
pub use ast::BinaryOp;
pub use ast::ComparisonOp;
pub use ast::HttpMethod;
pub use ast::LiteralValue;
pub use ast::NullaryOp;
pub use ast::PrefixOp;
pub use ast::TernaryOp;
pub use ast::UnaryOp;
pub use bytecode::BytecodeProgram;
pub use bytecode::Opcode;
pub use bytecode::MAGIC_0;
pub use bytecode::MAGIC_1;
pub use bytecode::MAGIC_2;
pub use bytecode::MAGIC_3;
pub use bytecode::VERSION_BYTE;
pub use compiler::Compiler;
pub use compiler::PIPE_VARIABLE;
pub use error::AetherError;
pub use value::Value;
pub use value::value_eq;
pub use vm::VM;
pub use vm::DEFAULT_MAX_ITERATIONS;

verus! {

/// Version of the Aether language tooling.
pub const VERSION: &'static str = "1.2.0";

/// Name of the language.
pub const LANGUAGE_NAME: &'static str = "Aether (以太)";

} // verus!
