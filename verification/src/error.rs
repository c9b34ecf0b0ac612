//! Error types shared by the compiler and the virtual machine.

use vstd::prelude::*;

verus! {

/// Errors that can arise while compiling to or executing Aether bytecode.
///
/// Every fallible operation in this crate returns one of these as a typed
/// value; nothing in the library panics or aborts the host process.
#[derive(Debug, Clone, PartialEq)]
pub enum AetherError {
    /// A problem reported by the tokenizer (produced by an external front end).
    LexerError(String),
    /// A problem reported by the parser (produced by an external front end).
    ParserError(String),
    /// A fault during execution: stack underflow, a type mismatch, division
    /// by zero, a write to an immutable name, the iteration ceiling, or an
    /// explicit program-authored halt.
    RuntimeError(String),
    /// An unrecognized source symbol.
    InvalidSymbol(String),
    /// Input ended where more was expected.
    UnexpectedEof,
    /// An operand had the wrong runtime type.
    TypeError(String),
    /// A failure reading or writing the serialized container.
    IoError(String),
    /// A structural problem in bytes at rest: bad magic, bad version, or an
    /// unmapped opcode byte.
    BytecodeError(String),
    /// A syntax-tree node with no defined lowering.
    CompilerError(String),
}

impl AetherError {
    /// A human-readable description of the error, in place of `Display`.
    pub fn message(&self) -> (r: String)
        ensures
            match self {
                AetherError::LexerError(m) => r@ == "Lexer error: "@ + m@,
                AetherError::ParserError(m) => r@ == "Parser error: "@ + m@,
                AetherError::RuntimeError(m) => r@ == "Runtime error: "@ + m@,
                AetherError::InvalidSymbol(m) => r@ == "Invalid symbol: "@ + m@,
                AetherError::UnexpectedEof => r@ == "Unexpected end of input"@,
                AetherError::TypeError(m) => r@ == "Type error: "@ + m@,
                AetherError::IoError(m) => r@ == "IO error: "@ + m@,
                AetherError::BytecodeError(m) => r@ == "Bytecode error: "@ + m@,
                AetherError::CompilerError(m) => r@ == "Compiler error: "@ + m@,
            },
    {
        match self {
            AetherError::LexerError(m) => String::from_str("Lexer error: ").concat(m.as_str()),
            AetherError::ParserError(m) => String::from_str("Parser error: ").concat(m.as_str()),
            AetherError::RuntimeError(m) => String::from_str("Runtime error: ").concat(m.as_str()),
            AetherError::InvalidSymbol(m) => String::from_str("Invalid symbol: ").concat(m.as_str()),
            AetherError::UnexpectedEof => String::from_str("Unexpected end of input"),
            AetherError::TypeError(m) => String::from_str("Type error: ").concat(m.as_str()),
            AetherError::IoError(m) => String::from_str("IO error: ").concat(m.as_str()),
            AetherError::BytecodeError(m) => String::from_str("Bytecode error: ").concat(m.as_str()),
            AetherError::CompilerError(m) => String::from_str("Compiler error: ").concat(m.as_str()),
        }
    }
}

} // verus!
