//! The syntax tree the lowering compiler consumes. It is produced by an
//! external front end; only its shape matters here. Domain operations — the
//! long tail of I/O, math, crypto and networking forms — share three
//! generic shapes: an operation tag plus zero to three child expressions.

use vstd::prelude::*;

verus! {

/// A literal: a UTF-8 string or a 64-bit IEEE-754 number (as bits).
pub enum LiteralValue {
    String(String),
    Number(u64),
}

/// A comparison operator.
#[derive(Debug, Clone, Copy, PartialEq, Eq, Structural)]
pub enum ComparisonOp {
    GreaterThan,
    LessThan,
    GreaterEqual,
    LessEqual,
}

/// A domain operation with no child expression.
#[derive(Debug, Clone, Copy, PartialEq, Eq, Structural)]
pub enum NullaryOp {
    /// Read input.
    Input,
    /// The current datetime.
    DateTime,
    /// A random number.
    Random,
    /// A debug breakpoint.
    Debug,
    /// The end-of-file marker.
    EndOfFile,
    /// The infinity value.
    Infinity,
}

/// A domain operation with one child expression, lowered as the child
/// followed by one opcode.
#[derive(Debug, Clone, Copy, PartialEq, Eq, Structural)]
pub enum UnaryOp {
    Output,
    JsonParse,
    Persist,
    Halt,
    Root,
    Not,
    Hash,
    Await,
    Log,
    Assert,
    Emit,
    Auth,
    FileHandle,
    ReadContent,
    Directory,
    PathResolve,
    DeleteFile,
    EnvVar,
    ProcessCreate,
    ShellExec,
    MemoryAlloc,
    ExitProgram,
    CreateSocket,
    ListenPort,
    ConnectRemote,
    PortNumber,
    CreatePacket,
    Handshake,
    CreateStream,
    CreateBuffer,
    FlushBuffer,
}

/// A domain operation with two child expressions, lowered as both children
/// followed by one opcode.
#[derive(Debug, Clone, Copy, PartialEq, Eq, Structural)]
pub enum BinaryOp {
    Add,
    Subtract,
    Multiply,
    Divide,
    Power,
    Equal,
    NotEqual,
    And,
    Or,
    Approx,
    /// String concatenation, lowered through the joining opcode.
    StringConcat,
    WriteContent,
    AppendContent,
    SetPermission,
    SendSignal,
    Sign,
    SkipBytes,
    Watch,
    RegexMatch,
    Encrypt,
    Decrypt,
}

/// A domain operation with three child expressions.
#[derive(Debug, Clone, Copy, PartialEq, Eq, Structural)]
pub enum TernaryOp {
    VerifySignature,
}

/// A domain operation whose opcode is emitted before its body is lowered.
#[derive(Debug, Clone, Copy, PartialEq, Eq, Structural)]
pub enum PrefixOp {
    Async,
    Thread,
    Lock,
    Benchmark,
}

/// An HTTP request method; requests with a body carry an optional body
/// expression.
#[derive(Debug, Clone, Copy, PartialEq, Eq, Structural)]
pub enum HttpMethod {
    Get,
    Post,
    Put,
    Delete,
    Patch,
    Head,
    Options,
}

/// One node of the syntax tree.
pub enum AstNode {
    /// A literal value.
    Literal(LiteralValue),
    /// A reference to a named variable, or to the implicit pipeline value.
    Variable(String),
    /// A sequence of statements.
    Sequence(Vec<AstNode>),
    /// A pipe: the source value flows into the operation.
    Pipe { source: Box<AstNode>, operation: Box<AstNode> },
    /// Bind the value to a variable while keeping it on the pipeline.
    PipeInto { value: Box<AstNode>, variable: String },
    /// Run the branch only when the condition is absent.
    Guard { condition: Box<AstNode>, then_branch: Box<AstNode> },
    /// A conditional with an optional else branch.
    IfThen {
        condition: Box<AstNode>,
        then_branch: Box<AstNode>,
        else_branch: Option<Box<AstNode>>,
    },
    /// A loop with an optional condition.
    Loop { condition: Option<Box<AstNode>>, body: Box<AstNode> },
    /// Iteration over a collection, binding each element to a variable.
    ForEach { variable: String, collection: Box<AstNode>, body: Box<AstNode> },
    /// A function declaration.
    Function { name: String, body: Box<AstNode> },
    /// An exception region with an optional rescue body.
    TryRescue { try_body: Box<AstNode>, rescue_body: Option<Box<AstNode>> },
    /// Run the body with a bounded number of attempts.
    Retry { max_attempts: Option<u8>, body: Box<AstNode> },
    /// The empty expression.
    Empty,
    /// Bind a name immutably.
    Immutable { name: String, value: Box<AstNode> },
    /// Store a value and take its delta.
    Delta { name: String, value: Box<AstNode> },
    /// Import a module by name.
    Import { module: String },
    /// A named test block.
    Test { name: String, body: Box<AstNode> },
    /// Access a property of an object.
    PropertyAccess { object: Box<AstNode>, property: String },
    /// A comparison of two expressions.
    Comparison { left: Box<AstNode>, operator: ComparisonOp, right: Box<AstNode> },
    /// Split a string by a delimiter (a single space when absent).
    Split { target: Box<AstNode>, delimiter: Option<Box<AstNode>> },
    /// Join elements with a separator (empty when absent).
    Join { elements: Box<AstNode>, separator: Option<Box<AstNode>> },
    /// Reduce the pipeline value with an operation and an initial value.
    Reduce { operation: Box<AstNode>, initial: Box<AstNode> },
    /// Filter the pipeline value by a predicate.
    Filter { predicate: Box<AstNode> },
    /// Mock a target during tests.
    Mock { target: Box<AstNode> },
    /// An array literal.
    ArrayLiteral { elements: Vec<AstNode> },
    /// An object literal.
    ObjectLiteral { pairs: Vec<(String, AstNode)> },
    /// An HTTP request.
    Http {
        method: HttpMethod,
        url: Box<AstNode>,
        body: Option<Box<AstNode>>,
        headers: Option<Box<AstNode>>,
    },
    /// A domain operation with no child.
    Nullary(NullaryOp),
    /// A domain operation with one child.
    Unary { op: UnaryOp, operand: Box<AstNode> },
    /// A domain operation with two children.
    Binary { op: BinaryOp, left: Box<AstNode>, right: Box<AstNode> },
    /// A domain operation with three children.
    Ternary {
        op: TernaryOp,
        first: Box<AstNode>,
        second: Box<AstNode>,
        third: Box<AstNode>,
    },
    /// A domain operation whose opcode precedes its body.
    Prefix { op: PrefixOp, body: Box<AstNode> },
    /// Modulo, a shape with no defined lowering.
    Modulo { left: Box<AstNode>, right: Box<AstNode> },
    /// Length, a shape with no defined lowering.
    Length { value: Box<AstNode> },
    /// Indexing, a shape with no defined lowering.
    Index { target: Box<AstNode>, index: Box<AstNode> },
}

} // verus!
