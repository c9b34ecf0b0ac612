//! The bytecode instruction set and the binary container for Aether
//! programs: a closed set of opcodes with a bijective byte encoding, an
//! append-only instruction buffer with a deduplicated constant pool, and the
//! serialized on-disk layout.

use vstd::prelude::*;
use crate::error::AetherError;

verus! {

/// First magic byte of a serialized program ('A').
pub const MAGIC_0: u8 = 0x41;

/// Second magic byte of a serialized program ('E').
pub const MAGIC_1: u8 = 0x45;

/// Third magic byte of a serialized program ('B').
pub const MAGIC_2: u8 = 0x42;

/// Fourth magic byte of a serialized program (NUL).
pub const MAGIC_3: u8 = 0x00;

/// Bytecode format version.
pub const VERSION_BYTE: u8 = 1;

/// The four-byte magic prefix of a serialized program.
pub open spec fn spec_magic() -> Seq<u8> {
    seq![MAGIC_0, MAGIC_1, MAGIC_2, MAGIC_3]
}

/// Bytecode instruction opcodes: one variant for each instruction kind.
#[derive(Debug, Clone, Copy, PartialEq, Eq, Structural)]
pub enum Opcode {
    PushNull,
    PushBool,
    PushNumber,
    PushString,
    Pop,
    Dup,
    LoadVar,
    StoreVar,
    StoreImmutable,
    Add,
    Sub,
    Mul,
    Div,
    Power,
    Root,
    Equal,
    NotEqual,
    LessThan,
    GreaterThan,
    Approx,
    And,
    Or,
    Not,
    Input,
    Output,
    JsonParse,
    Persist,
    Query,
    Jump,
    JumpIfFalse,
    JumpIfNull,
    Call,
    Return,
    Halt,
    MakeArray,
    MakeObject,
    LoopStart,
    LoopEnd,
    ForEach,
    Filter,
    Reduce,
    Split,
    Join,
    Regex,
    Hash,
    Encrypt,
    Decrypt,
    TryStart,
    TryEnd,
    Retry,
    Async,
    Await,
    DateTime,
    Random,
    Delta,
    Import,
    Log,
    Debug,
    TestStart,
    Assert,
    Mock,
    BenchmarkStart,
    BenchmarkEnd,
    FileHandle,
    FileRead,
    FileWrite,
    FileAppend,
    Directory,
    PathResolve,
    DeleteFile,
    SetPermission,
    HttpGet,
    HttpPost,
    HttpPut,
    HttpDelete,
    HttpPatch,
    HttpHead,
    HttpOptions,
    EnvVar,
    ProcessCreate,
    ShellExec,
    MemoryAlloc,
    ExitProgram,
    SendSignal,
    CreateSocket,
    ListenPort,
    ConnectRemote,
    PortNumber,
    CreatePacket,
    Handshake,
    Sign,
    VerifySignature,
    CreateStream,
    CreateBuffer,
    FlushBuffer,
    EndOfFile,
    SkipBytes,
    Thread,
    Lock,
    Emit,
    Watch,
    RegexMatch,
    Auth,
    PropertyAccess,
    Infinity,
    End,
}

/// The byte value each opcode encodes to. Total and injective over the
/// defined opcode set.
pub open spec fn spec_opcode_byte(op: Opcode) -> u8 {
    match op {
            Opcode::PushNull => 0x00,
            Opcode::PushBool => 0x01,
            Opcode::PushNumber => 0x02,
            Opcode::PushString => 0x03,
            Opcode::Pop => 0x04,
            Opcode::Dup => 0x05,
            Opcode::LoadVar => 0x10,
            Opcode::StoreVar => 0x11,
            Opcode::StoreImmutable => 0x12,
            Opcode::Add => 0x20,
            Opcode::Sub => 0x21,
            Opcode::Mul => 0x22,
            Opcode::Div => 0x23,
            Opcode::Power => 0x24,
            Opcode::Root => 0x25,
            Opcode::Equal => 0x30,
            Opcode::NotEqual => 0x31,
            Opcode::LessThan => 0x32,
            Opcode::GreaterThan => 0x33,
            Opcode::Approx => 0x34,
            Opcode::And => 0x40,
            Opcode::Or => 0x41,
            Opcode::Not => 0x42,
            Opcode::Input => 0x50,
            Opcode::Output => 0x51,
            Opcode::JsonParse => 0x60,
            Opcode::Persist => 0x61,
            Opcode::Query => 0x62,
            Opcode::Jump => 0x70,
            Opcode::JumpIfFalse => 0x71,
            Opcode::JumpIfNull => 0x72,
            Opcode::Call => 0x73,
            Opcode::Return => 0x74,
            Opcode::Halt => 0x75,
            Opcode::MakeArray => 0x80,
            Opcode::MakeObject => 0x81,
            Opcode::LoopStart => 0x90,
            Opcode::LoopEnd => 0x91,
            Opcode::ForEach => 0xA0,
            Opcode::Filter => 0xA1,
            Opcode::Reduce => 0xA2,
            Opcode::Split => 0xA3,
            Opcode::Join => 0xA4,
            Opcode::Regex => 0xA5,
            Opcode::Hash => 0xA6,
            Opcode::Encrypt => 0xA7,
            Opcode::Decrypt => 0xA8,
            Opcode::TryStart => 0xA9,
            Opcode::TryEnd => 0xAA,
            Opcode::Retry => 0xAB,
            Opcode::Async => 0xB0,
            Opcode::Await => 0xB1,
            Opcode::DateTime => 0xC0,
            Opcode::Random => 0xC1,
            Opcode::Delta => 0xC2,
            Opcode::Import => 0xD0,
            Opcode::Log => 0xD1,
            Opcode::Debug => 0xD2,
            Opcode::TestStart => 0xE0,
            Opcode::Assert => 0xE1,
            Opcode::Mock => 0xE2,
            Opcode::BenchmarkStart => 0xE3,
            Opcode::BenchmarkEnd => 0xE4,
            Opcode::FileHandle => 0xF0,
            Opcode::FileRead => 0xF1,
            Opcode::FileWrite => 0xF2,
            Opcode::FileAppend => 0xF3,
            Opcode::Directory => 0xF4,
            Opcode::PathResolve => 0xF5,
            Opcode::DeleteFile => 0xF6,
            Opcode::SetPermission => 0xF7,
            Opcode::HttpGet => 0x52,
            Opcode::HttpPost => 0x53,
            Opcode::HttpPut => 0x54,
            Opcode::HttpDelete => 0x55,
            Opcode::HttpPatch => 0x56,
            Opcode::HttpHead => 0x57,
            Opcode::HttpOptions => 0x58,
            Opcode::EnvVar => 0xD3,
            Opcode::ProcessCreate => 0xD4,
            Opcode::ShellExec => 0xD5,
            Opcode::MemoryAlloc => 0xD6,
            Opcode::ExitProgram => 0xD7,
            Opcode::SendSignal => 0xD8,
            Opcode::CreateSocket => 0x63,
            Opcode::ListenPort => 0x64,
            Opcode::ConnectRemote => 0x65,
            Opcode::PortNumber => 0x66,
            Opcode::CreatePacket => 0x67,
            Opcode::Handshake => 0x68,
            Opcode::Sign => 0xAC,
            Opcode::VerifySignature => 0xAD,
            Opcode::CreateStream => 0x82,
            Opcode::CreateBuffer => 0x83,
            Opcode::FlushBuffer => 0x84,
            Opcode::EndOfFile => 0x85,
            Opcode::SkipBytes => 0x86,
            Opcode::Thread => 0xB2,
            Opcode::Lock => 0xB3,
            Opcode::Emit => 0xB4,
            Opcode::Watch => 0xB5,
            Opcode::RegexMatch => 0x69,
            Opcode::Auth => 0x6A,
            Opcode::PropertyAccess => 0x35,
            Opcode::Infinity => 0x26,
            Opcode::End => 0xFF,
    }
}

/// The opcode a byte decodes to, or `None` for an unmapped byte.
/// Partial inverse of `spec_opcode_byte`.
pub open spec fn spec_opcode_of_byte(byte: u8) -> Option<Opcode> {
    match byte {
        0x00 => Some(Opcode::PushNull),
        0x01 => Some(Opcode::PushBool),
        0x02 => Some(Opcode::PushNumber),
        0x03 => Some(Opcode::PushString),
        0x04 => Some(Opcode::Pop),
        0x05 => Some(Opcode::Dup),
        0x10 => Some(Opcode::LoadVar),
        0x11 => Some(Opcode::StoreVar),
        0x12 => Some(Opcode::StoreImmutable),
        0x20 => Some(Opcode::Add),
        0x21 => Some(Opcode::Sub),
        0x22 => Some(Opcode::Mul),
        0x23 => Some(Opcode::Div),
        0x24 => Some(Opcode::Power),
        0x25 => Some(Opcode::Root),
        0x30 => Some(Opcode::Equal),
        0x31 => Some(Opcode::NotEqual),
        0x32 => Some(Opcode::LessThan),
        0x33 => Some(Opcode::GreaterThan),
        0x34 => Some(Opcode::Approx),
        0x40 => Some(Opcode::And),
        0x41 => Some(Opcode::Or),
        0x42 => Some(Opcode::Not),
        0x50 => Some(Opcode::Input),
        0x51 => Some(Opcode::Output),
        0x60 => Some(Opcode::JsonParse),
        0x61 => Some(Opcode::Persist),
        0x62 => Some(Opcode::Query),
        0x70 => Some(Opcode::Jump),
        0x71 => Some(Opcode::JumpIfFalse),
        0x72 => Some(Opcode::JumpIfNull),
        0x73 => Some(Opcode::Call),
        0x74 => Some(Opcode::Return),
        0x75 => Some(Opcode::Halt),
        0x80 => Some(Opcode::MakeArray),
        0x81 => Some(Opcode::MakeObject),
        0x90 => Some(Opcode::LoopStart),
        0x91 => Some(Opcode::LoopEnd),
        0xA0 => Some(Opcode::ForEach),
        0xA1 => Some(Opcode::Filter),
        0xA2 => Some(Opcode::Reduce),
        0xA3 => Some(Opcode::Split),
        0xA4 => Some(Opcode::Join),
        0xA5 => Some(Opcode::Regex),
        0xA6 => Some(Opcode::Hash),
        0xA7 => Some(Opcode::Encrypt),
        0xA8 => Some(Opcode::Decrypt),
        0xA9 => Some(Opcode::TryStart),
        0xAA => Some(Opcode::TryEnd),
        0xAB => Some(Opcode::Retry),
        0xB0 => Some(Opcode::Async),
        0xB1 => Some(Opcode::Await),
        0xC0 => Some(Opcode::DateTime),
        0xC1 => Some(Opcode::Random),
        0xC2 => Some(Opcode::Delta),
        0xD0 => Some(Opcode::Import),
        0xD1 => Some(Opcode::Log),
        0xD2 => Some(Opcode::Debug),
        0xE0 => Some(Opcode::TestStart),
        0xE1 => Some(Opcode::Assert),
        0xE2 => Some(Opcode::Mock),
        0xE3 => Some(Opcode::BenchmarkStart),
        0xE4 => Some(Opcode::BenchmarkEnd),
        0xF0 => Some(Opcode::FileHandle),
        0xF1 => Some(Opcode::FileRead),
        0xF2 => Some(Opcode::FileWrite),
        0xF3 => Some(Opcode::FileAppend),
        0xF4 => Some(Opcode::Directory),
        0xF5 => Some(Opcode::PathResolve),
        0xF6 => Some(Opcode::DeleteFile),
        0xF7 => Some(Opcode::SetPermission),
        0x52 => Some(Opcode::HttpGet),
        0x53 => Some(Opcode::HttpPost),
        0x54 => Some(Opcode::HttpPut),
        0x55 => Some(Opcode::HttpDelete),
        0x56 => Some(Opcode::HttpPatch),
        0x57 => Some(Opcode::HttpHead),
        0x58 => Some(Opcode::HttpOptions),
        0xD3 => Some(Opcode::EnvVar),
        0xD4 => Some(Opcode::ProcessCreate),
        0xD5 => Some(Opcode::ShellExec),
        0xD6 => Some(Opcode::MemoryAlloc),
        0xD7 => Some(Opcode::ExitProgram),
        0xD8 => Some(Opcode::SendSignal),
        0x63 => Some(Opcode::CreateSocket),
        0x64 => Some(Opcode::ListenPort),
        0x65 => Some(Opcode::ConnectRemote),
        0x66 => Some(Opcode::PortNumber),
        0x67 => Some(Opcode::CreatePacket),
        0x68 => Some(Opcode::Handshake),
        0xAC => Some(Opcode::Sign),
        0xAD => Some(Opcode::VerifySignature),
        0x82 => Some(Opcode::CreateStream),
        0x83 => Some(Opcode::CreateBuffer),
        0x84 => Some(Opcode::FlushBuffer),
        0x85 => Some(Opcode::EndOfFile),
        0x86 => Some(Opcode::SkipBytes),
        0xB2 => Some(Opcode::Thread),
        0xB3 => Some(Opcode::Lock),
        0xB4 => Some(Opcode::Emit),
        0xB5 => Some(Opcode::Watch),
        0x69 => Some(Opcode::RegexMatch),
        0x6A => Some(Opcode::Auth),
        0x35 => Some(Opcode::PropertyAccess),
        0x26 => Some(Opcode::Infinity),
        0xFF => Some(Opcode::End),
        _ => None,
    }
}

impl Opcode {
    /// Encode this opcode as its one-byte value.
    pub fn to_byte(&self) -> (r: u8)
        ensures
            r == spec_opcode_byte(*self),
    {
        match self {
            Opcode::PushNull => 0x00,
            Opcode::PushBool => 0x01,
            Opcode::PushNumber => 0x02,
            Opcode::PushString => 0x03,
            Opcode::Pop => 0x04,
            Opcode::Dup => 0x05,
            Opcode::LoadVar => 0x10,
            Opcode::StoreVar => 0x11,
            Opcode::StoreImmutable => 0x12,
            Opcode::Add => 0x20,
            Opcode::Sub => 0x21,
            Opcode::Mul => 0x22,
            Opcode::Div => 0x23,
            Opcode::Power => 0x24,
            Opcode::Root => 0x25,
            Opcode::Equal => 0x30,
            Opcode::NotEqual => 0x31,
            Opcode::LessThan => 0x32,
            Opcode::GreaterThan => 0x33,
            Opcode::Approx => 0x34,
            Opcode::And => 0x40,
            Opcode::Or => 0x41,
            Opcode::Not => 0x42,
            Opcode::Input => 0x50,
            Opcode::Output => 0x51,
            Opcode::JsonParse => 0x60,
            Opcode::Persist => 0x61,
            Opcode::Query => 0x62,
            Opcode::Jump => 0x70,
            Opcode::JumpIfFalse => 0x71,
            Opcode::JumpIfNull => 0x72,
            Opcode::Call => 0x73,
            Opcode::Return => 0x74,
            Opcode::Halt => 0x75,
            Opcode::MakeArray => 0x80,
            Opcode::MakeObject => 0x81,
            Opcode::LoopStart => 0x90,
            Opcode::LoopEnd => 0x91,
            Opcode::ForEach => 0xA0,
            Opcode::Filter => 0xA1,
            Opcode::Reduce => 0xA2,
            Opcode::Split => 0xA3,
            Opcode::Join => 0xA4,
            Opcode::Regex => 0xA5,
            Opcode::Hash => 0xA6,
            Opcode::Encrypt => 0xA7,
            Opcode::Decrypt => 0xA8,
            Opcode::TryStart => 0xA9,
            Opcode::TryEnd => 0xAA,
            Opcode::Retry => 0xAB,
            Opcode::Async => 0xB0,
            Opcode::Await => 0xB1,
            Opcode::DateTime => 0xC0,
            Opcode::Random => 0xC1,
            Opcode::Delta => 0xC2,
            Opcode::Import => 0xD0,
            Opcode::Log => 0xD1,
            Opcode::Debug => 0xD2,
            Opcode::TestStart => 0xE0,
            Opcode::Assert => 0xE1,
            Opcode::Mock => 0xE2,
            Opcode::BenchmarkStart => 0xE3,
            Opcode::BenchmarkEnd => 0xE4,
            Opcode::FileHandle => 0xF0,
            Opcode::FileRead => 0xF1,
            Opcode::FileWrite => 0xF2,
            Opcode::FileAppend => 0xF3,
            Opcode::Directory => 0xF4,
            Opcode::PathResolve => 0xF5,
            Opcode::DeleteFile => 0xF6,
            Opcode::SetPermission => 0xF7,
            Opcode::HttpGet => 0x52,
            Opcode::HttpPost => 0x53,
            Opcode::HttpPut => 0x54,
            Opcode::HttpDelete => 0x55,
            Opcode::HttpPatch => 0x56,
            Opcode::HttpHead => 0x57,
            Opcode::HttpOptions => 0x58,
            Opcode::EnvVar => 0xD3,
            Opcode::ProcessCreate => 0xD4,
            Opcode::ShellExec => 0xD5,
            Opcode::MemoryAlloc => 0xD6,
            Opcode::ExitProgram => 0xD7,
            Opcode::SendSignal => 0xD8,
            Opcode::CreateSocket => 0x63,
            Opcode::ListenPort => 0x64,
            Opcode::ConnectRemote => 0x65,
            Opcode::PortNumber => 0x66,
            Opcode::CreatePacket => 0x67,
            Opcode::Handshake => 0x68,
            Opcode::Sign => 0xAC,
            Opcode::VerifySignature => 0xAD,
            Opcode::CreateStream => 0x82,
            Opcode::CreateBuffer => 0x83,
            Opcode::FlushBuffer => 0x84,
            Opcode::EndOfFile => 0x85,
            Opcode::SkipBytes => 0x86,
            Opcode::Thread => 0xB2,
            Opcode::Lock => 0xB3,
            Opcode::Emit => 0xB4,
            Opcode::Watch => 0xB5,
            Opcode::RegexMatch => 0x69,
            Opcode::Auth => 0x6A,
            Opcode::PropertyAccess => 0x35,
            Opcode::Infinity => 0x26,
            Opcode::End => 0xFF,
        }
    }

    /// Decode a byte back into an opcode. Every unmapped byte is rejected
    /// with a codec error; it is never treated as a different opcode.
    pub fn from_byte(byte: u8) -> (r: Result<Self, AetherError>)
        ensures
            match spec_opcode_of_byte(byte) {
                Some(op) => r == Ok::<Opcode, AetherError>(op),
                None => r matches Err(AetherError::BytecodeError(_)),
            },
    {
        match byte {
            0x00 => Ok(Opcode::PushNull),
            0x01 => Ok(Opcode::PushBool),
            0x02 => Ok(Opcode::PushNumber),
            0x03 => Ok(Opcode::PushString),
            0x04 => Ok(Opcode::Pop),
            0x05 => Ok(Opcode::Dup),
            0x10 => Ok(Opcode::LoadVar),
            0x11 => Ok(Opcode::StoreVar),
            0x12 => Ok(Opcode::StoreImmutable),
            0x20 => Ok(Opcode::Add),
            0x21 => Ok(Opcode::Sub),
            0x22 => Ok(Opcode::Mul),
            0x23 => Ok(Opcode::Div),
            0x24 => Ok(Opcode::Power),
            0x25 => Ok(Opcode::Root),
            0x30 => Ok(Opcode::Equal),
            0x31 => Ok(Opcode::NotEqual),
            0x32 => Ok(Opcode::LessThan),
            0x33 => Ok(Opcode::GreaterThan),
            0x34 => Ok(Opcode::Approx),
            0x40 => Ok(Opcode::And),
            0x41 => Ok(Opcode::Or),
            0x42 => Ok(Opcode::Not),
            0x50 => Ok(Opcode::Input),
            0x51 => Ok(Opcode::Output),
            0x60 => Ok(Opcode::JsonParse),
            0x61 => Ok(Opcode::Persist),
            0x62 => Ok(Opcode::Query),
            0x70 => Ok(Opcode::Jump),
            0x71 => Ok(Opcode::JumpIfFalse),
            0x72 => Ok(Opcode::JumpIfNull),
            0x73 => Ok(Opcode::Call),
            0x74 => Ok(Opcode::Return),
            0x75 => Ok(Opcode::Halt),
            0x80 => Ok(Opcode::MakeArray),
            0x81 => Ok(Opcode::MakeObject),
            0x90 => Ok(Opcode::LoopStart),
            0x91 => Ok(Opcode::LoopEnd),
            0xA0 => Ok(Opcode::ForEach),
            0xA1 => Ok(Opcode::Filter),
            0xA2 => Ok(Opcode::Reduce),
            0xA3 => Ok(Opcode::Split),
            0xA4 => Ok(Opcode::Join),
            0xA5 => Ok(Opcode::Regex),
            0xA6 => Ok(Opcode::Hash),
            0xA7 => Ok(Opcode::Encrypt),
            0xA8 => Ok(Opcode::Decrypt),
            0xA9 => Ok(Opcode::TryStart),
            0xAA => Ok(Opcode::TryEnd),
            0xAB => Ok(Opcode::Retry),
            0xB0 => Ok(Opcode::Async),
            0xB1 => Ok(Opcode::Await),
            0xC0 => Ok(Opcode::DateTime),
            0xC1 => Ok(Opcode::Random),
            0xC2 => Ok(Opcode::Delta),
            0xD0 => Ok(Opcode::Import),
            0xD1 => Ok(Opcode::Log),
            0xD2 => Ok(Opcode::Debug),
            0xE0 => Ok(Opcode::TestStart),
            0xE1 => Ok(Opcode::Assert),
            0xE2 => Ok(Opcode::Mock),
            0xE3 => Ok(Opcode::BenchmarkStart),
            0xE4 => Ok(Opcode::BenchmarkEnd),
            0xF0 => Ok(Opcode::FileHandle),
            0xF1 => Ok(Opcode::FileRead),
            0xF2 => Ok(Opcode::FileWrite),
            0xF3 => Ok(Opcode::FileAppend),
            0xF4 => Ok(Opcode::Directory),
            0xF5 => Ok(Opcode::PathResolve),
            0xF6 => Ok(Opcode::DeleteFile),
            0xF7 => Ok(Opcode::SetPermission),
            0x52 => Ok(Opcode::HttpGet),
            0x53 => Ok(Opcode::HttpPost),
            0x54 => Ok(Opcode::HttpPut),
            0x55 => Ok(Opcode::HttpDelete),
            0x56 => Ok(Opcode::HttpPatch),
            0x57 => Ok(Opcode::HttpHead),
            0x58 => Ok(Opcode::HttpOptions),
            0xD3 => Ok(Opcode::EnvVar),
            0xD4 => Ok(Opcode::ProcessCreate),
            0xD5 => Ok(Opcode::ShellExec),
            0xD6 => Ok(Opcode::MemoryAlloc),
            0xD7 => Ok(Opcode::ExitProgram),
            0xD8 => Ok(Opcode::SendSignal),
            0x63 => Ok(Opcode::CreateSocket),
            0x64 => Ok(Opcode::ListenPort),
            0x65 => Ok(Opcode::ConnectRemote),
            0x66 => Ok(Opcode::PortNumber),
            0x67 => Ok(Opcode::CreatePacket),
            0x68 => Ok(Opcode::Handshake),
            0xAC => Ok(Opcode::Sign),
            0xAD => Ok(Opcode::VerifySignature),
            0x82 => Ok(Opcode::CreateStream),
            0x83 => Ok(Opcode::CreateBuffer),
            0x84 => Ok(Opcode::FlushBuffer),
            0x85 => Ok(Opcode::EndOfFile),
            0x86 => Ok(Opcode::SkipBytes),
            0xB2 => Ok(Opcode::Thread),
            0xB3 => Ok(Opcode::Lock),
            0xB4 => Ok(Opcode::Emit),
            0xB5 => Ok(Opcode::Watch),
            0x69 => Ok(Opcode::RegexMatch),
            0x6A => Ok(Opcode::Auth),
            0x35 => Ok(Opcode::PropertyAccess),
            0x26 => Ok(Opcode::Infinity),
            0xFF => Ok(Opcode::End),
            _ => Err(AetherError::BytecodeError(String::from_str("unknown opcode byte"))),
        }
    }
}

/// Law: decoding the encoding of any defined opcode yields that opcode back.
pub proof fn lemma_opcode_round_trip(op: Opcode)
    ensures
        spec_opcode_of_byte(spec_opcode_byte(op)) == Some(op),
{
}

/// Law: the byte encoding is injective over the defined opcode set.
pub proof fn lemma_opcode_byte_injective(a: Opcode, b: Opcode)
    requires
        spec_opcode_byte(a) == spec_opcode_byte(b),
    ensures
        a == b,
{
    lemma_opcode_round_trip(a);
    lemma_opcode_round_trip(b);
}

/// Law: decoding never substitutes: a byte that decodes at all decodes to
/// the unique opcode that encodes to it.
pub proof fn lemma_opcode_decode_encode(byte: u8, op: Opcode)
    requires
        spec_opcode_of_byte(byte) == Some(op),
    ensures
        spec_opcode_byte(op) == byte,
{
}

/// The big-endian byte encoding of a `u32`.
pub open spec fn spec_u32_be(v: u32) -> Seq<u8> {
    seq![(v >> 24) as u8, (v >> 16) as u8, (v >> 8) as u8, v as u8]
}

/// The `u32` read back from four big-endian bytes.
pub open spec fn spec_u32_from_be(s: Seq<u8>) -> u32
    recommends
        s.len() == 4,
{
    (((s[0] as u32) << 24) | ((s[1] as u32) << 16) | ((s[2] as u32) << 8) | (s[3] as u32)) as u32
}

/// Law: reading back the four big-endian bytes of a `u32` yields the value.
pub proof fn lemma_u32_be_round_trip(v: u32)
    ensures
        spec_u32_from_be(spec_u32_be(v)) == v,
{
    assert((((((v >> 24) as u8) as u32) << 24) | ((((v >> 16) as u8) as u32) << 16) | ((((v
        >> 8) as u8) as u32) << 8) | (((v as u8) as u32))) == v) by (bit_vector);
}

/// The big-endian byte encoding of a `u64`.
pub open spec fn spec_u64_be(v: u64) -> Seq<u8> {
    seq![
        (v >> 56) as u8,
        (v >> 48) as u8,
        (v >> 40) as u8,
        (v >> 32) as u8,
        (v >> 24) as u8,
        (v >> 16) as u8,
        (v >> 8) as u8,
        v as u8,
    ]
}

/// The `u64` read back from eight big-endian bytes.
pub open spec fn spec_u64_from_be(s: Seq<u8>) -> u64
    recommends
        s.len() == 8,
{
    (((s[0] as u64) << 56) | ((s[1] as u64) << 48) | ((s[2] as u64) << 40) | ((s[3] as u64)
        << 32) | ((s[4] as u64) << 24) | ((s[5] as u64) << 16) | ((s[6] as u64) << 8) | (
    s[7] as u64)) as u64
}

/// Law: reading back the eight big-endian bytes of a `u64` yields the value.
pub proof fn lemma_u64_be_round_trip(v: u64)
    ensures
        spec_u64_from_be(spec_u64_be(v)) == v,
{
    assert((((((v >> 56) as u8) as u64) << 56) | ((((v >> 48) as u8) as u64) << 48) | ((((v
        >> 40) as u8) as u64) << 40) | ((((v >> 32) as u8) as u64) << 32) | ((((v
        >> 24) as u8) as u64) << 24) | ((((v >> 16) as u8) as u64) << 16) | ((((v
        >> 8) as u8) as u64) << 8) | (((v as u8) as u64))) == v) by (bit_vector);
}

/// Append the four big-endian bytes of `v` to `out`.
pub fn push_u32_be(out: &mut Vec<u8>, v: u32)
    ensures
        final(out)@ == old(out)@ + spec_u32_be(v),
{
    out.push((v >> 24) as u8);
    out.push((v >> 16) as u8);
    out.push((v >> 8) as u8);
    out.push(v as u8);
    assert(final(out)@ =~= old(out)@ + spec_u32_be(v));
}

/// Append the eight big-endian bytes of `v` to `out`.
pub fn push_u64_be(out: &mut Vec<u8>, v: u64)
    ensures
        final(out)@ == old(out)@ + spec_u64_be(v),
{
    out.push((v >> 56) as u8);
    out.push((v >> 48) as u8);
    out.push((v >> 40) as u8);
    out.push((v >> 32) as u8);
    out.push((v >> 24) as u8);
    out.push((v >> 16) as u8);
    out.push((v >> 8) as u8);
    out.push(v as u8);
    assert(final(out)@ =~= old(out)@ + spec_u64_be(v));
}

/// Read a `u32` from four big-endian bytes at `pos`.
pub fn read_u32_be(bytes: &[u8], pos: usize) -> (r: u32)
    requires
        pos + 4 <= bytes@.len(),
    ensures
        r == spec_u32_from_be(bytes@.subrange(pos as int, pos as int + 4)),
{
    let r = ((bytes[pos] as u32) << 24) | ((bytes[pos + 1] as u32) << 16) | ((bytes[pos
        + 2] as u32) << 8) | (bytes[pos + 3] as u32);
    proof {
        let s = bytes@.subrange(pos as int, pos as int + 4);
        assert(s[0] == bytes@[pos as int] && s[1] == bytes@[pos as int + 1] && s[2]
            == bytes@[pos as int + 2] && s[3] == bytes@[pos as int + 3]);
    }
    r
}

/// Read a `u64` from eight big-endian bytes at `pos`.
pub fn read_u64_be(bytes: &[u8], pos: usize) -> (r: u64)
    requires
        pos + 8 <= bytes@.len(),
    ensures
        r == spec_u64_from_be(bytes@.subrange(pos as int, pos as int + 8)),
{
    let r = ((bytes[pos] as u64) << 56) | ((bytes[pos + 1] as u64) << 48) | ((bytes[pos
        + 2] as u64) << 40) | ((bytes[pos + 3] as u64) << 32) | ((bytes[pos + 4] as u64)
        << 24) | ((bytes[pos + 5] as u64) << 16) | ((bytes[pos + 6] as u64) << 8) | (bytes[pos
        + 7] as u64);
    proof {
        let s = bytes@.subrange(pos as int, pos as int + 8);
        assert(forall|k: int| 0 <= k < 8 ==> s[k] == bytes@[pos as int + k]);
    }
    r
}

/// The least index at which `v` occurs in `cs`, if any.
pub open spec fn spec_const_lookup(cs: Seq<Seq<char>>, v: Seq<char>) -> Option<int>
    decreases cs.len(),
{
    if cs.len() == 0 {
        None
    } else if cs[0] == v {
        Some(0)
    } else {
        match spec_const_lookup(cs.drop_first(), v) {
            Some(i) => Some(i + 1),
            None => None,
        }
    }
}

/// What inserting `v` into the pool `cs` yields: the unchanged pool and the
/// existing index when `v` is already present, else the grown pool and the
/// fresh index.
pub open spec fn spec_add_constant(cs: Seq<Seq<char>>, v: Seq<char>) -> (Seq<Seq<char>>, int) {
    match spec_const_lookup(cs, v) {
        Some(i) => (cs, i),
        None => (cs.push(v), cs.len() as int),
    }
}

/// No two distinct pool indices address equal strings.
pub open spec fn spec_consts_unique(cs: Seq<Seq<char>>) -> bool {
    forall|i: int, j: int| 0 <= i < j < cs.len() ==> cs[i] != cs[j]
}

proof fn lemma_const_lookup_found(cs: Seq<Seq<char>>, v: Seq<char>, i: int)
    requires
        0 <= i < cs.len(),
        cs[i] == v,
        forall|j: int| 0 <= j < i ==> cs[j] != v,
    ensures
        spec_const_lookup(cs, v) == Some(i),
    decreases cs.len(),
{
    if i > 0 {
        assert(forall|j: int| 0 <= j < i - 1 ==> cs.drop_first()[j] == cs[j + 1]);
        lemma_const_lookup_found(cs.drop_first(), v, i - 1);
    }
}

proof fn lemma_const_lookup_missing(cs: Seq<Seq<char>>, v: Seq<char>)
    requires
        forall|j: int| 0 <= j < cs.len() ==> cs[j] != v,
    ensures
        spec_const_lookup(cs, v) == None::<int>,
    decreases cs.len(),
{
    if cs.len() > 0 {
        lemma_const_lookup_missing(cs.drop_first(), v);
    }
}

/// A found index is in range and addresses `v`, and nothing before it does.
pub proof fn lemma_const_lookup_sound(cs: Seq<Seq<char>>, v: Seq<char>)
    ensures
        match spec_const_lookup(cs, v) {
            Some(i) => 0 <= i < cs.len() && cs[i] == v && (forall|j: int|
                0 <= j < i ==> cs[j] != v),
            None => forall|j: int| 0 <= j < cs.len() ==> cs[j] != v,
        },
    decreases cs.len(),
{
    if cs.len() > 0 {
        lemma_const_lookup_sound(cs.drop_first(), v);
        assert(forall|j: int| 1 <= j < cs.len() ==> cs[j] == cs.drop_first()[j - 1]);
    }
}

/// Law (constant pool round trip): inserting a string already in the pool
/// returns the index the first insertion returned, and does not grow the
/// pool.
pub proof fn lemma_constant_pool_round_trip(cs: Seq<Seq<char>>, v: Seq<char>)
    ensures
        spec_add_constant(spec_add_constant(cs, v).0, v).0 == spec_add_constant(cs, v).0,
        spec_add_constant(spec_add_constant(cs, v).0, v).1 == spec_add_constant(cs, v).1,
        spec_add_constant(cs, v).0.len() <= cs.len() + 1,
{
    lemma_const_lookup_sound(cs, v);
    match spec_const_lookup(cs, v) {
        Some(i) => {},
        None => {
            let cs1 = cs.push(v);
            lemma_const_lookup_found(cs1, v, cs.len() as int);
        },
    }
}

/// Law: insertion keeps the pool deduplicated.
pub proof fn lemma_add_constant_keeps_unique(cs: Seq<Seq<char>>, v: Seq<char>)
    requires
        spec_consts_unique(cs),
    ensures
        spec_consts_unique(spec_add_constant(cs, v).0),
{
    lemma_const_lookup_sound(cs, v);
}

/// A bytecode program: a deduplicated pool of string constants and a flat
/// instruction stream addressed by absolute byte offsets.
#[derive(Debug, Clone)]
pub struct BytecodeProgram {
    /// Constant pool (strings).
    pub constants: Vec<String>,
    /// Bytecode instructions.
    pub code: Vec<u8>,
}

impl BytecodeProgram {
    /// Create a new empty bytecode program.
    pub fn new() -> (r: Self)
        ensures
            r.constants.deep_view() == Seq::<Seq<char>>::empty(),
            r.code@ == Seq::<u8>::empty(),
    {
        let r = BytecodeProgram { constants: Vec::new(), code: Vec::new() };
        proof {
            assert(r.constants.deep_view() =~= Seq::<Seq<char>>::empty());
        }
        r
    }

    /// Add a constant to the pool and return its index: the existing index
    /// when an equal string is already present, else the index of the fresh
    /// entry appended at the end.
    pub fn add_constant(&mut self, value: String) -> (r: u32)
        requires
            old(self).constants@.len() < 0xFFFF_FFFF,
        ensures
            final(self).constants.deep_view() == spec_add_constant(
                old(self).constants.deep_view(),
                value@,
            ).0,
            r as int == spec_add_constant(old(self).constants.deep_view(), value@).1,
            final(self).code == old(self).code,
    {
        let ghost cs = self.constants.deep_view();
        let mut i: usize = 0;
        while i < self.constants.len()
            invariant
                0 <= i <= self.constants.len(),
                self == old(self),
                cs == self.constants.deep_view(),
                cs.len() == self.constants.len(),
                cs.len() < 0xFFFF_FFFF,
                forall|j: int| 0 <= j < i ==> cs[j] != value@,
            decreases self.constants.len() - i,
        {
            if self.constants[i] == value {
                proof {
                    assert(cs[i as int] == self.constants[i as int]@);
                    lemma_const_lookup_found(cs, value@, i as int);
                    assert(spec_add_constant(old(self).constants.deep_view(), value@).1
                        == i as int);
                    assert(i < 0xFFFF_FFFF);
                }
                return i as u32;
            }
            proof {
                assert(cs[i as int] == self.constants[i as int]@);
            }
            i = i + 1;
        }
        proof {
            lemma_const_lookup_missing(cs, value@);
        }
        let idx = self.constants.len() as u32;
        self.constants.push(value);
        proof {
            assert(self.constants.deep_view() =~= cs.push(value@));
        }
        idx
    }

    /// Append an opcode byte to the instruction stream.
    pub fn emit_opcode(&mut self, opcode: Opcode)
        ensures
            final(self).code@ == old(self).code@ + seq![spec_opcode_byte(opcode)],
            final(self).constants == old(self).constants,
    {
        let b = opcode.to_byte();
        self.code.push(b);
        assert(final(self).code@ =~= old(self).code@ + seq![spec_opcode_byte(opcode)]);
    }

    /// Append one raw byte to the instruction stream.
    pub fn emit_u8(&mut self, value: u8)
        ensures
            final(self).code@ == old(self).code@ + seq![value],
            final(self).constants == old(self).constants,
    {
        self.code.push(value);
        assert(final(self).code@ =~= old(self).code@ + seq![value]);
    }

    /// Append a `u32` operand, big-endian.
    pub fn emit_u32(&mut self, value: u32)
        ensures
            final(self).code@ == old(self).code@ + spec_u32_be(value),
            final(self).constants == old(self).constants,
    {
        push_u32_be(&mut self.code, value);
    }

    /// Append a number operand: the eight big-endian bytes of its IEEE-754
    /// bit pattern.
    pub fn emit_num_bits(&mut self, bits: u64)
        ensures
            final(self).code@ == old(self).code@ + spec_u64_be(bits),
            final(self).constants == old(self).constants,
    {
        push_u64_be(&mut self.code, bits);
    }

    /// The offset the next emitted byte will occupy.
    pub fn position(&self) -> (r: usize)
        ensures
            r == self.code@.len(),
    {
        self.code.len()
    }

    /// Overwrite the four bytes at `position` (a slot previously reserved by
    /// a four-byte emit) with the big-endian encoding of `value`. Patching
    /// never changes the length of the instruction stream.
    pub fn patch_u32(&mut self, position: usize, value: u32)
        requires
            position + 4 <= old(self).code@.len(),
        ensures
            final(self).code@ == old(self).code@.subrange(0, position as int) + spec_u32_be(
                value,
            ) + old(self).code@.subrange(position as int + 4, old(self).code@.len() as int),
            final(self).code@.len() == old(self).code@.len(),
            final(self).constants == old(self).constants,
    {
        let n = self.code.len();
        self.code[position] = #[verifier::truncate] ((value >> 24) as u8);
        self.code[position + 1] = #[verifier::truncate] ((value >> 16) as u8);
        self.code[position + 2] = #[verifier::truncate] ((value >> 8) as u8);
        self.code[position + 3] = #[verifier::truncate] (value as u8);
        assert(final(self).code@ =~= old(self).code@.subrange(0, position as int) + spec_u32_be(
            value,
        ) + old(self).code@.subrange(position as int + 4, old(self).code@.len() as int));
    }
}

/// The serialized form of one constant: a four-byte big-endian length
/// followed by that many UTF-8 bytes.
pub open spec fn spec_const_entry(c: Seq<char>) -> Seq<u8> {
    spec_u32_be(vstd::utf8::encode_utf8(c).len() as u32) + vstd::utf8::encode_utf8(c)
}

/// The serialized form of the whole constant pool, in order.
pub open spec fn spec_consts_bytes(cs: Seq<Seq<char>>) -> Seq<u8>
    decreases cs.len(),
{
    if cs.len() == 0 {
        Seq::<u8>::empty()
    } else {
        spec_const_entry(cs[0]) + spec_consts_bytes(cs.drop_first())
    }
}

/// The byte-exact serialized container: magic, version, constant count,
/// the constants, code length, code. All multi-byte fields big-endian,
/// no padding.
pub open spec fn spec_serialize(cs: Seq<Seq<char>>, code: Seq<u8>) -> Seq<u8> {
    spec_magic() + seq![VERSION_BYTE] + spec_u32_be(cs.len() as u32) + spec_consts_bytes(cs)
        + spec_u32_be(code.len() as u32) + code
}

proof fn lemma_consts_bytes_push(cs: Seq<Seq<char>>, x: Seq<char>)
    ensures
        spec_consts_bytes(cs.push(x)) == spec_consts_bytes(cs) + spec_const_entry(x),
    decreases cs.len(),
{
    if cs.len() == 0 {
        assert(cs.push(x).drop_first() =~= cs);
        assert(spec_consts_bytes(cs.push(x)) =~= spec_consts_bytes(cs) + spec_const_entry(x));
    } else {
        lemma_consts_bytes_push(cs.drop_first(), x);
        assert(cs.push(x).drop_first() =~= cs.drop_first().push(x));
        assert(spec_consts_bytes(cs.push(x)) =~= spec_consts_bytes(cs) + spec_const_entry(x));
    }
}

/// How a malformed container fails to parse.
#[derive(Debug, Clone, Copy, PartialEq, Eq, Structural)]
pub enum FormatFault {
    /// The input ended before a declared length was satisfied.
    Truncated,
    /// The four-byte magic prefix did not match.
    BadMagic,
    /// The version byte did not match the current format version.
    BadVersion,
    /// A constant's bytes were not valid UTF-8.
    BadUtf8,
}

/// Parse `n` length-prefixed constants starting at `pos`, accumulating onto
/// `acc`; yields the constants and the position after them.
pub open spec fn spec_parse_consts(
    bytes: Seq<u8>,
    pos: int,
    n: nat,
    acc: Seq<Seq<char>>,
) -> Result<(Seq<Seq<char>>, int), FormatFault>
    decreases n,
{
    if n == 0 {
        Ok((acc, pos))
    } else if pos + 4 > bytes.len() {
        Err(FormatFault::Truncated)
    } else {
        let len = spec_u32_from_be(bytes.subrange(pos, pos + 4)) as int;
        if pos + 4 + len > bytes.len() {
            Err(FormatFault::Truncated)
        } else {
            let sb = bytes.subrange(pos + 4, pos + 4 + len);
            if vstd::utf8::valid_utf8(sb) {
                spec_parse_consts(
                    bytes,
                    pos + 4 + len,
                    (n - 1) as nat,
                    acc.push(vstd::utf8::decode_utf8(sb)),
                )
            } else {
                Err(FormatFault::BadUtf8)
            }
        }
    }
}

/// What deserializing a byte stream yields: the constants and code of the
/// program it holds, or the first fault found. Bytes after the declared
/// code length are ignored.
pub open spec fn spec_deserialize(bytes: Seq<u8>) -> Result<
    (Seq<Seq<char>>, Seq<u8>),
    FormatFault,
> {
    if bytes.len() < 4 {
        Err(FormatFault::Truncated)
    } else if bytes.subrange(0, 4) != spec_magic() {
        Err(FormatFault::BadMagic)
    } else if bytes.len() < 5 {
        Err(FormatFault::Truncated)
    } else if bytes[4] != VERSION_BYTE {
        Err(FormatFault::BadVersion)
    } else if bytes.len() < 9 {
        Err(FormatFault::Truncated)
    } else {
        let n = spec_u32_from_be(bytes.subrange(5, 9));
        match spec_parse_consts(bytes, 9, n as nat, Seq::empty()) {
            Err(e) => Err(e),
            Ok((cs, pos)) => {
                if pos + 4 > bytes.len() {
                    Err(FormatFault::Truncated)
                } else {
                    let m = spec_u32_from_be(bytes.subrange(pos, pos + 4)) as int;
                    if pos + 4 + m > bytes.len() {
                        Err(FormatFault::Truncated)
                    } else {
                        Ok((cs, bytes.subrange(pos + 4, pos + 4 + m)))
                    }
                }
            },
        }
    }
}

/// Relies on `String::from_utf8`: per its documentation it returns the
/// string when the bytes are valid UTF-8 and an error otherwise.
pub assume_specification[ std::string::String::from_utf8 ](v: Vec<u8>) -> (r: Result<
    std::string::String,
    std::string::FromUtf8Error,
>)
    ensures
        r matches Ok(s) ==> vstd::utf8::valid_utf8(v@) && s@ == vstd::utf8::decode_utf8(v@),
        r matches Err(_) ==> !vstd::utf8::valid_utf8(v@),
;

#[verifier::external_type_specification]
#[verifier::external_body]
pub struct ExFromUtf8Error(std::string::FromUtf8Error);

impl BytecodeProgram {
    /// Serialize this program to its byte-exact on-disk form.
    pub fn serialize(&self) -> (r: Vec<u8>)
        requires
            self.constants@.len() < 0x1_0000_0000,
            self.code@.len() < 0x1_0000_0000,
            forall|i: int|
                0 <= i < self.constants.deep_view().len() ==> vstd::utf8::encode_utf8(
                    #[trigger] self.constants.deep_view()[i],
                ).len() < 0x1_0000_0000,
        ensures
            r@ == spec_serialize(self.constants.deep_view(), self.code@),
    {
        let ghost cs = self.constants.deep_view();
        let mut out: Vec<u8> = Vec::new();
        out.push(MAGIC_0);
        out.push(MAGIC_1);
        out.push(MAGIC_2);
        out.push(MAGIC_3);
        out.push(VERSION_BYTE);
        let n = self.constants.len() as u32;
        push_u32_be(&mut out, n);
        let ghost hdr = spec_magic() + seq![VERSION_BYTE] + spec_u32_be(n);
        assert(out@ =~= hdr);
        assert(cs.take(0) =~= Seq::<Seq<char>>::empty());
        let mut i: usize = 0;
        while i < self.constants.len()
            invariant
                0 <= i <= self.constants.len(),
                cs == self.constants.deep_view(),
                cs.len() == self.constants.len(),
                cs.len() < 0x1_0000_0000,
                forall|j: int|
                    0 <= j < cs.len() ==> vstd::utf8::encode_utf8(#[trigger] cs[j]).len()
                        < 0x1_0000_0000,
                out@ == hdr + spec_consts_bytes(cs.take(i as int)),
            decreases self.constants.len() - i,
        {
            let s = &self.constants[i];
            let bytes = s.as_str().as_bytes();
            proof {
                assert(cs[i as int] == self.constants[i as int]@);
                assert(bytes@ == vstd::utf8::encode_utf8(cs[i as int]));
            }
            let blen = bytes.len() as u32;
            push_u32_be(&mut out, blen);
            out.extend_from_slice(bytes);
            proof {
                assert(cs.take(i + 1) =~= cs.take(i as int).push(cs[i as int]));
                lemma_consts_bytes_push(cs.take(i as int), cs[i as int]);
                assert(out@ =~= hdr + spec_consts_bytes(cs.take(i + 1)));
            }
            i = i + 1;
        }
        assert(cs.take(cs.len() as int) =~= cs);
        let m = self.code.len() as u32;
        push_u32_be(&mut out, m);
        out.extend_from_slice(self.code.as_slice());
        assert(out@ =~= spec_serialize(cs, self.code@));
        out
    }

    /// Deserialize a program from its on-disk form, verifying the magic
    /// prefix and the version byte exactly and reading exactly the declared
    /// lengths. Truncation is an I/O error; a wrong magic, wrong version,
    /// or malformed constant is a format error, and no program is
    /// constructed.
    pub fn deserialize(bytes: &[u8]) -> (r: Result<BytecodeProgram, AetherError>)
        ensures
            match spec_deserialize(bytes@) {
                Ok(pv) => r matches Ok(p) && p.constants.deep_view() == pv.0 && p.code@ == pv.1,
                Err(FormatFault::Truncated) => r matches Err(AetherError::IoError(_)),
                Err(_) => r matches Err(AetherError::BytecodeError(_)),
            },
    {
        if bytes.len() < 4 {
            return Err(AetherError::IoError(String::from_str("unexpected end of bytecode file")));
        }
        if !(bytes[0] == MAGIC_0 && bytes[1] == MAGIC_1 && bytes[2] == MAGIC_2 && bytes[3]
            == MAGIC_3) {
            proof {
                let s = bytes@.subrange(0, 4);
                assert(s[0] == bytes@[0] && s[1] == bytes@[1] && s[2] == bytes@[2] && s[3]
                    == bytes@[3]);
            }
            return Err(AetherError::BytecodeError(String::from_str("invalid magic number")));
        }
        proof {
            assert(bytes@.subrange(0, 4) =~= spec_magic());
        }
        if bytes.len() < 5 {
            return Err(AetherError::IoError(String::from_str("unexpected end of bytecode file")));
        }
        if bytes[4] != VERSION_BYTE {
            return Err(
                AetherError::BytecodeError(String::from_str("unsupported bytecode version")),
            );
        }
        if bytes.len() < 9 {
            return Err(AetherError::IoError(String::from_str("unexpected end of bytecode file")));
        }
        let n = read_u32_be(bytes, 5);
        let mut constants: Vec<String> = Vec::new();
        let mut pos: usize = 9;
        let mut i: u32 = 0;
        proof {
            assert(constants.deep_view() =~= Seq::<Seq<char>>::empty());
        }
        while i < n
            invariant
                0 <= i <= n,
                9 <= pos <= bytes@.len(),
                bytes@.subrange(0, 4) == spec_magic(),
                bytes@[4] == VERSION_BYTE,
                n == spec_u32_from_be(bytes@.subrange(5, 9)),
                spec_parse_consts(bytes@, 9, n as nat, Seq::empty()) == spec_parse_consts(
                    bytes@,
                    pos as int,
                    (n - i) as nat,
                    constants.deep_view(),
                ),
            decreases n - i,
        {
            let ghost acc = constants.deep_view();
            if bytes.len() - pos < 4 {
                return Err(
                    AetherError::IoError(String::from_str("unexpected end of bytecode file")),
                );
            }
            let len = read_u32_be(bytes, pos);
            if bytes.len() - (pos + 4) < len as usize {
                return Err(
                    AetherError::IoError(String::from_str("unexpected end of bytecode file")),
                );
            }
            let sv: Vec<u8> = vstd::slice::slice_to_vec(&bytes[pos + 4..pos + 4 + len as usize]);
            proof {
                assert(sv@ == bytes@.subrange(pos as int + 4, pos as int + 4 + len as int));
            }
            match String::from_utf8(sv) {
                Ok(s) => {
                    constants.push(s);
                    proof {
                        assert(constants.deep_view() =~= acc.push(
                            vstd::utf8::decode_utf8(
                                bytes@.subrange(pos as int + 4, pos as int + 4 + len as int),
                            ),
                        ));
                    }
                    pos = pos + 4 + len as usize;
                },
                Err(_) => {
                    return Err(
                        AetherError::BytecodeError(
                            String::from_str("invalid UTF-8 in constant"),
                        ),
                    );
                },
            }
            i = i + 1;
        }
        let ghost cs = constants.deep_view();
        assert(spec_parse_consts(bytes@, 9, n as nat, Seq::empty()) == Ok::<_, FormatFault>(
            (cs, pos as int),
        ));
        if bytes.len() - pos < 4 {
            return Err(AetherError::IoError(String::from_str("unexpected end of bytecode file")));
        }
        let m = read_u32_be(bytes, pos);
        if bytes.len() - (pos + 4) < m as usize {
            return Err(AetherError::IoError(String::from_str("unexpected end of bytecode file")));
        }
        let code: Vec<u8> = vstd::slice::slice_to_vec(&bytes[pos + 4..pos + 4 + m as usize]);
        Ok(BytecodeProgram { constants, code })
    }
}

proof fn lemma_parse_consts_of_serialized(
    bytes: Seq<u8>,
    pos: int,
    cs: Seq<Seq<char>>,
    acc: Seq<Seq<char>>,
)
    requires
        0 <= pos,
        pos + spec_consts_bytes(cs).len() <= bytes.len(),
        bytes.subrange(pos, pos + spec_consts_bytes(cs).len()) == spec_consts_bytes(cs),
        forall|i: int|
            0 <= i < cs.len() ==> vstd::utf8::encode_utf8(#[trigger] cs[i]).len()
                < 0x1_0000_0000,
    ensures
        spec_parse_consts(bytes, pos, cs.len(), acc) == Ok::<_, FormatFault>(
            (acc + cs, pos + spec_consts_bytes(cs).len()),
        ),
    decreases cs.len(),
{
    broadcast use vstd::utf8::encode_utf8_valid_utf8, vstd::utf8::encode_utf8_decode_utf8;

    let cb = spec_consts_bytes(cs);
    if cs.len() == 0 {
        assert(acc + cs =~= acc);
    } else {
        let eb = vstd::utf8::encode_utf8(cs[0]);
        let len0 = eb.len() as u32;
        let entry = spec_const_entry(cs[0]);
        let rest = spec_consts_bytes(cs.drop_first());
        assert(cb == entry + rest);
        assert(entry.len() == 4 + eb.len());
        lemma_u32_be_round_trip(len0);
        assert(bytes.subrange(pos, pos + 4) =~= spec_u32_be(len0)) by {
            assert(forall|k: int|
                0 <= k < cb.len() ==> cb[k] == #[trigger] bytes.subrange(pos, pos + cb.len() as int)[k]);
        }
        assert(pos + 4 + len0 <= bytes.len());
        assert forall|k: int| 0 <= k < eb.len() implies bytes[pos + 4 + k] == eb[k] by {
            assert((entry + rest)[4 + k] == entry[4 + k]);
            assert((spec_u32_be(len0) + eb)[4 + k] == eb[k]);
            assert(bytes.subrange(pos, pos + cb.len() as int)[4 + k] == bytes[pos + 4 + k]);
            assert(cb[4 + k] == bytes[pos + 4 + k]);
        }
        assert(bytes.subrange(pos + 4, pos + 4 + len0 as int) =~= eb);
        let pos2 = pos + 4 + eb.len();
        assert forall|k: int| 0 <= k < rest.len() implies bytes[pos + entry.len() + k] == rest[k] by {
            assert((entry + rest)[entry.len() + k] == rest[k]);
            assert(bytes.subrange(pos, pos + cb.len() as int)[entry.len() + k] == bytes[pos
                + entry.len() + k]);
            assert(cb[entry.len() + k] == bytes[pos + entry.len() + k]);
        }
        assert(bytes.subrange(pos2, pos2 + rest.len() as int) =~= rest);
        assert(forall|i: int|
            0 <= i < cs.drop_first().len() ==> vstd::utf8::encode_utf8(
                #[trigger] cs.drop_first()[i],
            ).len() < 0x1_0000_0000) by {
            assert(forall|i: int|
                0 <= i < cs.drop_first().len() ==> cs.drop_first()[i] == cs[i + 1]);
        }
        lemma_parse_consts_of_serialized(bytes, pos2, cs.drop_first(), acc.push(cs[0]));
        assert(acc.push(cs[0]) + cs.drop_first() =~= acc + cs);
        assert(spec_parse_consts(bytes, pos, cs.len(), acc) == spec_parse_consts(
            bytes,
            pos2,
            cs.drop_first().len(),
            acc.push(cs[0]),
        ));
    }
}

/// Law (serialization round trip): deserializing the serialized form of any
/// program — the empty program included — reproduces its constants and its
/// code bytes exactly.
pub proof fn lemma_serialize_deserialize(cs: Seq<Seq<char>>, code: Seq<u8>)
    requires
        cs.len() < 0x1_0000_0000,
        code.len() < 0x1_0000_0000,
        forall|i: int|
            0 <= i < cs.len() ==> vstd::utf8::encode_utf8(#[trigger] cs[i]).len()
                < 0x1_0000_0000,
    ensures
        spec_deserialize(spec_serialize(cs, code)) == Ok::<_, FormatFault>((cs, code)),
{
    let bytes = spec_serialize(cs, code);
    let n = cs.len() as u32;
    let m = code.len() as u32;
    let cb = spec_consts_bytes(cs);
    let hdr = spec_magic() + seq![VERSION_BYTE] + spec_u32_be(n);
    assert(hdr.len() == 9);
    assert(bytes.len() == 9 + cb.len() + 4 + code.len());
    assert(bytes.subrange(0, 4) =~= spec_magic());
    assert(bytes[4] == VERSION_BYTE);
    lemma_u32_be_round_trip(n);
    assert(bytes.subrange(5, 9) =~= spec_u32_be(n));
    assert(bytes.subrange(9, 9 + cb.len() as int) =~= cb);
    lemma_parse_consts_of_serialized(bytes, 9, cs, Seq::empty());
    assert(Seq::empty() + cs =~= cs);
    let pos: int = 9 + cb.len() as int;
    lemma_u32_be_round_trip(m);
    assert(bytes.subrange(pos, pos + 4) =~= spec_u32_be(m));
    assert(bytes.subrange(pos + 4, pos + 4 + m as int) =~= code);
}

impl Default for BytecodeProgram {
    /// An empty program.
    fn default() -> (r: Self)
        ensures
            r.constants.deep_view() == Seq::<Seq<char>>::empty(),
            r.code@ == Seq::<u8>::empty(),
    {
        Self::new()
    }
}

} // verus!
