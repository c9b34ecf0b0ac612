use aether::{AetherError, BytecodeProgram, Opcode, LANGUAGE_NAME, VERSION};

#[test]
fn test_opcode_roundtrip() {
    let opcodes = vec![
        Opcode::PushNull,
        Opcode::PushBool,
        Opcode::Add,
        Opcode::Output,
        Opcode::End,
    ];

    for opcode in opcodes {
        let byte = opcode.to_byte();
        let decoded = Opcode::from_byte(byte).unwrap();
        assert_eq!(opcode, decoded);
    }
}

#[test]
fn test_opcode_roundtrip_all_bytes() {
    let mut defined = 0;
    for byte in 0..=255u8 {
        match Opcode::from_byte(byte) {
            Ok(op) => {
                assert_eq!(op.to_byte(), byte);
                defined += 1;
            }
            Err(e) => assert!(matches!(e, AetherError::BytecodeError(_))),
        }
    }
    assert_eq!(defined, 106);
}

#[test]
fn test_bytecode_serialization() {
    let mut program = BytecodeProgram::new();

    let idx1 = program.add_constant("Hello".to_string());
    let idx2 = program.add_constant("World".to_string());

    program.emit_opcode(Opcode::PushString);
    program.emit_u32(idx1);
    program.emit_opcode(Opcode::PushString);
    program.emit_u32(idx2);
    program.emit_opcode(Opcode::Output);
    program.emit_opcode(Opcode::End);

    let buffer = program.serialize();

    let deserialized = BytecodeProgram::deserialize(&buffer).unwrap();

    assert_eq!(program.constants, deserialized.constants);
    assert_eq!(program.code, deserialized.code);
}

#[test]
fn test_serialization_empty_program() {
    let program = BytecodeProgram::new();
    let buffer = program.serialize();
    let deserialized = BytecodeProgram::deserialize(&buffer).unwrap();
    assert!(deserialized.constants.is_empty());
    assert!(deserialized.code.is_empty());
}

#[test]
fn test_constant_deduplication() {
    let mut program = BytecodeProgram::new();

    let idx1 = program.add_constant("test".to_string());
    let idx2 = program.add_constant("test".to_string());

    assert_eq!(idx1, idx2);
    assert_eq!(program.constants.len(), 1);
}

#[test]
fn test_deserialize_wrong_magic() {
    let bytes = vec![0x00u8, 0x11, 0x22, 0x33, 0x01, 0, 0, 0, 0, 0, 0, 0, 0];
    let result = BytecodeProgram::deserialize(&bytes);
    assert!(matches!(result, Err(AetherError::BytecodeError(_))));
}

#[test]
fn test_deserialize_wrong_version() {
    let bytes = vec![0x41u8, 0x45, 0x42, 0x00, 0x09, 0, 0, 0, 0, 0, 0, 0, 0];
    let result = BytecodeProgram::deserialize(&bytes);
    assert!(matches!(result, Err(AetherError::BytecodeError(_))));
}

#[test]
fn test_deserialize_truncated() {
    let bytes = vec![0x41u8, 0x45, 0x42, 0x00, 0x01, 0, 0, 0, 5];
    let result = BytecodeProgram::deserialize(&bytes);
    assert!(matches!(result, Err(AetherError::IoError(_))));
}

#[test]
fn test_deserialize_invalid_utf8_constant() {
    // One constant of two bytes that are not valid UTF-8.
    let bytes = vec![
        0x41u8, 0x45, 0x42, 0x00, 0x01, 0, 0, 0, 1, 0, 0, 0, 2, 0xFF, 0xFE, 0, 0, 0, 0,
    ];
    let result = BytecodeProgram::deserialize(&bytes);
    assert!(matches!(result, Err(AetherError::BytecodeError(_))));
}

#[test]
fn test_patch_u32_overwrites_in_place() {
    let mut program = BytecodeProgram::new();
    program.emit_opcode(Opcode::Jump);
    let pos = program.position();
    program.emit_u32(0);
    program.emit_opcode(Opcode::End);
    let len_before = program.code.len();
    program.patch_u32(pos, 0x01020304);
    assert_eq!(program.code.len(), len_before);
    assert_eq!(&program.code[pos..pos + 4], &[1, 2, 3, 4]);
}

#[test]
fn test_non_ascii_constant_round_trip() {
    let mut program = BytecodeProgram::new();
    program.add_constant("héllo wörld 以太".to_string());
    let buffer = program.serialize();
    let deserialized = BytecodeProgram::deserialize(&buffer).unwrap();
    assert_eq!(deserialized.constants[0], "héllo wörld 以太");
}

#[test]
fn test_version() {
    assert!(!VERSION.is_empty());
}

#[test]
fn test_language_name() {
    assert_eq!(LANGUAGE_NAME, "Aether (以太)");
}
