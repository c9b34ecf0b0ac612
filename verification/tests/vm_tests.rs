use aether::{AetherError, BytecodeProgram, Opcode, Value, VM};

fn run(program: BytecodeProgram) -> Result<Value, AetherError> {
    let mut vm = VM::new(program);
    vm.execute()
}

fn expect_number(v: &Value) -> f64 {
    match v {
        Value::Number(bits) => f64::from_bits(*bits),
        other => panic!("expected a number, got {:?}", other),
    }
}

#[test]
fn test_vm_push_number() {
    let mut program = BytecodeProgram::new();
    program.emit_opcode(Opcode::PushNumber);
    program.emit_num_bits(42.0f64.to_bits());
    program.emit_opcode(Opcode::End);

    let result = run(program).unwrap();
    assert_eq!(expect_number(&result), 42.0);
}

#[test]
fn test_vm_arithmetic() {
    let mut program = BytecodeProgram::new();
    program.emit_opcode(Opcode::PushNumber);
    program.emit_num_bits(10.0f64.to_bits());
    program.emit_opcode(Opcode::PushNumber);
    program.emit_num_bits(5.0f64.to_bits());
    program.emit_opcode(Opcode::Add);
    program.emit_opcode(Opcode::End);

    let result = run(program).unwrap();
    assert_eq!(expect_number(&result), 15.0);
}

#[test]
fn test_vm_variable() {
    let mut program = BytecodeProgram::new();
    let var_idx = program.add_constant("x".to_string());

    program.emit_opcode(Opcode::PushNumber);
    program.emit_num_bits(100.0f64.to_bits());
    program.emit_opcode(Opcode::StoreVar);
    program.emit_u32(var_idx);
    program.emit_opcode(Opcode::LoadVar);
    program.emit_u32(var_idx);
    program.emit_opcode(Opcode::End);

    let result = run(program).unwrap();
    assert_eq!(expect_number(&result), 100.0);
}

#[test]
fn test_vm_output() {
    let mut program = BytecodeProgram::new();
    let str_idx = program.add_constant("Hello, VM!".to_string());

    program.emit_opcode(Opcode::PushString);
    program.emit_u32(str_idx);
    program.emit_opcode(Opcode::Output);
    program.emit_opcode(Opcode::End);

    let result = run(program).unwrap();
    assert!(matches!(result, Value::String(s) if s == "Hello, VM!"));
}

#[test]
fn test_vm_power() {
    let mut program = BytecodeProgram::new();
    program.emit_opcode(Opcode::PushNumber);
    program.emit_num_bits(2.0f64.to_bits());
    program.emit_opcode(Opcode::PushNumber);
    program.emit_num_bits(3.0f64.to_bits());
    program.emit_opcode(Opcode::Power);
    program.emit_opcode(Opcode::End);

    let result = run(program).unwrap();
    assert_eq!(expect_number(&result), 8.0);
}

#[test]
fn test_vm_root() {
    let mut program = BytecodeProgram::new();
    program.emit_opcode(Opcode::PushNumber);
    program.emit_num_bits(16.0f64.to_bits());
    program.emit_opcode(Opcode::Root);
    program.emit_opcode(Opcode::End);

    let result = run(program).unwrap();
    assert_eq!(expect_number(&result), 4.0);
}

#[test]
fn test_vm_split() {
    let mut program = BytecodeProgram::new();
    let str_idx = program.add_constant("a,b,c".to_string());
    let delim_idx = program.add_constant(",".to_string());

    program.emit_opcode(Opcode::PushString);
    program.emit_u32(str_idx);
    program.emit_opcode(Opcode::PushString);
    program.emit_u32(delim_idx);
    program.emit_opcode(Opcode::Split);
    program.emit_opcode(Opcode::End);

    let result = run(program).unwrap();
    match result {
        Value::Array(items) => {
            assert_eq!(items.len(), 3);
            assert!(matches!(&items[0], Value::String(s) if s == "a"));
            assert!(matches!(&items[1], Value::String(s) if s == "b"));
            assert!(matches!(&items[2], Value::String(s) if s == "c"));
        }
        _ => panic!("Expected array result"),
    }
}

#[test]
fn test_vm_join_strings() {
    let mut program = BytecodeProgram::new();
    let a = program.add_constant("a".to_string());
    let b = program.add_constant("b".to_string());
    let sep = program.add_constant("-".to_string());

    program.emit_opcode(Opcode::PushString);
    program.emit_u32(a);
    program.emit_opcode(Opcode::PushString);
    program.emit_u32(b);
    program.emit_opcode(Opcode::MakeArray);
    program.emit_u32(2);
    program.emit_opcode(Opcode::PushString);
    program.emit_u32(sep);
    program.emit_opcode(Opcode::Join);
    program.emit_opcode(Opcode::End);

    let result = run(program).unwrap();
    assert!(matches!(result, Value::String(s) if s == "a-b"));
}

#[test]
fn test_vm_equal() {
    let mut program = BytecodeProgram::new();
    program.emit_opcode(Opcode::PushNumber);
    program.emit_num_bits(5.0f64.to_bits());
    program.emit_opcode(Opcode::PushNumber);
    program.emit_num_bits(5.0f64.to_bits());
    program.emit_opcode(Opcode::Equal);
    program.emit_opcode(Opcode::End);

    let result = run(program).unwrap();
    assert!(matches!(result, Value::Boolean(true)));
}

#[test]
fn test_vm_not_equal() {
    let mut program = BytecodeProgram::new();
    program.emit_opcode(Opcode::PushNumber);
    program.emit_num_bits(5.0f64.to_bits());
    program.emit_opcode(Opcode::PushNumber);
    program.emit_num_bits(3.0f64.to_bits());
    program.emit_opcode(Opcode::NotEqual);
    program.emit_opcode(Opcode::End);

    let result = run(program).unwrap();
    assert!(matches!(result, Value::Boolean(true)));
}

#[test]
fn test_vm_comparison() {
    let mut program = BytecodeProgram::new();
    program.emit_opcode(Opcode::PushNumber);
    program.emit_num_bits(10.0f64.to_bits());
    program.emit_opcode(Opcode::PushNumber);
    program.emit_num_bits(5.0f64.to_bits());
    program.emit_opcode(Opcode::GreaterThan);
    program.emit_opcode(Opcode::End);

    let result = run(program).unwrap();
    assert!(matches!(result, Value::Boolean(true)));
}

#[test]
fn test_vm_nan_equality() {
    let nan = f64::NAN.to_bits();
    let mut program = BytecodeProgram::new();
    program.emit_opcode(Opcode::PushNumber);
    program.emit_num_bits(nan);
    program.emit_opcode(Opcode::PushNumber);
    program.emit_num_bits(nan);
    program.emit_opcode(Opcode::Equal);
    program.emit_opcode(Opcode::End);

    let result = run(program).unwrap();
    assert!(matches!(result, Value::Boolean(false)));
}

#[test]
fn test_vm_negative_zero_equals_zero() {
    let mut program = BytecodeProgram::new();
    program.emit_opcode(Opcode::PushNumber);
    program.emit_num_bits((-0.0f64).to_bits());
    program.emit_opcode(Opcode::PushNumber);
    program.emit_num_bits(0.0f64.to_bits());
    program.emit_opcode(Opcode::Equal);
    program.emit_opcode(Opcode::End);

    let result = run(program).unwrap();
    assert!(matches!(result, Value::Boolean(true)));
}

#[test]
fn test_vm_unknown_opcode_is_codec_error() {
    let program = BytecodeProgram {
        constants: Vec::new(),
        code: vec![0x0F],
    };
    let result = run(program);
    assert!(matches!(result, Err(AetherError::BytecodeError(_))));
}

#[test]
fn test_vm_stack_underflow() {
    let mut program = BytecodeProgram::new();
    program.emit_opcode(Opcode::Add);
    program.emit_opcode(Opcode::End);
    let result = run(program);
    assert!(matches!(result, Err(AetherError::RuntimeError(_))));
}

#[test]
fn test_vm_type_error_on_arithmetic() {
    let mut program = BytecodeProgram::new();
    let idx = program.add_constant("nope".to_string());
    program.emit_opcode(Opcode::PushString);
    program.emit_u32(idx);
    program.emit_opcode(Opcode::PushNumber);
    program.emit_num_bits(1.0f64.to_bits());
    program.emit_opcode(Opcode::Add);
    program.emit_opcode(Opcode::End);
    let result = run(program);
    assert!(matches!(result, Err(AetherError::RuntimeError(_))));
}

#[test]
fn test_vm_truncated_operand() {
    let program = BytecodeProgram {
        constants: Vec::new(),
        code: vec![Opcode::Jump.to_byte(), 0, 0],
    };
    let result = run(program);
    assert!(matches!(result, Err(AetherError::RuntimeError(_))));
}

#[test]
fn test_vm_hash_sha256() {
    let mut program = BytecodeProgram::new();
    let idx = program.add_constant("abc".to_string());
    program.emit_opcode(Opcode::PushString);
    program.emit_u32(idx);
    program.emit_opcode(Opcode::Hash);
    program.emit_opcode(Opcode::End);

    let result = run(program).unwrap();
    assert!(matches!(
        result,
        Value::String(s)
            if s == "ba7816bf8f01cfea414140de5dae2223b00361a396177a9cb410ff61f20015ad"
    ));
}

#[test]
fn test_vm_regex_match() {
    let mut program = BytecodeProgram::new();
    let pat = program.add_constant("a+".to_string());
    let tgt = program.add_constant("baaa".to_string());
    program.emit_opcode(Opcode::PushString);
    program.emit_u32(pat);
    program.emit_opcode(Opcode::PushString);
    program.emit_u32(tgt);
    program.emit_opcode(Opcode::Regex);
    program.emit_opcode(Opcode::End);

    let result = run(program).unwrap();
    assert!(matches!(result, Value::Boolean(true)));
}

#[test]
fn test_vm_invalid_regex_is_runtime_error() {
    let mut program = BytecodeProgram::new();
    let pat = program.add_constant("(".to_string());
    let tgt = program.add_constant("x".to_string());
    program.emit_opcode(Opcode::PushString);
    program.emit_u32(pat);
    program.emit_opcode(Opcode::PushString);
    program.emit_u32(tgt);
    program.emit_opcode(Opcode::Regex);
    program.emit_opcode(Opcode::End);

    let result = run(program);
    assert!(matches!(result, Err(AetherError::RuntimeError(_))));
}

#[test]
fn test_vm_random_in_unit_interval() {
    let mut program = BytecodeProgram::new();
    program.emit_opcode(Opcode::Random);
    program.emit_opcode(Opcode::End);

    let result = run(program).unwrap();
    let x = expect_number(&result);
    assert!((0.0..1.0).contains(&x));
}

#[test]
fn test_vm_datetime_is_string() {
    let mut program = BytecodeProgram::new();
    program.emit_opcode(Opcode::DateTime);
    program.emit_opcode(Opcode::End);

    let result = run(program).unwrap();
    assert!(matches!(result, Value::String(s) if !s.is_empty()));
}

#[test]
fn test_vm_store_immutable_then_store_fails() {
    let mut program = BytecodeProgram::new();
    let idx = program.add_constant("k".to_string());
    program.emit_opcode(Opcode::PushNumber);
    program.emit_num_bits(1.0f64.to_bits());
    program.emit_opcode(Opcode::StoreImmutable);
    program.emit_u32(idx);
    program.emit_opcode(Opcode::PushNumber);
    program.emit_num_bits(2.0f64.to_bits());
    program.emit_opcode(Opcode::StoreVar);
    program.emit_u32(idx);
    program.emit_opcode(Opcode::End);

    let result = run(program);
    assert!(matches!(result, Err(AetherError::RuntimeError(_))));
}

#[test]
fn test_vm_make_object_and_objects_compare_by_key() {
    // {a: 1, b: 2} built twice with keys in different orders compares equal.
    let mut program = BytecodeProgram::new();
    let a = program.add_constant("a".to_string());
    let b = program.add_constant("b".to_string());
    for (k1, v1, k2, v2) in [(a, 1.0f64, b, 2.0f64), (b, 2.0f64, a, 1.0f64)] {
        program.emit_opcode(Opcode::PushString);
        program.emit_u32(k1);
        program.emit_opcode(Opcode::PushNumber);
        program.emit_num_bits(v1.to_bits());
        program.emit_opcode(Opcode::PushString);
        program.emit_u32(k2);
        program.emit_opcode(Opcode::PushNumber);
        program.emit_num_bits(v2.to_bits());
        program.emit_opcode(Opcode::MakeObject);
        program.emit_u32(2);
    }
    program.emit_opcode(Opcode::Equal);
    program.emit_opcode(Opcode::End);

    let result = run(program).unwrap();
    assert!(matches!(result, Value::Boolean(true)));
}

#[test]
fn test_vm_return_without_call_ends_program() {
    let mut program = BytecodeProgram::new();
    program.emit_opcode(Opcode::PushNumber);
    program.emit_num_bits(1.0f64.to_bits());
    program.emit_opcode(Opcode::Return);
    program.emit_opcode(Opcode::PushNumber);
    program.emit_num_bits(2.0f64.to_bits());
    program.emit_opcode(Opcode::End);

    let result = run(program).unwrap();
    assert_eq!(expect_number(&result), 1.0);
}

#[test]
fn test_vm_power_negative_exponent() {
    let mut program = BytecodeProgram::new();
    program.emit_opcode(Opcode::PushNumber);
    program.emit_num_bits(2.0f64.to_bits());
    program.emit_opcode(Opcode::PushNumber);
    program.emit_num_bits((-2.0f64).to_bits());
    program.emit_opcode(Opcode::Power);
    program.emit_opcode(Opcode::End);

    let result = run(program).unwrap();
    assert_eq!(expect_number(&result), 0.25);
}

#[test]
fn test_vm_power_non_integral_exponent_rejected() {
    let mut program = BytecodeProgram::new();
    program.emit_opcode(Opcode::PushNumber);
    program.emit_num_bits(2.0f64.to_bits());
    program.emit_opcode(Opcode::PushNumber);
    program.emit_num_bits(0.5f64.to_bits());
    program.emit_opcode(Opcode::Power);
    program.emit_opcode(Opcode::End);

    let result = run(program);
    assert!(matches!(result, Err(AetherError::RuntimeError(_))));
}

#[test]
fn test_vm_root_of_eighty_one() {
    let mut program = BytecodeProgram::new();
    program.emit_opcode(Opcode::PushNumber);
    program.emit_num_bits(81.0f64.to_bits());
    program.emit_opcode(Opcode::Root);
    program.emit_opcode(Opcode::End);

    let result = run(program).unwrap();
    assert_eq!(expect_number(&result), 9.0);
}

#[test]
fn test_vm_root_of_negative_is_nan() {
    let mut program = BytecodeProgram::new();
    program.emit_opcode(Opcode::PushNumber);
    program.emit_num_bits((-4.0f64).to_bits());
    program.emit_opcode(Opcode::Root);
    program.emit_opcode(Opcode::End);

    let result = run(program).unwrap();
    assert!(expect_number(&result).is_nan());
}

#[test]
fn test_vm_encrypt_marker() {
    let mut program = BytecodeProgram::new();
    let data = program.add_constant("abc".to_string());
    let key = program.add_constant("k".to_string());
    program.emit_opcode(Opcode::PushString);
    program.emit_u32(data);
    program.emit_opcode(Opcode::PushString);
    program.emit_u32(key);
    program.emit_opcode(Opcode::Encrypt);
    program.emit_opcode(Opcode::End);

    let result = run(program).unwrap();
    assert!(matches!(result, Value::String(s) if s == "[ENCRYPTED:abc]"));
}

#[test]
fn test_vm_store_immutable_twice_fails() {
    let mut program = BytecodeProgram::new();
    let idx = program.add_constant("k".to_string());
    program.emit_opcode(Opcode::PushNumber);
    program.emit_num_bits(1.0f64.to_bits());
    program.emit_opcode(Opcode::StoreImmutable);
    program.emit_u32(idx);
    program.emit_opcode(Opcode::PushNumber);
    program.emit_num_bits(2.0f64.to_bits());
    program.emit_opcode(Opcode::StoreImmutable);
    program.emit_u32(idx);
    program.emit_opcode(Opcode::End);

    let result = run(program);
    assert!(matches!(result, Err(AetherError::RuntimeError(_))));
}
