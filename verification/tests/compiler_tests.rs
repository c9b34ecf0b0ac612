use aether::{
    AetherError, AstNode, BinaryOp, Compiler, ComparisonOp, LiteralValue, Opcode, UnaryOp,
};

#[test]
fn test_compile_literal_number() {
    let mut compiler = Compiler::new();
    compiler
        .compile_literal(&LiteralValue::Number(42.0f64.to_bits()))
        .unwrap();

    assert_eq!(compiler.program.code[0], Opcode::PushNumber.to_byte());
}

#[test]
fn test_compile_variable() {
    let node = AstNode::Variable("test".to_string());
    let mut compiler = Compiler::new();
    compiler.compile_node(&node).unwrap();

    assert_eq!(compiler.program.code[0], Opcode::LoadVar.to_byte());
    assert_eq!(compiler.program.constants[0], "test");
}

#[test]
fn test_compile_pipe_variable_emits_nothing() {
    let node = AstNode::Variable("_pipe".to_string());
    let mut compiler = Compiler::new();
    compiler.compile_node(&node).unwrap();

    assert!(compiler.program.code.is_empty());
    assert!(compiler.program.constants.is_empty());
}

#[test]
fn test_compile_output_literal() {
    let mut compiler = Compiler::new();
    let nodes = vec![AstNode::Unary {
        op: UnaryOp::Output,
        operand: Box::new(AstNode::Literal(LiteralValue::String("Hello".to_string()))),
    }];
    let program = compiler.compile(nodes).unwrap();

    assert_eq!(program.constants.len(), 1);
    assert_eq!(program.constants[0], "Hello");
    assert!(!program.code.is_empty());
    assert_eq!(*program.code.last().unwrap(), Opcode::End.to_byte());
}

#[test]
fn test_compile_power_shape() {
    let mut compiler = Compiler::new();
    let nodes = vec![AstNode::Binary {
        op: BinaryOp::Power,
        left: Box::new(AstNode::Literal(LiteralValue::Number(2.0f64.to_bits()))),
        right: Box::new(AstNode::Literal(LiteralValue::Number(3.0f64.to_bits()))),
    }];
    let program = compiler.compile(nodes).unwrap();

    // PushNumber 2, PushNumber 3, Power, End.
    assert_eq!(program.code[0], Opcode::PushNumber.to_byte());
    assert_eq!(program.code[9], Opcode::PushNumber.to_byte());
    assert_eq!(program.code[18], Opcode::Power.to_byte());
    assert_eq!(program.code[19], Opcode::End.to_byte());
}

#[test]
fn test_compile_if_then_patches_forward() {
    let mut compiler = Compiler::new();
    let nodes = vec![AstNode::IfThen {
        condition: Box::new(AstNode::Literal(LiteralValue::Number(0.0f64.to_bits()))),
        then_branch: Box::new(AstNode::Literal(LiteralValue::Number(1.0f64.to_bits()))),
        else_branch: None,
    }];
    let program = compiler.compile(nodes).unwrap();

    // PushNumber c; JumpIfFalse target; PushNumber t; End.
    assert_eq!(program.code[9], Opcode::JumpIfFalse.to_byte());
    let target = u32::from_be_bytes([
        program.code[10],
        program.code[11],
        program.code[12],
        program.code[13],
    ]);
    // The false-branch target is the end position, right before End.
    assert_eq!(target as usize, program.code.len() - 1);
}

#[test]
fn test_compile_modulo_rejected() {
    let mut compiler = Compiler::new();
    let nodes = vec![AstNode::Modulo {
        left: Box::new(AstNode::Literal(LiteralValue::Number(5.0f64.to_bits()))),
        right: Box::new(AstNode::Literal(LiteralValue::Number(2.0f64.to_bits()))),
    }];
    let result = compiler.compile(nodes);
    assert!(matches!(result, Err(AetherError::CompilerError(_))));
}

#[test]
fn test_compile_greater_equal_rejected() {
    let mut compiler = Compiler::new();
    let nodes = vec![AstNode::Comparison {
        left: Box::new(AstNode::Literal(LiteralValue::Number(1.0f64.to_bits()))),
        operator: ComparisonOp::GreaterEqual,
        right: Box::new(AstNode::Literal(LiteralValue::Number(2.0f64.to_bits()))),
    }];
    let result = compiler.compile(nodes);
    assert!(matches!(result, Err(AetherError::CompilerError(_))));
}

#[test]
fn test_compile_retry_operand_byte() {
    let mut compiler = Compiler::new();
    let nodes = vec![AstNode::Retry {
        max_attempts: Some(5),
        body: Box::new(AstNode::Literal(LiteralValue::Number(1.0f64.to_bits()))),
    }];
    let program = compiler.compile(nodes).unwrap();
    assert_eq!(program.code[0], Opcode::Retry.to_byte());
    assert_eq!(program.code[1], 5);
}

#[test]
fn test_compile_loop_registers_exits() {
    let mut compiler = Compiler::new();
    let nodes = vec![AstNode::Loop {
        condition: Some(Box::new(AstNode::Variable("going".to_string()))),
        body: Box::new(AstNode::Literal(LiteralValue::Number(1.0f64.to_bits()))),
    }];
    let program = compiler.compile(nodes).unwrap();

    // LoopStart's operand and the condition's JumpIfFalse operand are both
    // patched to the first offset after the loop.
    assert_eq!(program.code[0], Opcode::LoopStart.to_byte());
    let after_loop = (program.code.len() - 1) as u32;
    let loop_exit =
        u32::from_be_bytes([program.code[1], program.code[2], program.code[3], program.code[4]]);
    assert_eq!(loop_exit, after_loop);
    // condition: LoadVar(5..10) then JumpIfFalse at 10, operand at 11..15
    assert_eq!(program.code[10], Opcode::JumpIfFalse.to_byte());
    let cond_exit = u32::from_be_bytes([
        program.code[11],
        program.code[12],
        program.code[13],
        program.code[14],
    ]);
    assert_eq!(cond_exit, after_loop);
}
