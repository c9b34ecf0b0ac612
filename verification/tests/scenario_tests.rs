use aether::{
    AetherError, AstNode, BinaryOp, BytecodeProgram, Compiler, ComparisonOp, LiteralValue,
    UnaryOp, Value, VM,
};

fn num(x: f64) -> AstNode {
    AstNode::Literal(LiteralValue::Number(x.to_bits()))
}

fn text(s: &str) -> AstNode {
    AstNode::Literal(LiteralValue::String(s.to_string()))
}

fn output(node: AstNode) -> AstNode {
    AstNode::Unary {
        op: UnaryOp::Output,
        operand: Box::new(node),
    }
}

fn compile(nodes: Vec<AstNode>) -> BytecodeProgram {
    Compiler::new().compile(nodes).unwrap()
}

#[test]
fn scenario_output_hello() {
    let program = compile(vec![output(text("Hello"))]);
    assert_eq!(program.constants, vec!["Hello".to_string()]);

    let mut vm = VM::new(program);
    let result = vm.execute().unwrap();
    assert!(matches!(result, Value::String(s) if s == "Hello"));
    assert_eq!(vm.outputs.len(), 1);
    assert!(matches!(&vm.outputs[0], Value::String(s) if s == "Hello"));
}

#[test]
fn scenario_power_two_cubed() {
    let program = compile(vec![AstNode::Binary {
        op: BinaryOp::Power,
        left: Box::new(num(2.0)),
        right: Box::new(num(3.0)),
    }]);
    let mut vm = VM::new(program);
    let result = vm.execute().unwrap();
    assert!(matches!(result, Value::Number(bits) if bits == 8.0f64.to_bits()));
}

#[test]
fn scenario_divide_by_zero_is_runtime_error() {
    let program = compile(vec![AstNode::Binary {
        op: BinaryOp::Divide,
        left: Box::new(num(1.0)),
        right: Box::new(num(0.0)),
    }]);
    let mut vm = VM::new(program);
    let result = vm.execute();
    assert!(matches!(result, Err(AetherError::RuntimeError(_))));
}

#[test]
fn scenario_immutable_store_fails_and_value_survives() {
    let program = compile(vec![
        AstNode::Immutable {
            name: "PI".to_string(),
            value: Box::new(num(3.14)),
        },
        AstNode::PipeInto {
            value: Box::new(num(1.0)),
            variable: "PI".to_string(),
        },
    ]);
    let mut vm = VM::new(program);
    let result = vm.execute();
    assert!(matches!(result, Err(AetherError::RuntimeError(_))));
    // PI still holds 3.14.
    let kept = vm
        .variables
        .iter()
        .find(|(k, _)| k == "PI")
        .map(|(_, v)| v)
        .unwrap();
    assert!(matches!(kept, Value::Number(bits) if *bits == 3.14f64.to_bits()));
}

#[test]
fn scenario_wrong_magic_is_format_error() {
    let bytes = vec![0x42u8, 0x41, 0x44, 0x21, 0x01, 0, 0, 0, 0, 0, 0, 0, 0];
    let result = BytecodeProgram::deserialize(&bytes);
    assert!(matches!(result, Err(AetherError::BytecodeError(_))));
}

#[test]
fn scenario_endless_loop_hits_iteration_ceiling() {
    let program = compile(vec![AstNode::Loop {
        condition: None,
        body: Box::new(num(1.0)),
    }]);
    let mut vm = VM::new(program);
    let result = vm.execute();
    assert!(matches!(result, Err(AetherError::RuntimeError(_))));
}

#[test]
fn stack_balance_single_expressions() {
    // Compiling one self-contained expression and executing from an empty
    // stack leaves exactly one value (the result that execute pops off).
    let cases: Vec<AstNode> = vec![
        num(7.5),
        text("s"),
        AstNode::Empty,
        AstNode::Binary {
            op: BinaryOp::Add,
            left: Box::new(num(1.0)),
            right: Box::new(num(2.0)),
        },
        AstNode::Unary {
            op: UnaryOp::Not,
            operand: Box::new(num(0.0)),
        },
        AstNode::IfThen {
            condition: Box::new(num(1.0)),
            then_branch: Box::new(text("t")),
            else_branch: Some(Box::new(text("e"))),
        },
        AstNode::ArrayLiteral {
            elements: vec![num(1.0), num(2.0)],
        },
        AstNode::Comparison {
            left: Box::new(num(1.0)),
            operator: ComparisonOp::LessThan,
            right: Box::new(num(2.0)),
        },
    ];
    for case in cases {
        let program = compile(vec![case]);
        let mut vm = VM::new(program);
        let result = vm.execute();
        assert!(result.is_ok());
        assert_eq!(vm.stack.len(), 0);
    }
}

#[test]
fn patch_correctness_if_false_runs_only_else() {
    // if false then A else B: exactly B runs, never anything unique to A.
    let program = compile(vec![AstNode::IfThen {
        condition: Box::new(num(0.0)),
        then_branch: Box::new(output(text("A"))),
        else_branch: Some(Box::new(output(text("B")))),
    }]);
    let mut vm = VM::new(program);
    let result = vm.execute().unwrap();
    assert!(matches!(result, Value::String(s) if s == "B"));
    assert_eq!(vm.outputs.len(), 1);
    assert!(matches!(&vm.outputs[0], Value::String(s) if s == "B"));
}

#[test]
fn loop_bound_runs_body_exactly_n_times() {
    // A loop whose condition is true for exactly three evaluations and then
    // false executes its body exactly three times.
    let n = 3.0;
    let program = compile(vec![
        AstNode::PipeInto {
            value: Box::new(num(0.0)),
            variable: "i".to_string(),
        },
        AstNode::Loop {
            condition: Some(Box::new(AstNode::Comparison {
                left: Box::new(AstNode::Variable("i".to_string())),
                operator: ComparisonOp::LessThan,
                right: Box::new(num(n)),
            })),
            body: Box::new(AstNode::Sequence(vec![
                output(text("tick")),
                AstNode::PipeInto {
                    value: Box::new(AstNode::Binary {
                        op: BinaryOp::Add,
                        left: Box::new(AstNode::Variable("i".to_string())),
                        right: Box::new(num(1.0)),
                    }),
                    variable: "i".to_string(),
                },
            ])),
        },
    ]);
    let mut vm = VM::new(program);
    vm.execute().unwrap();
    assert_eq!(vm.outputs.len(), 3);
}

#[test]
fn function_declaration_binds_entry_offset() {
    let program = compile(vec![AstNode::Function {
        name: "f".to_string(),
        body: Box::new(num(1.0)),
    }]);
    // After Jump (1 + 4 bytes) the body starts at offset 5; the function's
    // name is bound to that offset as a number.
    let mut vm = VM::new(program);
    vm.execute().unwrap();
    let bound = vm
        .variables
        .iter()
        .find(|(k, _)| k == "f")
        .map(|(_, v)| v)
        .unwrap();
    assert!(matches!(bound, Value::Number(bits) if *bits == 5.0f64.to_bits()));
}

#[test]
fn compile_then_serialize_then_execute() {
    let program = compile(vec![AstNode::Binary {
        op: BinaryOp::Multiply,
        left: Box::new(num(6.0)),
        right: Box::new(num(7.0)),
    }]);
    let bytes = program.serialize();
    let restored = BytecodeProgram::deserialize(&bytes).unwrap();
    let mut vm = VM::new(restored);
    let result = vm.execute().unwrap();
    assert!(matches!(result, Value::Number(bits) if bits == 42.0f64.to_bits()));
}

#[test]
fn approx_compares_within_epsilon() {
    let program = compile(vec![AstNode::Binary {
        op: BinaryOp::Approx,
        left: Box::new(num(1.0)),
        right: Box::new(num(1.0000000001)),
    }]);
    let mut vm = VM::new(program);
    let result = vm.execute().unwrap();
    assert!(matches!(result, Value::Boolean(true)));
}

#[test]
fn guard_runs_branch_when_null() {
    let program = compile(vec![AstNode::Guard {
        condition: Box::new(num(5.0)),
        then_branch: Box::new(output(text("skipped"))),
    }]);
    // Condition is not null, so the guard does not jump; the branch runs.
    let mut vm = VM::new(program);
    vm.execute().unwrap();
    assert_eq!(vm.outputs.len(), 1);
}
