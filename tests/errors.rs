use wasmcomp::codegen::CodegenError;
use wasmcomp::compile::{compile, CompileError};
use wasmcomp::estree::{
    AssignmentExpression, ExpressionStatement, FunctionExpression, Identifier, Literal, LiteralValue,
    LogicalExpression, Node, NodeKind, Program,
};
use wasmcomp::lower::{lower_program, LowerError};
use wasmcomp::resolve::{resolve_program, ResolveError};

fn node(kind: NodeKind) -> Node {
    Node { loc: None, kind }
}

fn stmt(e: Node) -> Node {
    node(NodeKind::ExpressionStatement(ExpressionStatement { expression: Box::new(e) }))
}

fn lit(value: LiteralValue) -> Node {
    node(NodeKind::Literal(Literal { value }))
}

#[test]
fn function_expressions_resolve_like_arrows() {
    let f = node(NodeKind::FunctionExpression(FunctionExpression {
        params: vec![],
        body: Box::new(node(NodeKind::BlockStatement(wasmcomp::estree::BlockStatement { body: vec![], address_taken_vars: vec![] }))),
        address_taken_vars: vec![],
        captured_vars: vec![],
    }));
    let mut program = Program { body: vec![stmt(f)] };
    assert!(resolve_program(&mut program, true).is_ok());
    let program_object = Program { body: vec![node(NodeKind::Program(Program { body: vec![] }))] };
    let mut nested = program_object;
    assert!(matches!(resolve_program(&mut nested, true), Err(ResolveError::UnsupportedNode)));
}

#[test]
fn lowering_errors() {
    let regex = Program { body: vec![stmt(lit(LiteralValue::RegExp))] };
    assert!(matches!(lower_program(regex), Err(LowerError::UnsupportedNode)));
    let assign = node(NodeKind::AssignmentExpression(AssignmentExpression {
        operator: "=".to_string(),
        left: Box::new(lit(LiteralValue::Null)),
        right: Box::new(lit(LiteralValue::Boolean(true))),
    }));
    assert!(matches!(lower_program(Program { body: vec![stmt(assign)] }), Err(LowerError::InvalidAssignTarget)));
    let logical = node(NodeKind::LogicalExpression(LogicalExpression {
        operator: "&&".to_string(),
        left: Box::new(lit(LiteralValue::Boolean(true))),
        right: Box::new(lit(LiteralValue::Boolean(false))),
    }));
    assert_eq!(compile(Program { body: vec![stmt(logical)] }, true), Err(CompileError::Lower(LowerError::UnsupportedNode)));
}

#[test]
fn strings_are_not_compiled() {
    let s = stmt(lit(LiteralValue::String("hi".to_string())));
    assert_eq!(compile(Program { body: vec![s] }, true), Err(CompileError::Codegen(CodegenError::UnsupportedExpr)));
}

#[test]
fn assignment_updates_the_variable() {
    // x = 5 in loose mode makes x a global of the entry function.
    let assign = node(NodeKind::AssignmentExpression(AssignmentExpression {
        operator: "=".to_string(),
        left: Box::new(node(NodeKind::Identifier(Identifier { name: "x".to_string(), prevar: None }))),
        right: Box::new(lit(LiteralValue::Number(5.0f64.to_bits()))),
    }));
    let bytes = compile(Program { body: vec![stmt(assign)] }, false).unwrap();
    let mut tail = vec![0x01, 0x01, 0x7C, 0x44];
    tail.extend(5.0f64.to_le_bytes());
    tail.extend([0x22, 0x00, 0x1A, 0x0B]);
    assert_eq!(&bytes[bytes.len() - tail.len()..], &tail[..]);
    assert_eq!(compile(Program { body: vec![] }, false).map(|b| b.len()), Ok(8));
}
