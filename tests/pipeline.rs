use wasmcomp::estree::{
    BlockStatement, ExpressionStatement, FunctionDeclaration, Identifier, Literal, LiteralValue, Node,
    NodeKind, Program, ReturnStatement, VariableDeclaration, VariableDeclarator, BinaryExpression,
};
use wasmcomp::ir::{ExprKind, VarType};
use wasmcomp::lower::{lower_program, LowerError};
use wasmcomp::resolve::resolve_program;
use wasmcomp::prune::optimize;

fn node(kind: NodeKind) -> Node {
    Node { loc: None, kind }
}

fn ident(name: &str) -> Node {
    node(NodeKind::Identifier(Identifier { name: name.to_string(), prevar: None }))
}

fn num(n: f64) -> Node {
    node(NodeKind::Literal(Literal { value: LiteralValue::Number(n.to_bits()) }))
}

fn block(body: Vec<Node>) -> Node {
    node(NodeKind::BlockStatement(BlockStatement { body, address_taken_vars: vec![] }))
}

fn ret(arg: Node) -> Node {
    node(NodeKind::ReturnStatement(ReturnStatement { argument: Some(Box::new(arg)) }))
}

fn function(name: &str, body: Vec<Node>) -> Node {
    node(NodeKind::FunctionDeclaration(FunctionDeclaration {
        id: Box::new(ident(name)),
        params: vec![],
        body: Box::new(block(body)),
        address_taken_vars: vec![],
        captured_vars: vec![],
    }))
}

#[test]
fn unreachable_after_return_pipeline() {
    // function g(){ return 1; return 2; }
    let mut program = Program { body: vec![function("g", vec![ret(num(1.0)), ret(num(2.0))])] };
    resolve_program(&mut program, true).unwrap();
    let ir = lower_program(program).unwrap();
    assert_eq!(ir.funcs.len(), 2);
    assert_eq!(ir.entry, 1);
    match &ir.funcs[0].expr.kind {
        ExprKind::Sequence { content } => assert_eq!(content.len(), 2),
        _ => panic!("expected a sequence"),
    }
    assert_eq!(ir.funcs[0].expr.vartype, None);
    let (ir, changed) = optimize(ir);
    assert!(changed);
    match &ir.funcs[0].expr.kind {
        ExprKind::Sequence { content } => {
            assert_eq!(content.len(), 1);
            match &content[0].kind {
                ExprKind::Return { expr } => assert!(matches!(expr.kind, ExprKind::PrimNumber(b) if b == 1.0f64.to_bits())),
                _ => panic!("expected a return"),
            }
        },
        _ => panic!("expected a sequence"),
    }
    let (_, again) = optimize(ir);
    assert!(!again);
}

#[test]
fn literal_expression_program() {
    let stmt = node(NodeKind::ExpressionStatement(ExpressionStatement { expression: Box::new(num(2.0)) }));
    let mut program = Program { body: vec![stmt] };
    resolve_program(&mut program, true).unwrap();
    let ir = lower_program(program).unwrap();
    assert_eq!(ir.funcs.len(), 1);
    assert_eq!(ir.entry, 0);
    let body = &ir.funcs[0].expr;
    assert_eq!(body.vartype, Some(VarType::Number));
    match &body.kind {
        ExprKind::Sequence { content } => {
            assert_eq!(content.len(), 1);
            assert!(matches!(content[0].kind, ExprKind::PrimNumber(b) if b == 2.0f64.to_bits()));
        },
        _ => panic!("expected a sequence"),
    }
}

#[test]
fn empty_program_lowers_to_undefined() {
    let mut program = Program { body: vec![] };
    resolve_program(&mut program, true).unwrap();
    let ir = lower_program(program).unwrap();
    assert_eq!(ir.funcs.len(), 1);
    match &ir.funcs[0].expr.kind {
        ExprKind::Sequence { content } => {
            assert_eq!(content.len(), 1);
            assert!(matches!(content[0].kind, ExprKind::PrimUndefined));
        },
        _ => panic!("expected a sequence"),
    }
}

#[test]
fn declarations_and_operators_lower() {
    // var a = 1 + 2;
    let sum = node(NodeKind::BinaryExpression(BinaryExpression {
        operator: "+".to_string(),
        left: Box::new(num(1.0)),
        right: Box::new(num(2.0)),
    }));
    let decl = node(NodeKind::VariableDeclaration(VariableDeclaration {
        kind: "var".to_string(),
        declarations: vec![node(NodeKind::VariableDeclarator(VariableDeclarator {
            id: Box::new(ident("a")),
            init: Some(Box::new(sum)),
        }))],
    }));
    let mut program = Program { body: vec![decl] };
    resolve_program(&mut program, true).unwrap();
    let ir = lower_program(program).unwrap();
    match &ir.funcs[0].expr.kind {
        ExprKind::Sequence { content } => match &content[0].kind {
            ExprKind::Sequence { content: decls } => match &decls[0].kind {
                ExprKind::Declaration { local, expr } => {
                    assert_eq!((local.depth, local.index), (0, 0));
                    assert!(matches!(expr.kind, ExprKind::PrimAppl { prim_inst: 0, .. }));
                },
                _ => panic!("expected a declaration"),
            },
            _ => panic!("expected the declarations"),
        },
        _ => panic!("expected a sequence"),
    }
}

#[test]
fn unresolved_identifier_is_rejected() {
    let stmt = node(NodeKind::ExpressionStatement(ExpressionStatement { expression: Box::new(ident("x")) }));
    let program = Program { body: vec![stmt] };
    assert!(matches!(lower_program(program), Err(LowerError::Unresolved)));
}
