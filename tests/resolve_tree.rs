use wasmcomp::estree::{
    ArrowFunctionExpression, BlockStatement, FunctionDeclaration, Identifier, Literal, LiteralValue,
    Node, NodeKind, PreVar, Program, ReturnStatement, VarLocId, VariableDeclaration,
    VariableDeclarator, AssignmentExpression,
};
use wasmcomp::resolve::{resolve_program, ResolveError};

fn node(kind: NodeKind) -> Node {
    Node { loc: None, kind }
}

fn ident(name: &str) -> Node {
    node(NodeKind::Identifier(Identifier { name: name.to_string(), prevar: None }))
}

fn num(n: f64) -> Node {
    node(NodeKind::Literal(Literal { value: LiteralValue::Number(n.to_bits()) }))
}

fn block(body: Vec<Node>) -> Node {
    node(NodeKind::BlockStatement(BlockStatement { body, address_taken_vars: vec![] }))
}

fn ret(arg: Node) -> Node {
    node(NodeKind::ReturnStatement(ReturnStatement { argument: Some(Box::new(arg)) }))
}

fn decl(kind: &str, name: &str, init: Node) -> Node {
    node(NodeKind::VariableDeclaration(VariableDeclaration {
        kind: kind.to_string(),
        declarations: vec![node(NodeKind::VariableDeclarator(VariableDeclarator {
            id: Box::new(ident(name)),
            init: Some(Box::new(init)),
        }))],
    }))
}

fn prevar(n: &Node) -> Option<PreVar> {
    match &n.kind {
        NodeKind::Identifier(i) => i.prevar,
        _ => panic!("not an identifier"),
    }
}

#[test]
fn function_with_captured_var() {
    // function f(){ let x = 4; return () => { return x; }; }
    let inner = node(NodeKind::ArrowFunctionExpression(ArrowFunctionExpression {
        params: vec![],
        body: Box::new(block(vec![ret(ident("x"))])),
        expression: false,
        address_taken_vars: vec![],
        captured_vars: vec![],
    }));
    let f = node(NodeKind::FunctionDeclaration(FunctionDeclaration {
        id: Box::new(ident("f")),
        params: vec![],
        body: Box::new(block(vec![decl("let", "x", num(4.0)), ret(inner)])),
        address_taken_vars: vec![],
        captured_vars: vec![],
    }));
    let mut program = Program { body: vec![f] };
    let st = resolve_program(&mut program, true).unwrap();
    assert_eq!(st.frames.len(), 1);
    let x = VarLocId { depth: 1, index: 0 };
    match &program.body[0].kind {
        NodeKind::FunctionDeclaration(f) => {
            assert_eq!(prevar(&f.id), Some(PreVar::Target(VarLocId { depth: 0, index: 0 })));
            assert_eq!(f.address_taken_vars, vec![0]);
            assert!(f.captured_vars.is_empty());
            match &f.body.kind {
                NodeKind::BlockStatement(b) => match &b.body[1].kind {
                    NodeKind::ReturnStatement(r) => match &r.argument.as_ref().unwrap().kind {
                        NodeKind::ArrowFunctionExpression(a) => {
                            assert_eq!(a.captured_vars, vec![x]);
                            assert!(a.address_taken_vars.is_empty());
                            match &a.body.kind {
                                NodeKind::BlockStatement(ab) => match &ab.body[0].kind {
                                    NodeKind::ReturnStatement(r2) => {
                                        assert_eq!(prevar(r2.argument.as_ref().unwrap()), Some(PreVar::Target(x)));
                                    },
                                    _ => panic!("expected return"),
                                },
                                _ => panic!("expected block"),
                            }
                        },
                        _ => panic!("expected arrow"),
                    },
                    _ => panic!("expected return"),
                },
                _ => panic!("expected block"),
            }
        },
        _ => panic!("expected function"),
    }
}

#[test]
fn undeclared_use_in_strict_mode() {
    let mut program = Program { body: vec![node(NodeKind::ExpressionStatement(wasmcomp::estree::ExpressionStatement {
        expression: Box::new(ident("nope")),
    }))] };
    assert!(matches!(resolve_program(&mut program, true), Err(ResolveError::UndeclaredGlobal)));
    let mut program2 = Program { body: vec![node(NodeKind::ExpressionStatement(wasmcomp::estree::ExpressionStatement {
        expression: Box::new(ident("nope")),
    }))] };
    assert!(resolve_program(&mut program2, false).is_ok());
}

#[test]
fn duplicate_let_in_block() {
    let mut program = Program { body: vec![block(vec![decl("let", "a", num(1.0)), decl("const", "a", num(2.0))])] };
    assert!(matches!(resolve_program(&mut program, true), Err(ResolveError::DuplicateBinding)));
}

#[test]
fn assignment_to_non_variable_fails() {
    let assign = node(NodeKind::AssignmentExpression(AssignmentExpression {
        operator: "=".to_string(),
        left: Box::new(num(1.0)),
        right: Box::new(num(2.0)),
    }));
    let mut program = Program { body: vec![node(NodeKind::ExpressionStatement(wasmcomp::estree::ExpressionStatement {
        expression: Box::new(assign),
    }))] };
    assert!(matches!(resolve_program(&mut program, true), Err(ResolveError::InvalidAssignTarget)));
}

#[test]
fn var_hoists_out_of_blocks() {
    // { x; } { var x = 1; }
    let use_x = node(NodeKind::ExpressionStatement(wasmcomp::estree::ExpressionStatement { expression: Box::new(ident("x")) }));
    let mut program = Program { body: vec![block(vec![use_x]), block(vec![decl("var", "x", num(1.0))])] };
    resolve_program(&mut program, true).unwrap();
    let x = Some(PreVar::Target(VarLocId { depth: 0, index: 0 }));
    match (&program.body[0].kind, &program.body[1].kind) {
        (NodeKind::BlockStatement(b0), NodeKind::BlockStatement(b1)) => {
            match &b0.body[0].kind {
                NodeKind::ExpressionStatement(e) => assert_eq!(prevar(&e.expression), x),
                _ => panic!("expected expression statement"),
            }
            match &b1.body[0].kind {
                NodeKind::VariableDeclaration(d) => match &d.declarations[0].kind {
                    NodeKind::VariableDeclarator(v) => assert_eq!(prevar(&v.id), x),
                    _ => panic!("expected declarator"),
                },
                _ => panic!("expected declaration"),
            }
        },
        _ => panic!("expected blocks"),
    }
}
