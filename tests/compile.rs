use wasmcomp::codegen::CodegenError;
use wasmcomp::compile::{compile, CompileError};
use wasmcomp::estree::{
    CallExpression, FunctionExpression, BinaryExpression, BlockStatement, ExpressionStatement, FunctionDeclaration, Identifier, IfStatement,
    Literal, LiteralValue, Node, NodeKind, Program, ReturnStatement, VariableDeclaration,
    VariableDeclarator,
};
use wasmcomp::resolve::ResolveError;

const HEADER: [u8; 8] = [0x00, 0x61, 0x73, 0x6D, 0x01, 0x00, 0x00, 0x00];

fn node(kind: NodeKind) -> Node {
    Node { loc: None, kind }
}

fn ident(name: &str) -> Node {
    node(NodeKind::Identifier(Identifier { name: name.to_string(), prevar: None }))
}

fn num(n: f64) -> Node {
    node(NodeKind::Literal(Literal { value: LiteralValue::Number(n.to_bits()) }))
}

fn expr_stmt(e: Node) -> Node {
    node(NodeKind::ExpressionStatement(ExpressionStatement { expression: Box::new(e) }))
}

fn ret(arg: Node) -> Node {
    node(NodeKind::ReturnStatement(ReturnStatement { argument: Some(Box::new(arg)) }))
}

fn binary(op: &str, l: Node, r: Node) -> Node {
    node(NodeKind::BinaryExpression(BinaryExpression { operator: op.to_string(), left: Box::new(l), right: Box::new(r) }))
}

fn let_decl(name: &str, init: Node) -> Node {
    node(NodeKind::VariableDeclaration(VariableDeclaration {
        kind: "let".to_string(),
        declarations: vec![node(NodeKind::VariableDeclarator(VariableDeclarator {
            id: Box::new(ident(name)),
            init: Some(Box::new(init)),
        }))],
    }))
}

/// The module around one function body of type () -> (), exported as main.
fn module_with_body(body: &[u8]) -> Vec<u8> {
    let mut out = HEADER.to_vec();
    out.extend([0x01, 0x04, 0x01, 0x60, 0x00, 0x00]);
    out.extend([0x03, 0x02, 0x01, 0x00]);
    out.extend([0x07, 0x08, 0x01, 0x04, b'm', b'a', b'i', b'n', 0x00, 0x00]);
    out.extend([0x0A, (body.len() + 2) as u8, 0x01, body.len() as u8]);
    out.extend(body);
    out
}

#[test]
fn literal_expression_compiles() {
    let program = Program { body: vec![expr_stmt(num(2.0))] };
    let bytes = compile(program, true).unwrap();
    let mut body = vec![0x00, 0x44];
    body.extend(2.0f64.to_le_bytes());
    body.extend([0x1A, 0x0B]);
    assert_eq!(bytes, module_with_body(&body));
}

#[test]
fn statements_after_return_are_not_emitted() {
    let program = Program { body: vec![ret(num(1.0)), ret(num(2.0))] };
    let bytes = compile(program, true).unwrap();
    let mut body = vec![0x00, 0x44];
    body.extend(1.0f64.to_le_bytes());
    body.extend([0x0F, 0x1A, 0x0B]);
    assert_eq!(bytes, module_with_body(&body));
}

#[test]
fn empty_program_is_the_bare_header() {
    let bytes = compile(Program { body: vec![] }, true).unwrap();
    assert_eq!(bytes, HEADER.to_vec());
}

#[test]
fn remainder_uses_and_releases_scratch_locals() {
    // let a = 7; a % 4
    let program = Program { body: vec![let_decl("a", num(7.0)), expr_stmt(binary("%", ident("a"), num(4.0)))] };
    let bytes = compile(program, true).unwrap();
    let mut body = vec![0x03, 0x01, 0x7C, 0x01, 0x7C, 0x01, 0x7C];
    body.push(0x44);
    body.extend(7.0f64.to_le_bytes());
    body.extend([0x22, 0x00, 0x1A, 0x20, 0x00, 0x44]);
    body.extend(4.0f64.to_le_bytes());
    body.extend([0x21, 0x01, 0x21, 0x02, 0x20, 0x02, 0x20, 0x02, 0x20, 0x01, 0xA3, 0x9D, 0x20, 0x01, 0xA2, 0xA1, 0x1A, 0x0B]);
    assert_eq!(bytes, module_with_body(&body));
}

#[test]
fn conditional_statement_compiles() {
    // if (1 < 2) { 3 } else { 4 }
    let stmt = node(NodeKind::IfStatement(IfStatement {
        test: Box::new(binary("<", num(1.0), num(2.0))),
        consequent: Box::new(node(NodeKind::BlockStatement(BlockStatement { body: vec![expr_stmt(num(3.0))], address_taken_vars: vec![] }))),
        alternate: Some(Box::new(expr_stmt(num(4.0)))),
    }));
    let bytes = compile(Program { body: vec![stmt] }, true).unwrap();
    let mut body = vec![0x00, 0x44];
    body.extend(1.0f64.to_le_bytes());
    body.push(0x44);
    body.extend(2.0f64.to_le_bytes());
    body.extend([0x63, 0xB8, 0x44]);
    body.extend(0.0f64.to_le_bytes());
    body.extend([0x62, 0x04, 0x7C, 0x44]);
    body.extend(3.0f64.to_le_bytes());
    body.extend([0x05, 0x44]);
    body.extend(4.0f64.to_le_bytes());
    body.extend([0x0B, 0x1A, 0x0B]);
    assert_eq!(bytes, module_with_body(&body));
}

fn block(body: Vec<Node>) -> Node {
    node(NodeKind::BlockStatement(BlockStatement { body, address_taken_vars: vec![] }))
}

fn function(name: &str, body: Vec<Node>) -> Node {
    node(NodeKind::FunctionDeclaration(FunctionDeclaration {
        id: Box::new(ident(name)),
        params: vec![],
        body: Box::new(block(body)),
        address_taken_vars: vec![],
        captured_vars: vec![],
    }))
}

fn call(callee: Node) -> Node {
    node(NodeKind::CallExpression(CallExpression { callee: Box::new(callee), arguments: vec![] }))
}

/// Reads an unsigned LEB128 number at `i`; returns it and the next position.
fn read_leb(bytes: &[u8], mut i: usize) -> (usize, usize) {
    let mut value = 0usize;
    let mut shift = 0;
    loop {
        let b = bytes[i];
        value |= ((b & 0x7F) as usize) << shift;
        i += 1;
        shift += 7;
        if b & 0x80 == 0 {
            return (value, i);
        }
    }
}

/// The sections of a module after the header, as (id, content).
fn sections(bytes: &[u8]) -> Vec<(u8, Vec<u8>)> {
    let mut out = Vec::new();
    let mut i = 8;
    while i < bytes.len() {
        let id = bytes[i];
        let (len, start) = read_leb(bytes, i + 1);
        out.push((id, bytes[start..start + len].to_vec()));
        i = start + len;
    }
    out
}

/// The function bodies of a code section's content.
fn bodies(code: &[u8]) -> Vec<Vec<u8>> {
    let mut out = Vec::new();
    let (count, mut i) = read_leb(code, 0);
    for _ in 0..count {
        let (len, start) = read_leb(code, i);
        out.push(code[start..start + len].to_vec());
        i = start + len;
    }
    assert_eq!(i, code.len());
    out
}

fn contains(hay: &[u8], needle: &[u8]) -> bool {
    hay.windows(needle.len()).any(|w| w == needle)
}

#[test]
fn function_values_go_through_the_table() {
    // function g(){ return 1; return 2; } g();
    let program = Program { body: vec![function("g", vec![ret(num(1.0)), ret(num(2.0))]), expr_stmt(call(ident("g")))] };
    let bytes = compile(program, true).unwrap();
    let secs = sections(&bytes);
    let ids: Vec<u8> = secs.iter().map(|s| s.0).collect();
    assert_eq!(ids, vec![1, 3, 4, 5, 6, 7, 9, 10]);
    assert_eq!(secs[0].1, vec![0x02, 0x60, 0x00, 0x00, 0x60, 0x01, 0x7F, 0x01, 0x7C]);
    assert_eq!(secs[1].1, vec![0x02, 0x01, 0x00]);
    assert_eq!(secs[2].1, vec![0x01, 0x70, 0x00, 0x02]);
    assert_eq!(secs[3].1, vec![0x01, 0x00, 0x01]);
    assert_eq!(secs[4].1, vec![0x01, 0x7F, 0x01, 0x41, 0x08, 0x0B]);
    assert_eq!(secs[5].1, vec![0x01, 0x04, b'm', b'a', b'i', b'n', 0x00, 0x01]);
    assert_eq!(secs[6].1, vec![0x01, 0x00, 0x41, 0x00, 0x0B, 0x02, 0x00, 0x01]);
    let code = bodies(&secs[7].1);
    assert_eq!(code.len(), 2);
    let mut g_body = vec![0x00, 0x44];
    g_body.extend(1.0f64.to_le_bytes());
    g_body.extend([0x0F, 0x0B]);
    assert_eq!(code[0], g_body);
    let main_body = vec![
        0x03, 0x01, 0x7F, 0x01, 0x7C, 0x01, 0x7E,
        0x23, 0x00, 0x23, 0x00, 0x41, 0x00, 0x6A, 0x24, 0x00,
        0x21, 0x00,
        0x20, 0x00, 0xAD, 0x42, 0x10, 0x86, 0x42, 0x00, 0x84, 0xBA,
        0x22, 0x01, 0x1A,
        0x20, 0x01, 0xB1, 0x22, 0x02, 0x42, 0x10, 0x88, 0xA7, 0x20, 0x02, 0x42, 0xFF, 0xFF, 0x03, 0x83, 0xA7,
        0x11, 0x01, 0x00, 0x1A, 0x0B,
    ];
    assert_eq!(code[1], main_body);
}

#[test]
fn captured_var_compiles_to_heap_cell() {
    // function f(){ let x = 4; return function(){ return x; }; } f()();
    let inner = node(NodeKind::FunctionExpression(FunctionExpression {
        params: vec![],
        body: Box::new(block(vec![ret(ident("x"))])),
        address_taken_vars: vec![],
        captured_vars: vec![],
    }));
    let f = function("f", vec![let_decl("x", num(4.0)), ret(inner)]);
    let program = Program { body: vec![f, expr_stmt(call(call(ident("f"))))] };
    let bytes = compile(program, true).unwrap();
    let secs = sections(&bytes);
    let ids: Vec<u8> = secs.iter().map(|s| s.0).collect();
    assert_eq!(ids, vec![1, 3, 4, 5, 6, 7, 9, 10]);
    let elem = &secs[6].1;
    assert_eq!(elem, &vec![0x01, 0x00, 0x41, 0x00, 0x0B, 0x03, 0x00, 0x01, 0x02]);
    let code = bodies(&secs[7].1);
    assert_eq!(code.len(), 3);
    // the inner closure reads x through its record: the cell address, then the value
    assert!(contains(&code[0], &[0x20, 0x00, 0x28, 0x02, 0x00, 0x2B, 0x03, 0x00, 0x0F]));
    // f puts x in a fresh heap cell and stores the cell's address in the record
    assert!(contains(&code[1], &[0x23, 0x00, 0x23, 0x00, 0x41, 0x08, 0x6A, 0x24, 0x00]));
    assert!(contains(&code[1], &[0x39, 0x03, 0x00]));
    assert!(contains(&code[1], &[0x36, 0x02, 0x00]));
}

#[test]
fn errors_come_from_their_stage() {
    let program = Program { body: vec![expr_stmt(ident("missing"))] };
    assert_eq!(compile(program, true), Err(CompileError::Resolve(ResolveError::UndeclaredGlobal)));
}

#[test]
fn let_declared_twice_fails() {
    let program = Program { body: vec![let_decl("a", num(1.0)), let_decl("a", num(2.0))] };
    assert_eq!(compile(program, true), Err(CompileError::Resolve(ResolveError::DuplicateBinding)));
}

#[test]
fn constant_program_stops_at_first_return() {
    let program = Program { body: vec![expr_stmt(num(5.0)), ret(num(1.0)), expr_stmt(num(9.0))] };
    let bytes = compile(program, true).unwrap();
    let mut body = vec![0x00, 0x44];
    body.extend(5.0f64.to_le_bytes());
    body.extend([0x1A, 0x44]);
    body.extend(1.0f64.to_le_bytes());
    body.extend([0x0F, 0x1A, 0x0B]);
    assert_eq!(bytes, module_with_body(&body));
}
