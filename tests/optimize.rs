use wasmcomp::estree::VarLocId;
use wasmcomp::ir::{Expr, ExprKind, Func, Program, VarType};
use wasmcomp::prune::optimize;

fn number(n: f64) -> Expr {
    Expr { vartype: Some(VarType::Number), kind: ExprKind::PrimNumber(n.to_bits()) }
}

fn ret(e: Expr) -> Expr {
    Expr { vartype: None, kind: ExprKind::Return { expr: Box::new(e) } }
}

fn seq(content: Vec<Expr>, vartype: Option<VarType>) -> Expr {
    Expr { vartype, kind: ExprKind::Sequence { content } }
}

fn program(body: Expr) -> Program {
    Program { imports: vec![], funcs: vec![Func { result: Some(VarType::Any), expr: body }], entry: 0 }
}

fn content(e: &Expr) -> &Vec<Expr> {
    match &e.kind {
        ExprKind::Sequence { content } => content,
        _ => panic!("not a sequence"),
    }
}

#[test]
fn unreachable_after_return() {
    let body = seq(vec![ret(number(1.0)), ret(number(2.0))], Some(VarType::Any));
    let (p, changed) = optimize(program(body));
    assert!(changed);
    let body = &p.funcs[0].expr;
    assert_eq!(content(body).len(), 1);
    assert!(matches!(content(body)[0].kind, ExprKind::Return { .. }));
    assert_eq!(body.vartype, None);
    let (p2, changed2) = optimize(p);
    assert!(!changed2);
    assert_eq!(content(&p2.funcs[0].expr).len(), 1);
}

#[test]
fn reachable_code_is_kept() {
    let body = seq(vec![number(1.0), number(2.0)], Some(VarType::Number));
    let (p, changed) = optimize(program(body));
    assert!(!changed);
    assert_eq!(content(&p.funcs[0].expr).len(), 2);
}

#[test]
fn divergence_propagates_out_of_nested_sequences() {
    let inner = seq(vec![ret(number(1.0)), number(3.0)], Some(VarType::Number));
    let decl = Expr {
        vartype: Some(VarType::Number),
        kind: ExprKind::Declaration { local: VarLocId { depth: 1, index: 0 }, expr: Box::new(inner) },
    };
    let body = seq(vec![number(0.0), decl, number(4.0), number(5.0)], Some(VarType::Number));
    let (p, changed) = optimize(program(body));
    assert!(changed);
    let body = &p.funcs[0].expr;
    assert_eq!(body.vartype, None);
    let kept = content(body);
    assert_eq!(kept.len(), 2);
    assert_eq!(kept[1].vartype, None);
    match &kept[1].kind {
        ExprKind::Declaration { expr, .. } => assert_eq!(content(expr).len(), 1),
        _ => panic!("expected a declaration"),
    }
    let (_, again) = optimize(p);
    assert!(!again);
}

#[test]
fn conditional_children_are_optimized_but_not_cut() {
    let t = seq(vec![ret(number(1.0)), number(2.0)], Some(VarType::Number));
    let cond = Expr {
        vartype: Some(VarType::Any),
        kind: ExprKind::Conditional {
            cond: Box::new(Expr { vartype: Some(VarType::Boolean), kind: ExprKind::PrimBoolean(true) }),
            true_expr: Box::new(t),
            false_expr: Box::new(number(3.0)),
        },
    };
    let body = seq(vec![cond, number(4.0)], Some(VarType::Number));
    let (p, changed) = optimize(program(body));
    assert!(changed);
    let kept = content(&p.funcs[0].expr);
    assert_eq!(kept.len(), 2);
    assert_eq!(kept[0].vartype, Some(VarType::Any));
}

#[test]
fn empty_sequence_has_empty_type() {
    let (p, changed) = optimize(program(seq(vec![], Some(VarType::Undefined))));
    assert!(changed);
    assert_eq!(p.funcs[0].expr.vartype, None);
}
