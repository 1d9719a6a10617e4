//! Lowering: turns a resolved syntax tree into the IR, one function per
//! function of the source plus one for the top level.
use vstd::prelude::*;
use crate::estree::{const_list, const_stmt, number_literal, Literal, LiteralValue, Node, NodeKind, PreVar, VarLocId};
use crate::ir::{
    ir_wf, ir_wf_list, lub, model, model_list, seq_vartype, Expr, ExprKind, Func, Program, SExpr, SKind,
    VarType,
};

verus! {

/// Errors of lowering.
#[derive(Clone, Copy, PartialEq, Eq, Structural, Debug)]
pub enum LowerError {
    /// A node that lowering does not handle.
    UnsupportedNode,
    /// The left side of an assignment is not a variable.
    InvalidAssignTarget,
    /// An identifier that resolution did not bind.
    Unresolved,
}

/// Every function body satisfies the IR invariants.
pub open spec fn funcs_wf(funcs: Seq<Func>) -> bool {
    forall|i: int| 0 <= i < funcs.len() ==> ir_wf(#[trigger] model(funcs[i].expr))
}

/// The runtime primitive a binary operator applies, by its text.
pub open spec fn binary_prim(op: Seq<char>) -> Option<usize> {
    if op == "+"@ {
        Some(0)
    } else if op == "-"@ {
        Some(1)
    } else if op == "*"@ {
        Some(2)
    } else if op == "/"@ {
        Some(3)
    } else if op == "%"@ {
        Some(4)
    } else if op == "==="@ {
        Some(5)
    } else if op == "!=="@ {
        Some(6)
    } else if op == "<"@ {
        Some(7)
    } else if op == "<="@ {
        Some(8)
    } else if op == ">"@ {
        Some(9)
    } else if op == ">="@ {
        Some(10)
    } else {
        None
    }
}

/// The runtime primitive a unary operator applies, by its text.
pub open spec fn unary_prim(op: Seq<char>) -> Option<usize> {
    if op == "-"@ {
        Some(11)
    } else if op == "!"@ {
        Some(12)
    } else {
        None
    }
}

fn binary_prim_of(op: &String) -> (r: Option<usize>)
    ensures
        r == binary_prim(op@),
{
    if *op == "+".to_string() {
        Some(0)
    } else if *op == "-".to_string() {
        Some(1)
    } else if *op == "*".to_string() {
        Some(2)
    } else if *op == "/".to_string() {
        Some(3)
    } else if *op == "%".to_string() {
        Some(4)
    } else if *op == "===".to_string() {
        Some(5)
    } else if *op == "!==".to_string() {
        Some(6)
    } else if *op == "<".to_string() {
        Some(7)
    } else if *op == "<=".to_string() {
        Some(8)
    } else if *op == ">".to_string() {
        Some(9)
    } else if *op == ">=".to_string() {
        Some(10)
    } else {
        None
    }
}

fn unary_prim_of(op: &String) -> (r: Option<usize>)
    ensures
        r == unary_prim(op@),
{
    if *op == "-".to_string() {
        Some(11)
    } else if *op == "!".to_string() {
        Some(12)
    } else {
        None
    }
}

fn undefined() -> (r: Expr)
    ensures
        ir_wf(model(r)),
        r.vartype == Some(VarType::Undefined),
{
    Expr { vartype: Some(VarType::Undefined), kind: ExprKind::PrimUndefined }
}

proof fn lemma_model_list_push(v: Seq<Expr>, x: Expr)
    ensures
        model_list(v.push(x)) == model_list(v).push(model(x)),
{
    assert(v.push(x).drop_last() =~= v);
}

proof fn lemma_wf_list_push(s: Seq<SExpr>, x: SExpr)
    ensures
        ir_wf_list(s.push(x)) == (ir_wf_list(s) && ir_wf(x)),
{
    assert(s.push(x).drop_last() =~= s);
}

/// `seq_vartype` is empty when any element's type is, else the last
/// element's type.
proof fn lemma_seq_vartype(s: Seq<SExpr>)
    requires
        s.len() > 0,
    ensures
        seq_vartype(s) == if exists|j: int| 0 <= j < s.len() && (#[trigger] s[j]).vartype is None {
            None
        } else {
            s.last().vartype
        },
    decreases s.len(),
{
    if s.len() > 1 {
        let t = s.drop_first();
        lemma_seq_vartype(t);
        if s[0].vartype is Some {
            if exists|j: int| 0 <= j < s.len() && (#[trigger] s[j]).vartype is None {
                let j = choose|j: int| 0 <= j < s.len() && (#[trigger] s[j]).vartype is None;
                assert(t[j - 1] == s[j]);
            }
            if exists|j: int| 0 <= j < t.len() && (#[trigger] t[j]).vartype is None {
                let j = choose|j: int| 0 <= j < t.len() && (#[trigger] t[j]).vartype is None;
                assert(s[j + 1] == t[j]);
            }
        }
    }
}

/// A sequence of the given expressions, ending with `undefined` when it
/// would otherwise be empty, typed by the rule for sequences.
fn make_sequence(content: Vec<Expr>) -> (r: Expr)
    requires
        ir_wf_list(model_list(content@)),
    ensures
        ir_wf(model(r)),
        r.kind is Sequence,
        content@.len() > 0 ==> model(r) == sequence_model(model_list(content@)),
{
    let mut content = content;
    if content.len() == 0 {
        let u = undefined();
        proof {
            lemma_model_list_push(content@, u);
            lemma_wf_list_push(model_list(content@), model(u));
        }
        content.push(u);
    }
    let ghost m = model_list(content@);
    proof {
        crate::ir::lemma_model_list(content@);
        lemma_seq_vartype(m);
    }
    let n = content.len();
    let mut i: usize = 0;
    let mut diverges = false;
    while i < n
        invariant
            n == content@.len(),
            n > 0,
            i <= n,
            m == model_list(content@),
            m.len() == n,
            forall|j: int| 0 <= j < n ==> #[trigger] m[j] == model(content@[j]),
            diverges <==> exists|j: int| 0 <= j < i && (#[trigger] m[j]).vartype is None,
        decreases n - i,
    {
        match content[i].vartype {
            None => {
                diverges = true;
                assert(m[i as int].vartype is None);
            },
            Some(_) => {},
        }
        i += 1;
    }
    let vartype = if diverges {
        None
    } else {
        content[n - 1].vartype
    };
    Expr { vartype, kind: ExprKind::Sequence { content } }
}

/// `n` is an identifier that resolution bound to a variable.
pub open spec fn var_ok(n: Node) -> bool {
    n.kind matches NodeKind::Identifier(i) && i.prevar matches Some(PreVar::Target(_))
}

/// Lowering succeeds on the expression `n`: identifiers are bound, literals
/// are not regular expressions, operators are among the runtime's
/// primitives, assignments are plain `=` to a bound variable, and the
/// expression is one of the forms lowering maps.
pub open spec fn lowerable_expr(n: Node) -> bool
    decreases n, 0int,
{
    match n.kind {
        NodeKind::Identifier(i) => i.prevar matches Some(PreVar::Target(_)),
        NodeKind::Literal(l) => !(l.value is RegExp),
        NodeKind::UnaryExpression(u) => unary_prim(u.operator@) is Some && lowerable_expr(*u.argument),
        NodeKind::BinaryExpression(b) => binary_prim(b.operator@) is Some && lowerable_expr(*b.left)
            && lowerable_expr(*b.right),
        NodeKind::AssignmentExpression(a) => a.operator@ == "="@ && var_ok(*a.left) && lowerable_expr(*a.right),
        NodeKind::ConditionalExpression(c) => lowerable_expr(*c.test) && lowerable_expr(*c.consequent)
            && lowerable_expr(*c.alternate),
        NodeKind::CallExpression(c) => lowerable_expr(*c.callee) && lowerable_exprs(c.arguments@),
        NodeKind::ArrowFunctionExpression(f) => lowerable_body(*f.body, f.expression),
        NodeKind::FunctionExpression(f) => lowerable_body(*f.body, false),
        _ => false,
    }
}

/// Lowering succeeds on a function body: an expression for an arrow with
/// an expression body, a statement otherwise.
pub open spec fn lowerable_body(body: Node, expression_body: bool) -> bool
    decreases body, 2int,
{
    if expression_body {
        lowerable_expr(body)
    } else {
        lowerable_stmt(body)
    }
}

/// Lowering succeeds on the statement `n`.
pub open spec fn lowerable_stmt(n: Node) -> bool
    decreases n, 1int,
{
    match n.kind {
        NodeKind::ExpressionStatement(e) => lowerable_expr(*e.expression),
        NodeKind::BlockStatement(b) => lowerable_stmts(b.body@),
        NodeKind::EmptyStatement(_) => true,
        NodeKind::DebuggerStatement(_) => true,
        NodeKind::Directive(_) => true,
        NodeKind::ReturnStatement(r) => match r.argument {
            Some(a) => lowerable_expr(*a),
            None => true,
        },
        NodeKind::IfStatement(i) => lowerable_expr(*i.test) && lowerable_stmt(*i.consequent) && match i.alternate {
            Some(a) => lowerable_stmt(*a),
            None => true,
        },
        NodeKind::VariableDeclaration(d) => lowerable_decls(d.declarations@),
        NodeKind::FunctionDeclaration(f) => var_ok(*f.id) && lowerable_body(*f.body, false),
        _ => lowerable_expr(n),
    }
}

pub open spec fn lowerable_exprs(s: Seq<Node>) -> bool
    decreases s, 1int,
{
    if s.len() == 0 {
        true
    } else {
        lowerable_exprs(s.drop_last()) && lowerable_expr(s.last())
    }
}

pub open spec fn lowerable_stmts(s: Seq<Node>) -> bool
    decreases s, 1int,
{
    if s.len() == 0 {
        true
    } else {
        lowerable_stmts(s.drop_last()) && lowerable_stmt(s.last())
    }
}

/// Lowering succeeds on a declarator: it declares a bound variable, with an
/// initializer that lowers, if any.
pub open spec fn lowerable_decl(n: Node) -> bool
    decreases n, 1int,
{
    match n.kind {
        NodeKind::VariableDeclarator(d) => var_ok(*d.id) && match d.init {
            Some(i) => lowerable_expr(*i),
            None => true,
        },
        _ => false,
    }
}

pub open spec fn lowerable_decls(s: Seq<Node>) -> bool
    decreases s, 2int,
{
    if s.len() == 0 {
        true
    } else {
        lowerable_decls(s.drop_last()) && lowerable_decl(s.last())
    }
}

proof fn lemma_lowerable_exprs(s: Seq<Node>)
    ensures
        lowerable_exprs(s) <==> forall|j: int| 0 <= j < s.len() ==> lowerable_expr(#[trigger] s[j]),
    decreases s.len(),
{
    if s.len() > 0 {
        let d = s.drop_last();
        lemma_lowerable_exprs(d);
        if lowerable_exprs(s) {
            assert forall|j: int| 0 <= j < s.len() implies lowerable_expr(#[trigger] s[j]) by {
                if j < s.len() - 1 {
                    assert(d[j] == s[j]);
                }
            }
        }
        if forall|j: int| 0 <= j < s.len() ==> lowerable_expr(#[trigger] s[j]) {
            assert forall|j: int| 0 <= j < d.len() implies lowerable_expr(#[trigger] d[j]) by {
                assert(d[j] == s[j]);
            }
            assert(lowerable_expr(s[s.len() - 1]));
        }
    }
}

proof fn lemma_lowerable_stmts(s: Seq<Node>)
    ensures
        lowerable_stmts(s) <==> forall|j: int| 0 <= j < s.len() ==> lowerable_stmt(#[trigger] s[j]),
    decreases s.len(),
{
    if s.len() > 0 {
        let d = s.drop_last();
        lemma_lowerable_stmts(d);
        if lowerable_stmts(s) {
            assert forall|j: int| 0 <= j < s.len() implies lowerable_stmt(#[trigger] s[j]) by {
                if j < s.len() - 1 {
                    assert(d[j] == s[j]);
                }
            }
        }
        if forall|j: int| 0 <= j < s.len() ==> lowerable_stmt(#[trigger] s[j]) {
            assert forall|j: int| 0 <= j < d.len() implies lowerable_stmt(#[trigger] d[j]) by {
                assert(d[j] == s[j]);
            }
            assert(lowerable_stmt(s[s.len() - 1]));
        }
    }
}

proof fn lemma_lowerable_decls(s: Seq<Node>)
    ensures
        lowerable_decls(s) <==> forall|j: int| 0 <= j < s.len() ==> lowerable_decl(#[trigger] s[j]),
    decreases s.len(),
{
    if s.len() > 0 {
        let d = s.drop_last();
        lemma_lowerable_decls(d);
        if lowerable_decls(s) {
            assert forall|j: int| 0 <= j < s.len() implies lowerable_decl(#[trigger] s[j]) by {
                if j < s.len() - 1 {
                    assert(d[j] == s[j]);
                }
            }
        }
        if forall|j: int| 0 <= j < s.len() ==> lowerable_decl(#[trigger] s[j]) {
            assert forall|j: int| 0 <= j < d.len() implies lowerable_decl(#[trigger] d[j]) by {
                assert(d[j] == s[j]);
            }
            assert(lowerable_decl(s[s.len() - 1]));
        }
    }
}

/// The IR of a number literal.
pub open spec fn number_model(b: u64) -> SExpr {
    SExpr { vartype: Some(VarType::Number), kind: SKind::PrimNumber(b) }
}

/// The IR of a statement of the constant fragment: the number, or a
/// return of it.
pub open spec fn const_model(n: Node) -> SExpr {
    match n.kind {
        NodeKind::ReturnStatement(r) => SExpr {
            vartype: None,
            kind: SKind::Return { expr: Box::new(number_model(number_literal(*r.argument->0)->0)) },
        },
        NodeKind::ExpressionStatement(e) => number_model(number_literal(*e.expression)->0),
        _ => number_model(0),
    }
}

/// The IR of each statement of the constant fragment, in order.
pub open spec fn const_models(s: Seq<Node>) -> Seq<SExpr> {
    s.map_values(|n: Node| const_model(n))
}

/// A sequence of the given expressions, typed by the rule for sequences.
pub open spec fn sequence_model(content: Seq<SExpr>) -> SExpr {
    SExpr { vartype: seq_vartype(content), kind: SKind::Sequence { content } }
}

fn var_of(node: &Node) -> (r: Result<VarLocId, LowerError>)
    ensures
        r is Ok <==> var_ok(*node),
{
    match &node.kind {
        NodeKind::Identifier(ident) => match ident.prevar {
            Some(PreVar::Target(id)) => Ok(id),
            _ => Err(LowerError::Unresolved),
        },
        _ => Err(LowerError::InvalidAssignTarget),
    }
}

fn lower_literal(lit: Literal) -> (r: Result<Expr, LowerError>)
    ensures
        r is Ok <==> !(lit.value is RegExp),
        lit.value matches LiteralValue::Number(b) ==> (r matches Ok(e) && model(e) == number_model(b)),
        r matches Ok(e) ==> ir_wf(model(e)),
{
    match lit.value {
        LiteralValue::String(s) => Ok(Expr { vartype: Some(VarType::String), kind: ExprKind::PrimString(s) }),
        LiteralValue::Boolean(b) => Ok(Expr { vartype: Some(VarType::Boolean), kind: ExprKind::PrimBoolean(b) }),
        LiteralValue::Null => Ok(undefined()),
        LiteralValue::Undefined => Ok(undefined()),
        LiteralValue::Number(bits) => Ok(Expr { vartype: Some(VarType::Number), kind: ExprKind::PrimNumber(bits) }),
        LiteralValue::RegExp => Err(LowerError::UnsupportedNode),
    }
}

fn boxed(e: Expr) -> (r: Box<Expr>)
    ensures
        *r == e,
{
    Box::new(e)
}

/// Lowers a list of expressions, in order.
fn lower_list(nodes: Vec<Node>, funcs: &mut Vec<Func>) -> (r: Result<Vec<Expr>, LowerError>)
    requires
        funcs_wf(old(funcs)@),
    ensures
        funcs_wf(final(funcs)@),
        r matches Ok(v) ==> ir_wf_list(model_list(v@)) && v@.len() == nodes@.len(),
        r is Ok <==> lowerable_exprs(nodes@),
    decreases nodes, 1int,
{
    let mut out: Vec<Expr> = Vec::new();
    let ghost orig = nodes;
    let n = nodes.len();
    let mut rest = nodes;
    proof {
        lemma_lowerable_exprs(nodes@);
    }
    let mut i: usize = 0;
    while i < n
        invariant
            orig == nodes,
            n == orig@.len(),
            i <= n,
            rest@ == orig@.subrange(i as int, n as int),
            out@.len() == i,
            funcs_wf(funcs@),
            forall|j: int| 0 <= j < i ==> lowerable_expr(#[trigger] orig@[j]),
            lowerable_exprs(orig@) <==> forall|j: int| 0 <= j < n ==> lowerable_expr(#[trigger] orig@[j]),
            ir_wf_list(model_list(out@)),
        decreases n - i,
    {
        let x = rest.remove(0);
        assert(x == orig@[i as int]);
        proof {
            vstd::std_specs::vec::axiom_vec_index_decreases(orig, i as int);
        }
        let e = lower_expr(x, funcs)?;
        proof {
            lemma_model_list_push(out@, e);
            lemma_wf_list_push(model_list(out@), model(e));
        }
        out.push(e);
        i += 1;
        assert(rest@ =~= orig@.subrange(i as int, n as int));
    }
    Ok(out)
}

/// The primitive that builds the record of a closure's captured variables.
pub const CLOSURE_RECORD: usize = 13;

fn lub_of(a: Option<VarType>, b: Option<VarType>) -> (r: Option<VarType>)
    ensures
        r == lub(a, b),
{
    match (a, b) {
        (None, _) => b,
        (_, None) => a,
        (Some(x), Some(y)) => if x == y {
            a
        } else {
            Some(VarType::Any)
        },
    }
}

/// Lowers an expression.
fn lower_expr(node: Node, funcs: &mut Vec<Func>) -> (r: Result<Expr, LowerError>)
    requires
        funcs_wf(old(funcs)@),
    ensures
        funcs_wf(final(funcs)@),
        r matches Ok(e) ==> ir_wf(model(e)),
        r is Ok <==> lowerable_expr(node),
        number_literal(node) matches Some(b) ==> (r matches Ok(e) && model(e) == number_model(b)
            && final(funcs)@ == old(funcs)@),
    decreases node, 0int,
{
    match node.kind {
        NodeKind::Identifier(ident) => match ident.prevar {
            Some(PreVar::Target(id)) => Ok(Expr { vartype: Some(VarType::Any), kind: ExprKind::VarName { target: id } }),
            _ => Err(LowerError::Unresolved),
        },
        NodeKind::Literal(lit) => lower_literal(lit),
        NodeKind::UnaryExpression(u) => {
            let prim = match unary_prim_of(&u.operator) {
                Some(p) => p,
                None => {
                    return Err(LowerError::UnsupportedNode);
                },
            };
            let arg = lower_expr(*u.argument, funcs)?;
            let mut args: Vec<Expr> = Vec::new();
            proof {
                lemma_model_list_push(args@, arg);
                lemma_wf_list_push(model_list(args@), model(arg));
            }
            args.push(arg);
            Ok(Expr { vartype: Some(VarType::Any), kind: ExprKind::PrimAppl { prim_inst: prim, args } })
        },
        NodeKind::BinaryExpression(b) => {
            let prim = match binary_prim_of(&b.operator) {
                Some(p) => p,
                None => {
                    return Err(LowerError::UnsupportedNode);
                },
            };
            let left = lower_expr(*b.left, funcs)?;
            let right = lower_expr(*b.right, funcs)?;
            let mut args: Vec<Expr> = Vec::new();
            proof {
                lemma_model_list_push(args@, left);
                lemma_wf_list_push(model_list(args@), model(left));
            }
            args.push(left);
            proof {
                lemma_model_list_push(args@, right);
                lemma_wf_list_push(model_list(args@), model(right));
            }
            args.push(right);
            Ok(Expr { vartype: Some(VarType::Any), kind: ExprKind::PrimAppl { prim_inst: prim, args } })
        },
        NodeKind::AssignmentExpression(a) => {
            if !(a.operator == "=".to_string()) {
                return Err(LowerError::UnsupportedNode);
            }
            let target = var_of(&a.left)?;
            let value = lower_expr(*a.right, funcs)?;
            Ok(Expr { vartype: value.vartype, kind: ExprKind::Assign { target, expr: boxed(value) } })
        },
        NodeKind::ConditionalExpression(c) => {
            let cond = lower_expr(*c.test, funcs)?;
            let t = lower_expr(*c.consequent, funcs)?;
            let f = lower_expr(*c.alternate, funcs)?;
            let vartype = lub_of(t.vartype, f.vartype);
            Ok(Expr {
                vartype,
                kind: ExprKind::Conditional { cond: boxed(cond), true_expr: boxed(t), false_expr: boxed(f) },
            })
        },
        NodeKind::CallExpression(c) => {
            let callee = lower_expr(*c.callee, funcs)?;
            let args = lower_list(c.arguments, funcs)?;
            Ok(Expr { vartype: Some(VarType::Any), kind: ExprKind::Appl { func: boxed(callee), args } })
        },
        NodeKind::ArrowFunctionExpression(f) => {
            let expression_body = f.expression;
            lower_function(*f.body, expression_body, f.captured_vars, funcs)
        },
        NodeKind::FunctionExpression(f) => lower_function(*f.body, false, f.captured_vars, funcs),
        _ => Err(LowerError::UnsupportedNode),
    }
}

/// Lowers a function: its body becomes a new IR function, and the
/// expression that stands for it is a closure over that function with a
/// record of the variables it captures.
fn lower_function(body: Node, expression_body: bool, captured: Vec<VarLocId>, funcs: &mut Vec<Func>) -> (r: Result<Expr, LowerError>)
    requires
        funcs_wf(old(funcs)@),
    ensures
        funcs_wf(final(funcs)@),
        r matches Ok(e) ==> ir_wf(model(e)) && e.vartype == Some(VarType::Func),
        r is Ok <==> lowerable_body(body, expression_body),
    decreases body, 2int,
{
    let lowered = if expression_body {
        let value = lower_expr(body, funcs)?;
        let ret = Expr { vartype: None, kind: ExprKind::Return { expr: boxed(value) } };
        let mut content: Vec<Expr> = Vec::new();
        proof {
            lemma_model_list_push(content@, ret);
            lemma_wf_list_push(model_list(content@), model(ret));
        }
        content.push(ret);
        make_sequence(content)
    } else {
        lower_stmt(body, funcs)?
    };
    let idx = funcs.len();
    funcs.push(Func { result: Some(VarType::Any), expr: lowered });
    let mut record: Vec<Expr> = Vec::new();
    let mut i: usize = 0;
    while i < captured.len()
        invariant
            i <= captured@.len(),
            ir_wf_list(model_list(record@)),
        decreases captured@.len() - i,
    {
        let v = Expr { vartype: Some(VarType::Any), kind: ExprKind::VarName { target: captured[i] } };
        proof {
            lemma_model_list_push(record@, v);
            lemma_wf_list_push(model_list(record@), model(v));
        }
        record.push(v);
        i += 1;
    }
    let closure = Expr { vartype: Some(VarType::Any), kind: ExprKind::PrimAppl { prim_inst: CLOSURE_RECORD, args: record } };
    assert(ir_wf(model(closure)));
    let mut funcidxs: Vec<usize> = Vec::new();
    funcidxs.push(idx);
    let r = Expr { vartype: Some(VarType::Func), kind: ExprKind::PrimFunc { funcidxs, closure: boxed(closure) } };
    assert(ir_wf(model(r)));
    Ok(r)
}

/// Lowers a statement.
fn lower_stmt(node: Node, funcs: &mut Vec<Func>) -> (r: Result<Expr, LowerError>)
    requires
        funcs_wf(old(funcs)@),
    ensures
        funcs_wf(final(funcs)@),
        r matches Ok(e) ==> ir_wf(model(e)),
        r is Ok <==> lowerable_stmt(node),
        const_stmt(node) ==> (r matches Ok(e) && model(e) == const_model(node) && final(funcs)@ == old(funcs)@),
    decreases node, 1int,
{
    match node.kind {
        NodeKind::ExpressionStatement(e) => lower_expr(*e.expression, funcs),
        NodeKind::BlockStatement(b) => {
            let content = lower_stmts(b.body, funcs)?;
            Ok(make_sequence(content))
        },
        NodeKind::EmptyStatement(_) | NodeKind::DebuggerStatement(_) | NodeKind::Directive(_) => Ok(undefined()),
        NodeKind::ReturnStatement(r) => {
            let value = match r.argument {
                Some(a) => lower_expr(*a, funcs)?,
                None => undefined(),
            };
            Ok(Expr { vartype: None, kind: ExprKind::Return { expr: boxed(value) } })
        },
        NodeKind::IfStatement(i) => {
            let cond = lower_expr(*i.test, funcs)?;
            let t = lower_stmt(*i.consequent, funcs)?;
            let f = match i.alternate {
                Some(a) => lower_stmt(*a, funcs)?,
                None => undefined(),
            };
            let vartype = lub_of(t.vartype, f.vartype);
            Ok(Expr {
                vartype,
                kind: ExprKind::Conditional { cond: boxed(cond), true_expr: boxed(t), false_expr: boxed(f) },
            })
        },
        NodeKind::VariableDeclaration(d) => {
            let content = lower_declarators(d.declarations, funcs)?;
            Ok(make_sequence(content))
        },
        NodeKind::FunctionDeclaration(f) => {
            let local = var_of(&f.id)?;
            let value = lower_function(*f.body, false, f.captured_vars, funcs)?;
            Ok(Expr { vartype: value.vartype, kind: ExprKind::Declaration { local, expr: boxed(value) } })
        },
        _ => lower_expr(node, funcs),
    }
}

/// Lowers the statements of a block, in order.
fn lower_stmts(nodes: Vec<Node>, funcs: &mut Vec<Func>) -> (r: Result<Vec<Expr>, LowerError>)
    requires
        funcs_wf(old(funcs)@),
    ensures
        funcs_wf(final(funcs)@),
        r matches Ok(v) ==> ir_wf_list(model_list(v@)),
        r is Ok <==> lowerable_stmts(nodes@),
        const_list(nodes@) ==> (r matches Ok(v) && model_list(v@) == const_models(nodes@) && final(funcs)@ == old(
            funcs,
        )@),
    decreases nodes, 1int,
{
    let mut out: Vec<Expr> = Vec::new();
    let ghost orig = nodes;
    let n = nodes.len();
    let mut rest = nodes;
    proof {
        lemma_lowerable_stmts(nodes@);
    }
    let mut i: usize = 0;
    while i < n
        invariant
            orig == nodes,
            n == orig@.len(),
            i <= n,
            rest@ == orig@.subrange(i as int, n as int),
            funcs_wf(funcs@),
            forall|j: int| 0 <= j < i ==> lowerable_stmt(#[trigger] orig@[j]),
            lowerable_stmts(orig@) <==> forall|j: int| 0 <= j < n ==> lowerable_stmt(#[trigger] orig@[j]),
            ir_wf_list(model_list(out@)),
            const_list(orig@) ==> model_list(out@) == const_models(orig@.take(i as int)) && funcs@ == old(funcs)@,
        decreases n - i,
    {
        let x = rest.remove(0);
        assert(x == orig@[i as int]);
        proof {
            vstd::std_specs::vec::axiom_vec_index_decreases(orig, i as int);
        }
        let e = lower_stmt(x, funcs)?;
        proof {
            if const_list(orig@) {
                assert(const_stmt(orig@[i as int]));
                lemma_model_list_push(out@, e);
                assert(const_models(orig@.take(i as int + 1)) =~= const_models(orig@.take(i as int)).push(
                    const_model(orig@[i as int]),
                ));
                assert(model_list(out@.push(e)) == const_models(orig@.take(i as int + 1)));
            }
        }
        proof {
            lemma_model_list_push(out@, e);
            lemma_wf_list_push(model_list(out@), model(e));
        }
        out.push(e);
        i += 1;
        assert(rest@ =~= orig@.subrange(i as int, n as int));
    }
    proof {
        assert(orig@.take(n as int) =~= orig@);
    }
    Ok(out)
}

/// Lowers each declarator to a declaration of its variable, initialized to
/// its initializer or to `undefined`.
fn lower_declarators(nodes: Vec<Node>, funcs: &mut Vec<Func>) -> (r: Result<Vec<Expr>, LowerError>)
    requires
        funcs_wf(old(funcs)@),
    ensures
        funcs_wf(final(funcs)@),
        r matches Ok(v) ==> ir_wf_list(model_list(v@)),
        r is Ok <==> lowerable_decls(nodes@),
    decreases nodes, 1int,
{
    let mut out: Vec<Expr> = Vec::new();
    let ghost orig = nodes;
    let n = nodes.len();
    let mut rest = nodes;
    proof {
        lemma_lowerable_decls(nodes@);
    }
    let mut i: usize = 0;
    while i < n
        invariant
            orig == nodes,
            n == orig@.len(),
            i <= n,
            rest@ == orig@.subrange(i as int, n as int),
            funcs_wf(funcs@),
            forall|j: int| 0 <= j < i ==> lowerable_decl(#[trigger] orig@[j]),
            lowerable_decls(orig@) <==> forall|j: int| 0 <= j < n ==> lowerable_decl(#[trigger] orig@[j]),
            ir_wf_list(model_list(out@)),
        decreases n - i,
    {
        let x = rest.remove(0);
        assert(x == orig@[i as int]);
        proof {
            vstd::std_specs::vec::axiom_vec_index_decreases(orig, i as int);
        }
        let e = match x.kind {
            NodeKind::VariableDeclarator(d) => {
                let local = var_of(&d.id)?;
                let value = match d.init {
                    Some(init) => lower_expr(*init, funcs)?,
                    None => undefined(),
                };
                Expr { vartype: value.vartype, kind: ExprKind::Declaration { local, expr: boxed(value) } }
            },
            _ => {
                return Err(LowerError::UnsupportedNode);
            },
        };
        proof {
            lemma_model_list_push(out@, e);
            lemma_wf_list_push(model_list(out@), model(e));
        }
        out.push(e);
        i += 1;
        assert(rest@ =~= orig@.subrange(i as int, n as int));
    }
    Ok(out)
}

/// Lowers a resolved program. Each function of the source becomes an IR
/// function, in the order their bodies end; the top level comes last and is
/// the entry. Every IR function satisfies the IR invariants.
pub fn lower_program(program: crate::estree::Program) -> (r: Result<Program, LowerError>)
    ensures
        r is Ok <==> lowerable_stmts(program.body@),
        r matches Ok(p) ==> funcs_wf(p.funcs@) && p.entry < p.funcs@.len() && p.entry == p.funcs@.len() - 1
            && p.imports@.len() == 0,
        const_list(program.body@) && program.body@.len() > 0 ==> (r matches Ok(p) && p.funcs@.len() == 1
            && p.entry == 0 && model(p.funcs@[0].expr) == sequence_model(const_models(program.body@))),
{
    let mut funcs: Vec<Func> = Vec::new();
    let content = lower_stmts(program.body, &mut funcs)?;
    let body = make_sequence(content);
    let entry = funcs.len();
    let ghost before = funcs@;
    funcs.push(Func { result: Some(VarType::Any), expr: body });
    assert(funcs_wf(funcs@)) by {
        assert forall|i: int| 0 <= i < funcs@.len() implies ir_wf(#[trigger] model(funcs@[i].expr)) by {
            if i < entry {
                assert(funcs@[i] == before[i]);
            }
        }
    }
    Ok(Program { imports: Vec::new(), funcs, entry })
}

} // verus!
