//! Unreachable-code elimination: within each function, drops what follows
//! an expression of the empty type in a sequence, and propagates the empty
//! type out of sequences and declarations. It looks at `vartype` alone.
use vstd::prelude::*;
use crate::ir::{model, model_list, Expr, ExprKind, Func, Program, SExpr, SKind, VarType};

verus! {

/// The optimized form of an expression.
pub open spec fn opt(e: SExpr) -> SExpr
    decreases e,
{
    match e.kind {
        SKind::PrimFunc { funcidxs, closure } => SExpr {
            vartype: e.vartype,
            kind: SKind::PrimFunc { funcidxs, closure: Box::new(opt(*closure)) },
        },
        SKind::TypeCast { test, expected, create_narrow_local, true_expr, false_expr } => SExpr {
            vartype: e.vartype,
            kind: SKind::TypeCast {
                test: Box::new(opt(*test)),
                expected,
                create_narrow_local,
                true_expr: Box::new(opt(*true_expr)),
                false_expr: Box::new(opt(*false_expr)),
            },
        },
        SKind::PrimAppl { prim_inst, args } => SExpr {
            vartype: e.vartype,
            kind: SKind::PrimAppl { prim_inst, args: opt_list(args) },
        },
        SKind::Appl { func, args } => SExpr {
            vartype: e.vartype,
            kind: SKind::Appl { func: Box::new(opt(*func)), args: opt_list(args) },
        },
        SKind::DirectAppl { funcidx, args } => SExpr {
            vartype: e.vartype,
            kind: SKind::DirectAppl { funcidx, args: opt_list(args) },
        },
        SKind::Conditional { cond, true_expr, false_expr } => SExpr {
            vartype: e.vartype,
            kind: SKind::Conditional {
                cond: Box::new(opt(*cond)),
                true_expr: Box::new(opt(*true_expr)),
                false_expr: Box::new(opt(*false_expr)),
            },
        },
        SKind::Declaration { local, expr } => {
            let x = opt(*expr);
            SExpr { vartype: x.vartype, kind: SKind::Declaration { local, expr: Box::new(x) } }
        },
        SKind::Assign { target, expr } => SExpr {
            vartype: e.vartype,
            kind: SKind::Assign { target, expr: Box::new(opt(*expr)) },
        },
        SKind::Return { expr } => SExpr {
            vartype: e.vartype,
            kind: SKind::Return { expr: Box::new(opt(*expr)) },
        },
        SKind::Sequence { content } => {
            let k = kept(content);
            SExpr { vartype: last_vartype(k), kind: SKind::Sequence { content: k } }
        },
        _ => e,
    }
}

/// Each expression of a list optimized, in order.
pub open spec fn opt_list(s: Seq<SExpr>) -> Seq<SExpr>
    decreases s,
{
    if s.len() == 0 {
        Seq::empty()
    } else {
        opt_list(s.drop_last()).push(opt(s.last()))
    }
}

/// The elements of a sequence that are kept, optimized: all of them up to
/// and including the first whose optimized type is empty.
pub open spec fn kept(c: Seq<SExpr>) -> Seq<SExpr>
    decreases c,
{
    if c.len() == 0 {
        Seq::empty()
    } else {
        let k = kept(c.drop_last());
        if k.len() > 0 && k.last().vartype is None {
            k
        } else {
            k.push(opt(c.last()))
        }
    }
}

/// The type of a sequence: that of its last element, empty if it has none.
pub open spec fn last_vartype(k: Seq<SExpr>) -> Option<VarType> {
    if k.len() == 0 {
        None
    } else {
        k.last().vartype
    }
}

/// `opt_list` optimizes each element in place.
pub proof fn lemma_opt_list(s: Seq<SExpr>)
    ensures
        opt_list(s).len() == s.len(),
        forall|i: int| 0 <= i < s.len() ==> #[trigger] opt_list(s)[i] == opt(s[i]),
    decreases s.len(),
{
    if s.len() > 0 {
        lemma_opt_list(s.drop_last());
    }
}

fn same_vartype(a: Option<VarType>, b: Option<VarType>) -> (r: bool)
    ensures
        r == (a == b),
{
    match (a, b) {
        (None, None) => true,
        (Some(x), Some(y)) => x == y,
        _ => false,
    }
}

fn optimize_list(args: &mut Vec<Expr>) -> (changed: bool)
    ensures
        model_list(final(args)@) == opt_list(model_list(old(args)@)),
        changed == (opt_list(model_list(old(args)@)) != model_list(old(args)@)),
    decreases *old(args),
{
    let ghost old_m = model_list(args@);
    proof {
        crate::ir::lemma_model_list(args@);
        lemma_opt_list(old_m);
    }
    let mut changed = false;
    let mut i: usize = 0;
    let n = args.len();
    while i < n
        invariant
            n == args@.len(),
            n == old(args)@.len(),
            i <= n,
            old_m == model_list(old(args)@),
            old_m.len() == n,
            opt_list(old_m).len() == n,
            forall|j: int| 0 <= j < n ==> #[trigger] old_m[j] == model(old(args)@[j]),
            forall|j: int| 0 <= j < n ==> #[trigger] opt_list(old_m)[j] == opt(old_m[j]),
            forall|j: int| 0 <= j < i ==> model(#[trigger] args@[j]) == opt(old_m[j]),
            forall|j: int| i <= j < n ==> #[trigger] args@[j] == old(args)@[j],
            changed <==> exists|j: int| 0 <= j < i && #[trigger] opt(old_m[j]) != old_m[j],
        decreases n - i,
    {
        let c = optimize_expr(&mut args[i]);
        changed = changed || c;
        i += 1;
    }
    proof {
        crate::ir::lemma_model_list(args@);
        assert(model_list(args@) =~= opt_list(old_m));
        if changed {
            let j = choose|j: int| 0 <= j < n && #[trigger] opt(old_m[j]) != old_m[j];
            assert(opt_list(old_m)[j] != old_m[j]);
        } else {
            assert(opt_list(old_m) =~= old_m);
        }
    }
    changed
}

fn optimize_expr(expr: &mut Expr) -> (changed: bool)
    ensures
        model(*final(expr)) == opt(model(*old(expr))),
        changed == (opt(model(*old(expr))) != model(*old(expr))),
    decreases *old(expr),
{
    match &mut expr.kind {
        ExprKind::PrimFunc { funcidxs: _, closure } => optimize_expr(&mut **closure),
        ExprKind::TypeCast { test, expected: _, create_narrow_local: _, true_expr, false_expr } => {
            let a = optimize_expr(&mut **test);
            let b = optimize_expr(&mut **true_expr);
            let c = optimize_expr(&mut **false_expr);
            a || b || c
        },
        ExprKind::PrimAppl { prim_inst: _, args } => optimize_list(args),
        ExprKind::Appl { func, args } => {
            let a = optimize_expr(&mut **func);
            let b = optimize_list(args);
            a || b
        },
        ExprKind::DirectAppl { funcidx: _, args } => optimize_list(args),
        ExprKind::Conditional { cond, true_expr, false_expr } => {
            let a = optimize_expr(&mut **cond);
            let b = optimize_expr(&mut **true_expr);
            let c = optimize_expr(&mut **false_expr);
            a || b || c
        },
        ExprKind::Declaration { local: _, expr: expr2 } => {
            let res = optimize_expr(&mut **expr2);
            let new_vartype = expr2.vartype;
            let vartype_changed = !same_vartype(expr.vartype, new_vartype);
            expr.vartype = new_vartype;
            res || vartype_changed
        },
        ExprKind::Assign { target: _, expr: expr2 } => optimize_expr(&mut **expr2),
        ExprKind::Return { expr: expr2 } => optimize_expr(&mut **expr2),
        ExprKind::Sequence { content } => {
            let (new_vartype, changed) = optimize_sequence(content);
            let vartype_changed = !same_vartype(expr.vartype, new_vartype);
            expr.vartype = new_vartype;
            changed || vartype_changed
        },
        _ => false,
    }
}

/// The optimized bodies of a list of functions.
pub open spec fn opt_all(s: Seq<SExpr>) -> Seq<SExpr> {
    s.map_values(|e: SExpr| opt(e))
}

/// The models of the bodies of a list of functions.
pub open spec fn func_models(funcs: Seq<Func>) -> Seq<SExpr> {
    funcs.map_values(|f: Func| model(f.expr))
}

/// Removes all unreachable code from the program, function by function.
/// The flag is true exactly when the program changed.
pub fn optimize(program: Program) -> (r: (Program, bool))
    ensures
        func_models(r.0.funcs@) == opt_all(func_models(program.funcs@)),
        r.1 == (opt_all(func_models(program.funcs@)) != func_models(program.funcs@)),
        r.0.funcs@.len() == program.funcs@.len(),
        forall|i: int| 0 <= i < program.funcs@.len() ==> #[trigger] r.0.funcs@[i].result == program.funcs@[i].result,
        r.0.imports == program.imports,
        r.0.entry == program.entry,
{
    let ghost imports0 = program.imports;
    let ghost entry0 = program.entry;
    let mut program = program;
    let ghost old_funcs = program.funcs@;
    let ghost old_m = func_models(old_funcs);
    let mut changed = false;
    let mut i: usize = 0;
    let n = program.funcs.len();
    while i < n
        invariant
            n == program.funcs@.len(),
            n == old_funcs.len(),
            i <= n,
            old_m == func_models(old_funcs),
            program.imports == imports0,
            program.entry == entry0,
            forall|j: int| 0 <= j < i ==> model((#[trigger] program.funcs@[j]).expr) == opt(old_m[j]),
            forall|j: int| 0 <= j < n ==> (#[trigger] program.funcs@[j]).result == old_funcs[j].result,
            forall|j: int| i <= j < n ==> #[trigger] program.funcs@[j] == old_funcs[j],
            changed <==> exists|j: int| 0 <= j < i && #[trigger] opt(old_m[j]) != old_m[j],
        decreases n - i,
    {
        let c = optimize_func(&mut program.funcs[i]);
        changed = changed || c;
        i += 1;
    }
    proof {
        assert(func_models(program.funcs@) =~= opt_all(old_m));
        if changed {
            let j = choose|j: int| 0 <= j < i && #[trigger] opt(old_m[j]) != old_m[j];
            assert(opt_all(old_m)[j] != old_m[j]);
        } else {
            assert(opt_all(old_m) =~= old_m);
        }
    }
    (program, changed)
}

/// Removes all unreachable code from one function; true exactly when the
/// function changed.
fn optimize_func(func: &mut Func) -> (changed: bool)
    ensures
        model(final(func).expr) == opt(model(old(func).expr)),
        changed == (opt(model(old(func).expr)) != model(old(func).expr)),
        final(func).result == old(func).result,
{
    optimize_expr(&mut func.expr)
}

/// Optimizes the elements of a sequence in order and drops every element
/// after the first one of empty type; returns the type of the sequence and
/// whether its content changed.
fn optimize_sequence(content: &mut Vec<Expr>) -> (r: (Option<VarType>, bool))
    ensures
        model_list(final(content)@) == kept(model_list(old(content)@)),
        r.0 == last_vartype(kept(model_list(old(content)@))),
        r.1 == (kept(model_list(old(content)@)) != model_list(old(content)@)),
    decreases *old(content),
{
    let ghost old_m = model_list(content@);
    proof {
        crate::ir::lemma_model_list(content@);
        lemma_kept_shape(old_m);
    }
    let mut changed = false;
    let mut stopped = false;
    let mut i: usize = 0;
    let n = content.len();
    while i < n && !stopped
        invariant
            n == content@.len(),
            n == old(content)@.len(),
            i <= n,
            old_m == model_list(old(content)@),
            old_m.len() == n,
            forall|j: int| 0 <= j < n ==> #[trigger] old_m[j] == model(old(content)@[j]),
            forall|j: int| 0 <= j < i ==> model(#[trigger] content@[j]) == opt(old_m[j]),
            forall|j: int| i <= j < n ==> #[trigger] content@[j] == old(content)@[j],
            forall|j: int| 0 <= j < i - 1 ==> (#[trigger] opt(old_m[j])).vartype is Some,
            stopped ==> i > 0 && opt(old_m[i - 1]).vartype is None,
            !stopped ==> forall|j: int| 0 <= j < i ==> (#[trigger] opt(old_m[j])).vartype is Some,
            changed <==> exists|j: int| 0 <= j < i && #[trigger] opt(old_m[j]) != old_m[j],
        decreases n - i,
    {
        let c = optimize_expr(&mut content[i]);
        changed = changed || c;
        match content[i].vartype {
            None => {
                stopped = true;
            },
            Some(_) => {},
        }
        i += 1;
    }
    let dropped = i < n;
    content.truncate(i);
    let new_vartype = if i == 0 {
        None
    } else {
        content[i - 1].vartype
    };
    proof {
        crate::ir::lemma_model_list(content@);
        let t = model_list(content@);
        lemma_kept_unique(old_m, t);
        let k = kept(old_m);
        if changed {
            let j = choose|j: int| 0 <= j < i && #[trigger] opt(old_m[j]) != old_m[j];
            assert(k[j] != old_m[j]);
        } else if !dropped {
            assert(k =~= old_m);
        }
    }
    (new_vartype, changed || dropped)
}

/// The shape of `kept(c)`: a prefix of the optimized elements of `c`, all
/// of them of non-empty type but the last, cut short only after an element
/// of empty type.
pub proof fn lemma_kept_shape(c: Seq<SExpr>)
    ensures
        kept(c).len() <= c.len(),
        forall|j: int| 0 <= j < kept(c).len() ==> #[trigger] kept(c)[j] == opt(c[j]),
        forall|j: int| 0 <= j < kept(c).len() - 1 ==> (#[trigger] kept(c)[j]).vartype is Some,
        kept(c).len() < c.len() ==> kept(c).len() > 0 && kept(c).last().vartype is None,
    decreases c.len(),
{
    if c.len() > 0 {
        let d = c.drop_last();
        lemma_kept_shape(d);
        let k = kept(d);
        assert forall|j: int| 0 <= j < k.len() implies #[trigger] k[j] == opt(c[j]) by {
            assert(d[j] == c[j]);
        }
    }
}

proof fn lemma_kept_unique(c: Seq<SExpr>, t: Seq<SExpr>)
    requires
        t.len() <= c.len(),
        forall|j: int| 0 <= j < t.len() ==> #[trigger] t[j] == opt(c[j]),
        forall|j: int| 0 <= j < t.len() - 1 ==> (#[trigger] t[j]).vartype is Some,
        t.len() < c.len() ==> t.len() > 0 && t.last().vartype is None,
    ensures
        t == kept(c),
{
    lemma_kept_shape(c);
    let k = kept(c);
    if t.len() < k.len() {
        assert(t[t.len() - 1] == k[t.len() - 1]);
    } else if k.len() < t.len() {
        assert(t[k.len() - 1] == k[k.len() - 1]);
    }
    assert(t =~= k);
}

/// Optimizing twice is optimizing once.
pub proof fn lemma_opt_idempotent(e: SExpr)
    ensures
        opt(opt(e)) == opt(e),
    decreases e,
{
    match e.kind {
        SKind::PrimFunc { funcidxs, closure } => {
            lemma_opt_idempotent(*closure);
        },
        SKind::TypeCast { test, expected, create_narrow_local, true_expr, false_expr } => {
            lemma_opt_idempotent(*test);
            lemma_opt_idempotent(*true_expr);
            lemma_opt_idempotent(*false_expr);
        },
        SKind::PrimAppl { prim_inst, args } => {
            lemma_opt_list_idempotent(args);
        },
        SKind::Appl { func, args } => {
            lemma_opt_idempotent(*func);
            lemma_opt_list_idempotent(args);
        },
        SKind::DirectAppl { funcidx, args } => {
            lemma_opt_list_idempotent(args);
        },
        SKind::Conditional { cond, true_expr, false_expr } => {
            lemma_opt_idempotent(*cond);
            lemma_opt_idempotent(*true_expr);
            lemma_opt_idempotent(*false_expr);
        },
        SKind::Declaration { local, expr } => {
            lemma_opt_idempotent(*expr);
        },
        SKind::Assign { target, expr } => {
            lemma_opt_idempotent(*expr);
        },
        SKind::Return { expr } => {
            lemma_opt_idempotent(*expr);
        },
        SKind::Sequence { content } => {
            lemma_kept_shape(content);
            let k = kept(content);
            assert forall|j: int| 0 <= j < k.len() implies #[trigger] k[j] == opt(k[j]) by {
                lemma_opt_idempotent(content[j]);
            }
            lemma_kept_unique(k, k);
        },
        _ => {},
    }
}

proof fn lemma_opt_list_idempotent(s: Seq<SExpr>)
    ensures
        opt_list(opt_list(s)) == opt_list(s),
    decreases s,
{
    lemma_opt_list(s);
    lemma_opt_list(opt_list(s));
    assert forall|j: int| 0 <= j < s.len() implies #[trigger] opt_list(opt_list(s))[j] == opt_list(s)[j] by {
        lemma_opt_idempotent(s[j]);
    }
    assert(opt_list(opt_list(s)) =~= opt_list(s));
}

/// Optimizing a program twice is optimizing it once, so the second pass
/// reports no change (its flag is exactly whether the bodies changed).
pub proof fn lemma_optimize_idempotent(bodies: Seq<SExpr>)
    ensures
        opt_all(opt_all(bodies)) == opt_all(bodies),
        !(opt_all(opt_all(bodies)) != opt_all(bodies)),
{
    assert forall|j: int| 0 <= j < bodies.len() implies #[trigger] opt_all(opt_all(bodies))[j] == opt_all(bodies)[j] by {
        lemma_opt_idempotent(bodies[j]);
    }
    assert(opt_all(opt_all(bodies)) =~= opt_all(bodies));
}

/// Only what follows an expression of empty type is removed: every element
/// of a sequence that the pass drops has a kept element before it whose
/// type is empty, and every element before that one is kept.
pub proof fn lemma_unreachable_sound(c: Seq<SExpr>)
    ensures
        kept(c).len() < c.len() ==> kept(c).len() > 0,
        forall|j: int|
            #![trigger c[j]]
            kept(c).len() <= j < c.len() ==> kept(c).len() - 1 < j && kept(c)[kept(c).len() - 1].vartype is None,
        forall|j: int| 0 <= j < kept(c).len() ==> #[trigger] kept(c)[j] == opt(c[j]),
{
    lemma_kept_shape(c);
}

} // verus!
