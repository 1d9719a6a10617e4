//! The intermediate representation: typed expression trees grouped into
//! functions, and a mathematical model of them.
use vstd::prelude::*;
use crate::estree::VarLocId;

verus! {

/// A widened static type of a value.
#[derive(Clone, Copy, PartialEq, Eq, Structural, Debug, Hash)]
pub enum VarType {
    Any,
    Undefined,
    Number,
    Boolean,
    String,
    Func,
    StructRef(usize),
}

/// An expression with its static type; `None` is the empty type: the
/// expression never yields a value.
pub struct Expr {
    pub vartype: Option<VarType>,
    pub kind: ExprKind,
}

pub enum ExprKind {
    PrimUndefined,
    /// A number, by the bits of its IEEE-754 double.
    PrimNumber(u64),
    PrimBoolean(bool),
    PrimString(String),
    /// A closure over the functions `funcidxs` with its captured record.
    PrimFunc { funcidxs: Vec<usize>, closure: Box<Expr> },
    /// Tests the type of `test` against `expected` and picks a branch.
    TypeCast {
        test: Box<Expr>,
        expected: VarType,
        create_narrow_local: bool,
        true_expr: Box<Expr>,
        false_expr: Box<Expr>,
    },
    /// An application of a runtime primitive.
    PrimAppl { prim_inst: usize, args: Vec<Expr> },
    /// A call of a function value.
    Appl { func: Box<Expr>, args: Vec<Expr> },
    /// A call of a function known statically.
    DirectAppl { funcidx: usize, args: Vec<Expr> },
    Conditional { cond: Box<Expr>, true_expr: Box<Expr>, false_expr: Box<Expr> },
    Declaration { local: VarLocId, expr: Box<Expr> },
    Assign { target: VarLocId, expr: Box<Expr> },
    Return { expr: Box<Expr> },
    Sequence { content: Vec<Expr> },
    VarName { target: VarLocId },
    Break { levels: usize },
    Trap,
    ImportFn { import_idx: usize },
}

/// A function: its result type and its body.
pub struct Func {
    pub result: Option<VarType>,
    pub expr: Expr,
}

/// A program: its functions, its imported functions, and the index of the
/// entry function.
pub struct Program {
    pub imports: Vec<String>,
    pub funcs: Vec<Func>,
    pub entry: usize,
}

/// The mathematical model of an expression.
pub struct SExpr {
    pub vartype: Option<VarType>,
    pub kind: SKind,
}

pub enum SKind {
    PrimUndefined,
    PrimNumber(u64),
    PrimBoolean(bool),
    PrimString(Seq<char>),
    PrimFunc { funcidxs: Seq<usize>, closure: Box<SExpr> },
    TypeCast {
        test: Box<SExpr>,
        expected: VarType,
        create_narrow_local: bool,
        true_expr: Box<SExpr>,
        false_expr: Box<SExpr>,
    },
    PrimAppl { prim_inst: usize, args: Seq<SExpr> },
    Appl { func: Box<SExpr>, args: Seq<SExpr> },
    DirectAppl { funcidx: usize, args: Seq<SExpr> },
    Conditional { cond: Box<SExpr>, true_expr: Box<SExpr>, false_expr: Box<SExpr> },
    Declaration { local: VarLocId, expr: Box<SExpr> },
    Assign { target: VarLocId, expr: Box<SExpr> },
    Return { expr: Box<SExpr> },
    Sequence { content: Seq<SExpr> },
    VarName { target: VarLocId },
    Break { levels: usize },
    Trap,
    ImportFn { import_idx: usize },
}

/// The least upper bound of two static types: the empty type is below
/// every type, and two different types meet at `Any`.
pub open spec fn lub(a: Option<VarType>, b: Option<VarType>) -> Option<VarType> {
    match (a, b) {
        (None, _) => b,
        (_, None) => a,
        (Some(x), Some(y)) => if x == y { a } else { Some(VarType::Any) },
    }
}

/// The type of a sequence of expressions: empty as soon as one element's
/// type is empty, else the type of the last element.
pub open spec fn seq_vartype(content: Seq<SExpr>) -> Option<VarType>
    decreases content.len(),
{
    if content.len() == 0 {
        None
    } else if content.len() == 1 {
        content[0].vartype
    } else if content[0].vartype is None {
        None
    } else {
        seq_vartype(content.drop_first())
    }
}

/// The invariants of the IR as lowering builds it: a sequence is not empty
/// and has the type `seq_vartype` gives it, a declaration has the type of
/// its initializer, a return has the empty type, and a conditional has the
/// least upper bound of its branches' types.
pub open spec fn ir_wf(e: SExpr) -> bool
    decreases e,
{
    match e.kind {
        SKind::PrimFunc { funcidxs, closure } => ir_wf(*closure),
        SKind::TypeCast { test, expected, create_narrow_local, true_expr, false_expr } =>
            ir_wf(*test) && ir_wf(*true_expr) && ir_wf(*false_expr),
        SKind::PrimAppl { prim_inst, args } => ir_wf_list(args),
        SKind::Appl { func, args } => ir_wf(*func) && ir_wf_list(args),
        SKind::DirectAppl { funcidx, args } => ir_wf_list(args),
        SKind::Conditional { cond, true_expr, false_expr } => ir_wf(*cond) && ir_wf(*true_expr)
            && ir_wf(*false_expr) && e.vartype == lub(true_expr.vartype, false_expr.vartype),
        SKind::Declaration { local, expr } => ir_wf(*expr) && e.vartype == expr.vartype,
        SKind::Assign { target, expr } => ir_wf(*expr),
        SKind::Return { expr } => ir_wf(*expr) && e.vartype is None,
        SKind::Sequence { content } => content.len() > 0 && ir_wf_list(content) && e.vartype
            == seq_vartype(content),
        _ => true,
    }
}

pub open spec fn ir_wf_list(s: Seq<SExpr>) -> bool
    decreases s,
{
    if s.len() == 0 {
        true
    } else {
        ir_wf_list(s.drop_last()) && ir_wf(s.last())
    }
}

/// The model of an expression.
pub open spec fn model(e: Expr) -> SExpr
    decreases e,
{
    SExpr { vartype: e.vartype, kind: model_kind(e.kind) }
}

pub open spec fn model_kind(k: ExprKind) -> SKind
    decreases k,
{
    match k {
        ExprKind::PrimUndefined => SKind::PrimUndefined,
        ExprKind::PrimNumber(n) => SKind::PrimNumber(n),
        ExprKind::PrimBoolean(b) => SKind::PrimBoolean(b),
        ExprKind::PrimString(s) => SKind::PrimString(s@),
        ExprKind::PrimFunc { funcidxs, closure } => SKind::PrimFunc {
            funcidxs: funcidxs@,
            closure: Box::new(model(*closure)),
        },
        ExprKind::TypeCast { test, expected, create_narrow_local, true_expr, false_expr } => SKind::TypeCast {
            test: Box::new(model(*test)),
            expected,
            create_narrow_local,
            true_expr: Box::new(model(*true_expr)),
            false_expr: Box::new(model(*false_expr)),
        },
        ExprKind::PrimAppl { prim_inst, args } => SKind::PrimAppl { prim_inst, args: model_list(args@) },
        ExprKind::Appl { func, args } => SKind::Appl { func: Box::new(model(*func)), args: model_list(args@) },
        ExprKind::DirectAppl { funcidx, args } => SKind::DirectAppl { funcidx, args: model_list(args@) },
        ExprKind::Conditional { cond, true_expr, false_expr } => SKind::Conditional {
            cond: Box::new(model(*cond)),
            true_expr: Box::new(model(*true_expr)),
            false_expr: Box::new(model(*false_expr)),
        },
        ExprKind::Declaration { local, expr } => SKind::Declaration { local, expr: Box::new(model(*expr)) },
        ExprKind::Assign { target, expr } => SKind::Assign { target, expr: Box::new(model(*expr)) },
        ExprKind::Return { expr } => SKind::Return { expr: Box::new(model(*expr)) },
        ExprKind::Sequence { content } => SKind::Sequence { content: model_list(content@) },
        ExprKind::VarName { target } => SKind::VarName { target },
        ExprKind::Break { levels } => SKind::Break { levels },
        ExprKind::Trap => SKind::Trap,
        ExprKind::ImportFn { import_idx } => SKind::ImportFn { import_idx },
    }
}

/// The models of a list of expressions, in order.
pub open spec fn model_list(s: Seq<Expr>) -> Seq<SExpr>
    decreases s,
{
    if s.len() == 0 {
        Seq::empty()
    } else {
        model_list(s.drop_last()).push(model(s.last()))
    }
}

/// `model_list` models each element in place.
pub proof fn lemma_model_list(s: Seq<Expr>)
    ensures
        model_list(s).len() == s.len(),
        forall|i: int| 0 <= i < s.len() ==> #[trigger] model_list(s)[i] == model(s[i]),
    decreases s.len(),
{
    if s.len() > 0 {
        lemma_model_list(s.drop_last());
    }
}

} // verus!
