//! Code generation for the numeric part of the IR. Every value is a 64-bit
//! float: numbers as themselves, booleans as 1 and 0, `undefined` as NaN,
//! and a function as its table index with the address of its closure record
//! above it. A variable lives in a Wasm local, or in a heap cell when a
//! closure captures it; a closure record holds the addresses of the cells it
//! captures. Temporaries come from the scratch pool.
use vstd::prelude::*;
use crate::code::{locals_wasm, CodeBuilder, ExprEmitter};
use crate::leb::le_bytes;
use crate::estree::VarLocId;
use crate::ir::{model, model_list, Expr, ExprKind, Program, SExpr, SKind};
use crate::lower::CLOSURE_RECORD;
use crate::serialize::{all_ready, WasmSerialize};
use crate::module::{
    ElemType, ExportDesc, Expr as ConstExpr, FuncIdx, FuncType, GlobalIdx, GlobalType, Limits, LocalIdx, MemType, Mut,
    TableType, TypeIdx, ValType, WasmModule,
};
use crate::scratch::Scratch;

verus! {

/// What the code generator does not handle.
#[derive(Clone, Copy, PartialEq, Eq, Structural, Debug)]
pub enum CodegenError {
    /// An expression outside the numeric part of the IR.
    UnsupportedExpr,
    /// More locals than a function can declare.
    TooManyLocals,
}

/// The bits of the NaN that stands for `undefined`.
pub const UNDEFINED_BITS: u64 = 0x7FF8_0000_0000_0000;

/// The bits of 1.0, which stands for `true`.
pub const TRUE_BITS: u64 = 0x3FF0_0000_0000_0000;

/// The bytes of a float constant.
pub open spec fn const_code(bits: u64) -> Seq<u8> {
    seq![0x44u8] + le_bytes(bits as nat, 8)
}

/// The instructions after the operands of an arithmetic or comparison
/// primitive, comparisons turning their truth value into a float.
pub open spec fn prim_code(p: usize) -> Seq<u8> {
    if p == 0 {
        seq![0xA0u8]
    } else if p == 1 {
        seq![0xA1u8]
    } else if p == 2 {
        seq![0xA2u8]
    } else if p == 3 {
        seq![0xA3u8]
    } else if p == 5 {
        seq![0x61u8, 0xB8u8]
    } else if p == 6 {
        seq![0x62u8, 0xB8u8]
    } else if p == 7 {
        seq![0x63u8, 0xB8u8]
    } else if p == 8 {
        seq![0x65u8, 0xB8u8]
    } else if p == 9 {
        seq![0x64u8, 0xB8u8]
    } else {
        seq![0x66u8, 0xB8u8]
    }
}

/// The exact code of an expression without variables, functions or
/// temporaries: constants, returns, non-empty sequences (dropping every
/// value but the last), the arithmetic and comparison primitives but the
/// remainder, and negation. `None` outside that fragment.
pub open spec fn pure_code(e: Expr) -> Option<Seq<u8>>
    decreases e,
{
    match e.kind {
        ExprKind::PrimNumber(bits) => Some(const_code(bits)),
        ExprKind::PrimBoolean(t) => Some(const_code(if t { TRUE_BITS } else { 0 })),
        ExprKind::PrimUndefined => Some(const_code(UNDEFINED_BITS)),
        ExprKind::Return { expr } => match pure_code(*expr) {
            Some(c) => Some(c + seq![0x0Fu8]),
            None => None,
        },
        ExprKind::Sequence { content } => if content@.len() == 0 {
            None
        } else {
            pure_code_seq(content@)
        },
        ExprKind::PrimAppl { prim_inst, args } => pure_prim(prim_inst, args@),
        _ => None,
    }
}

/// The exact code of a pure primitive application.
pub open spec fn pure_prim(p: usize, args: Seq<Expr>) -> Option<Seq<u8>>
    decreases args,
{
    if args.len() == 2 && p <= 10 && p != 4 {
        match (pure_code(args[0]), pure_code(args[1])) {
            (Some(a), Some(b)) => Some(a + b + prim_code(p)),
            _ => None,
        }
    } else if args.len() == 1 && p == 11 {
        match pure_code(args[0]) {
            Some(a) => Some(a + seq![0x9Au8]),
            None => None,
        }
    } else if args.len() == 1 && p == 12 {
        match pure_code(args[0]) {
            Some(a) => Some(a + const_code(0) + seq![0x61u8, 0xB8u8]),
            None => None,
        }
    } else {
        None
    }
}

/// The code of a non-empty list of pure expressions, each value but the
/// last dropped.
pub open spec fn pure_code_seq(c: Seq<Expr>) -> Option<Seq<u8>>
    decreases c,
{
    if c.len() == 0 {
        None
    } else if c.len() == 1 {
        pure_code(c[0])
    } else {
        match (pure_code_seq(c.drop_last()), pure_code(c.last())) {
            (Some(a), Some(b)) => Some(a + seq![0x1Au8] + b),
            _ => None,
        }
    }
}

proof fn lemma_pure_prefix(c: Seq<Expr>)
    requires
        pure_code_seq(c) is Some,
    ensures
        forall|k: int| 1 <= k <= c.len() ==> (#[trigger] pure_code_seq(c.take(k))) is Some,
    decreases c.len(),
{
    assert(c.take(c.len() as int) =~= c);
    if c.len() > 1 {
        let d = c.drop_last();
        lemma_pure_prefix(d);
        assert forall|k: int| 1 <= k <= c.len() implies (#[trigger] pure_code_seq(c.take(k))) is Some by {
            if k < c.len() {
                assert(c.take(k) =~= d.take(k));
            }
        }
    }
}

/// An IR statement of the constant fragment: a number, or a return of one.
pub open spec fn const_kind(m: SExpr) -> bool {
    match m.kind {
        SKind::PrimNumber(_) => m.vartype == Some(crate::ir::VarType::Number),
        SKind::Return { expr } => m.vartype is None && expr.vartype == Some(crate::ir::VarType::Number)
            && expr.kind is PrimNumber,
        _ => false,
    }
}

/// The code of an IR statement of the constant fragment.
pub open spec fn const_code_of(m: SExpr) -> Seq<u8> {
    match m.kind {
        SKind::PrimNumber(b) => const_code(b),
        SKind::Return { expr } => match expr.kind {
            SKind::PrimNumber(b) => const_code(b) + seq![0x0Fu8],
            _ => Seq::empty(),
        },
        _ => Seq::empty(),
    }
}

/// The code of a list of IR statements of the constant fragment, every
/// value but the last dropped.
pub open spec fn const_code_seq(ms: Seq<SExpr>) -> Seq<u8>
    decreases ms.len(),
{
    if ms.len() <= 1 {
        if ms.len() == 1 {
            const_code_of(ms[0])
        } else {
            Seq::empty()
        }
    } else {
        const_code_seq(ms.drop_last()) + seq![0x1Au8] + const_code_of(ms.last())
    }
}

proof fn lemma_const_code(e: Expr)
    requires
        const_kind(model(e)),
    ensures
        pure_code(e) == Some(const_code_of(model(e))),
{
    match e.kind {
        ExprKind::Return { expr } => {
            let inner = *expr;
            assert(model(e).kind == SKind::Return { expr: Box::new(model(inner)) });
            assert(model(inner).kind is PrimNumber);
            match inner.kind {
                ExprKind::PrimNumber(b) => {
                    assert(model(inner).kind == SKind::PrimNumber(b));
                    assert(pure_code(inner) == Some(const_code(b)));
                },
                _ => {
                    assert(!(model(inner).kind is PrimNumber));
                },
            }
        },
        _ => {},
    }
}

proof fn lemma_const_code_seq(c: Seq<Expr>)
    requires
        c.len() > 0,
        forall|j: int| 0 <= j < c.len() ==> const_kind(#[trigger] model_list(c)[j]),
    ensures
        pure_code_seq(c) == Some(const_code_seq(model_list(c))),
    decreases c.len(),
{
    crate::ir::lemma_model_list(c);
    lemma_const_code(c.last());
    assert(model_list(c).last() == model(c.last()));
    if c.len() > 1 {
        let d = c.drop_last();
        crate::ir::lemma_model_list(d);
        assert forall|j: int| 0 <= j < d.len() implies const_kind(#[trigger] model_list(d)[j]) by {
            assert(model_list(d)[j] == model(d[j]));
            assert(d[j] == c[j]);
            assert(model_list(c)[j] == model(c[j]));
        }
        lemma_const_code_seq(d);
        assert(model_list(c).drop_last() =~= model_list(d));
    } else {
        lemma_const_code(c[0]);
        assert(model_list(c)[0] == model(c[0]));
    }
}

/// The code of an expression whose IR is a non-empty sequence of constant
/// statements.
pub proof fn lemma_const_sequence_code(e: Expr, ms: Seq<SExpr>, vt: Option<crate::ir::VarType>)
    requires
        model(e) == (SExpr { vartype: vt, kind: SKind::Sequence { content: ms } }),
        ms.len() > 0,
        forall|j: int| 0 <= j < ms.len() ==> const_kind(#[trigger] ms[j]),
    ensures
        pure_code(e) == Some(const_code_seq(ms)),
{
    match e.kind {
        ExprKind::Sequence { content } => {
            assert(model_list(content@) == ms);
            crate::ir::lemma_model_list(content@);
            lemma_const_code_seq(content@);
        },
        _ => {},
    }
}

/// The bytes of a compiled function body whose code is `code`: no declared
/// locals, then the code, a `drop` in the entry, and `end`.
pub open spec fn body_bytes(code: Seq<u8>, is_entry: bool) -> Seq<u8> {
    locals_wasm(Seq::empty()) + code + (if is_entry { seq![0x1Au8] } else { Seq::empty() }) + seq![0x0Bu8]
}

/// A committed function body holds exactly the code of `e`, when `e` is in
/// the fragment whose code `pure_code` fixes.
pub open spec fn code_is(f: Option<Vec<u8>>, e: Expr, is_entry: bool) -> bool {
    match pure_code(e) {
        Some(c) => f matches Some(b) && b@ == body_bytes(c, is_entry),
        None => true,
    }
}

/// What code generation of one function knows of the module.
pub struct Context {
    /// The number of functions, which is also the size of the table.
    pub nfuncs: usize,
    /// The type of every function but the entry: a closure record pointer
    /// in, one float out.
    pub closure_type: TypeIdx,
    /// Whether this is the entry function, whose locals are the globals.
    pub is_entry: bool,
    /// The global that holds the next free heap address, when there is a heap.
    pub heap: Option<GlobalIdx>,
    /// The variables that live in heap cells because a closure captures them.
    pub cells: Vec<VarLocId>,
    /// The variables this function captures, in the order of its record.
    pub captured: Vec<VarLocId>,
}

fn position_of(v: VarLocId, s: &Vec<VarLocId>) -> (r: Option<usize>)
    ensures
        r matches Some(i) ==> i < s@.len() && s@[i as int] == v,
        r is None ==> !s@.contains(v),
{
    let mut i: usize = 0;
    while i < s.len()
        invariant
            i <= s@.len(),
            forall|j: int| 0 <= j < i ==> s@[j] != v,
        decreases s@.len() - i,
    {
        if s[i] == v {
            return Some(i);
        }
        i += 1;
    }
    None
}

/// `v` can live in a function: the entry holds the globals and nothing
/// else, another function holds no global.
pub open spec fn var_fits(v: VarLocId, is_entry: bool) -> bool {
    (v.depth == 0) == is_entry
}

/// An argument of a closure record names a variable that fits.
pub open spec fn arg_ok(a: Expr, is_entry: bool) -> bool {
    match a.kind {
        ExprKind::VarName { target } => var_fits(target, is_entry),
        _ => false,
    }
}

/// Each argument of a closure record names a variable that fits.
pub open spec fn record_ok(args: Seq<Expr>, is_entry: bool) -> bool {
    forall|j: int| 0 <= j < args.len() ==> arg_ok(#[trigger] args[j], is_entry)
}

/// Code generation handles `e`, in a function of a program of `nfuncs`
/// functions: numbers, booleans, `undefined`, variables that fit the
/// function, declarations, assignments, returns, sequences, conditionals,
/// the arithmetic, comparison and negation primitives, closures over one
/// function of the table (when there is a table), and calls of a function
/// value without arguments.
pub open spec fn emittable_expr(e: Expr, is_entry: bool, nfuncs: usize) -> bool
    decreases e,
{
    match e.kind {
        ExprKind::PrimNumber(_) => true,
        ExprKind::PrimBoolean(_) => true,
        ExprKind::PrimUndefined => true,
        ExprKind::VarName { target } => var_fits(target, is_entry),
        ExprKind::Declaration { local, expr } => var_fits(local, is_entry) && emittable_expr(*expr, is_entry, nfuncs),
        ExprKind::Assign { target, expr } => var_fits(target, is_entry) && emittable_expr(*expr, is_entry, nfuncs),
        ExprKind::Return { expr } => emittable_expr(*expr, is_entry, nfuncs),
        ExprKind::Sequence { content } => emittable_list(content@, is_entry, nfuncs),
        ExprKind::Conditional { cond, true_expr, false_expr } => emittable_expr(*cond, is_entry, nfuncs)
            && emittable_expr(*true_expr, is_entry, nfuncs) && emittable_expr(*false_expr, is_entry, nfuncs),
        ExprKind::PrimAppl { prim_inst, args } => emittable_list(args@, is_entry, nfuncs) && (
        (prim_inst <= 10 && args@.len() == 2) || ((prim_inst == 11 || prim_inst == 12) && args@.len() == 1)),
        ExprKind::PrimFunc { funcidxs, closure } => nfuncs > 1 && funcidxs@.len() == 1 && funcidxs@[0] < nfuncs
            && funcidxs@[0] <= 0xFFFF && match closure.kind {
            ExprKind::PrimAppl { prim_inst, args } => prim_inst == CLOSURE_RECORD && record_ok(args@, is_entry),
            _ => false,
        },
        ExprKind::Appl { func, args } => args@.len() == 0 && emittable_expr(*func, is_entry, nfuncs),
        _ => false,
    }
}

pub open spec fn emittable_list(s: Seq<Expr>, is_entry: bool, nfuncs: usize) -> bool
    decreases s,
{
    if s.len() == 0 {
        true
    } else {
        emittable_list(s.drop_last(), is_entry, nfuncs) && emittable_expr(s.last(), is_entry, nfuncs)
    }
}

proof fn lemma_emittable_list(s: Seq<Expr>, is_entry: bool, nfuncs: usize)
    ensures
        emittable_list(s, is_entry, nfuncs) <==> forall|j: int|
            0 <= j < s.len() ==> emittable_expr(#[trigger] s[j], is_entry, nfuncs),
    decreases s.len(),
{
    if s.len() > 0 {
        let d = s.drop_last();
        lemma_emittable_list(d, is_entry, nfuncs);
        if emittable_list(s, is_entry, nfuncs) {
            assert forall|j: int| 0 <= j < s.len() implies emittable_expr(#[trigger] s[j], is_entry, nfuncs) by {
                if j < s.len() - 1 {
                    assert(d[j] == s[j]);
                }
            }
        }
        if forall|j: int| 0 <= j < s.len() ==> emittable_expr(#[trigger] s[j], is_entry, nfuncs) {
            assert forall|j: int| 0 <= j < d.len() implies emittable_expr(#[trigger] d[j], is_entry, nfuncs) by {
                assert(d[j] == s[j]);
            }
            assert(emittable_expr(s[s.len() - 1], is_entry, nfuncs));
        }
    }
}

/// Code generation handles the program: it has an entry among at most
/// 0xFFFF functions, and every function's body is emittable.
pub open spec fn emittable(ir: Program) -> bool {
    &&& 0 < ir.funcs@.len() <= 0xFFFF
    &&& ir.entry < ir.funcs@.len()
    &&& forall|k: int| 0 <= k < ir.funcs@.len() ==> emittable_expr(
        #[trigger] ir.funcs@[k].expr,
        k == ir.entry,
        ir.funcs@.len() as usize,
    )
}

impl Context {
    /// The heap exists exactly when there is more than one function; only
    /// with a heap are there cells, and the entry captures nothing.
    pub open spec fn wf(&self) -> bool {
        &&& (self.nfuncs > 1) == (self.heap is Some)
        &&& self.heap is None ==> self.cells@.len() == 0
        &&& self.is_entry ==> self.captured@.len() == 0
    }
}

/// The Wasm local of variable `v`, declared with type `t` on first use.
/// The entry function holds the globals; other functions hold only their
/// own variables.
fn local_of<'a>(vars: &mut Vec<(VarLocId, LocalIdx)>, v: VarLocId, t: ValType, cx: &Context, scratch: &mut Scratch<'a>) -> (r: Result<LocalIdx, CodegenError>)
    requires
        old(scratch).wf(),
    ensures
        r matches Err(CodegenError::UnsupportedExpr) ==> !var_fits(v, cx.is_entry),
        final(scratch).wf(),
        final(scratch).counters() == old(scratch).counters(),
        *final(final(scratch).locals_builder) == *final(old(scratch).locals_builder),
{
    if (v.depth == 0) != cx.is_entry {
        return Err(CodegenError::UnsupportedExpr);
    }
    let mut i: usize = 0;
    let mut found: Option<LocalIdx> = None;
    while i < vars.len() && found.is_none()
        invariant
            i <= vars@.len(),
        decreases vars@.len() - i,
    {
        if vars[i].0 == v {
            found = Some(vars[i].1);
        }
        i += 1;
    }
    match found {
        Some(l) => Ok(l),
        None => {
            if !scratch.can_add_local() {
                return Err(CodegenError::TooManyLocals);
            }
            let l = scratch.add_local(t);
            assert(scratch.pool(ValType::I32) == old(scratch).pool(ValType::I32));
            assert(scratch.pool(ValType::I64) == old(scratch).pool(ValType::I64));
            assert(scratch.pool(ValType::F32) == old(scratch).pool(ValType::F32));
            assert(scratch.pool(ValType::F64) == old(scratch).pool(ValType::F64));
            vars.push((v, l));
            Ok(l)
        },
    }
}

/// Leaves the address of `size` fresh bytes of heap on the stack.
fn emit_alloc(heap: GlobalIdx, size: u32, em: &mut ExprEmitter)
    requires
        size <= 0x7FFF_FFFF,
    ensures
        final(em).control == old(em).control,
{
    em.global_get(heap);
    em.global_get(heap);
    em.i32_const(size as i32);
    em.i32_add();
    em.global_set(heap);
}

/// Leaves the address of the heap cell of `v` on the stack: from this
/// function's closure record when it captures `v`, else from the local
/// that holds the address.
fn emit_cell_addr<'a>(v: VarLocId, cx: &Context, vars: &mut Vec<(VarLocId, LocalIdx)>, scratch: &mut Scratch<'a>, em: &mut ExprEmitter) -> (r: Result<(), CodegenError>)
    requires
        old(scratch).wf(),
        cx.wf(),
    ensures
        r matches Err(CodegenError::UnsupportedExpr) ==> !var_fits(v, cx.is_entry),
        final(scratch).wf(),
        final(scratch).counters() == old(scratch).counters(),
        final(em).control == old(em).control,
        *final(final(scratch).locals_builder) == *final(old(scratch).locals_builder),
{
    match position_of(v, &cx.captured) {
        Some(p) => {
            if p > 0x3FFF_FFFF {
                return Err(CodegenError::TooManyLocals);
            }
            em.local_get(LocalIdx { idx: 0 });
            em.i32_load(2, (4 * p) as u32);
            Ok(())
        },
        None => {
            let l = local_of(vars, v, ValType::I32, cx, scratch)?;
            em.local_get(l);
            Ok(())
        },
    }
}

/// Stores the float on top of the stack into the heap cell of `v`, leaving
/// the float on the stack; with `fresh`, the cell is allocated first and
/// its address kept in a local of this function.
fn emit_store_cell<'a>(v: VarLocId, fresh: bool, cx: &Context, vars: &mut Vec<(VarLocId, LocalIdx)>, scratch: &mut Scratch<'a>, em: &mut ExprEmitter) -> (r: Result<(), CodegenError>)
    requires
        old(scratch).wf(),
        cx.wf(),
        cx.cells@.contains(v),
    ensures
        r matches Err(CodegenError::UnsupportedExpr) ==> !var_fits(v, cx.is_entry),
        final(scratch).wf(),
        r is Ok ==> final(scratch).counters() == old(scratch).counters(),
        final(em).control == old(em).control,
        *final(final(scratch).locals_builder) == *final(old(scratch).locals_builder),
{
    if !scratch.can_add_local() {
        return Err(CodegenError::TooManyLocals);
    }
    let ghost s0 = *scratch;
    let tmp = scratch.push_f64();
    let ghost s1 = *scratch;
    assert(s1.pool(ValType::I32) == s0.pool(ValType::I32));
    assert(s1.pool(ValType::I64) == s0.pool(ValType::I64));
    assert(s1.pool(ValType::F32) == s0.pool(ValType::F32));
    em.local_set(tmp);
    let r = if fresh {
        match cx.heap {
            Some(heap) => {
                emit_alloc(heap, 8, em);
                match local_of(vars, v, ValType::I32, cx, scratch) {
                    Ok(l) => {
                        em.local_tee(l);
                        Ok(())
                    },
                    Err(e) => Err(e),
                }
            },
            None => Err(CodegenError::TooManyLocals),
        }
    } else {
        emit_cell_addr(v, cx, vars, scratch, em)
    };
    em.local_get(tmp);
    em.f64_store(3, 0);
    em.local_get(tmp);
    let ghost s2 = *scratch;
    assert(s2.counters() == s1.counters());
    scratch.pop_f64();
    assert(scratch.pool(ValType::I32).1 == s0.pool(ValType::I32).1);
    assert(scratch.pool(ValType::I64).1 == s0.pool(ValType::I64).1);
    assert(scratch.pool(ValType::F32).1 == s0.pool(ValType::F32).1);
    assert(scratch.pool(ValType::F64).1 == s0.pool(ValType::F64).1);
    r
}

/// Turns the i32 truth value on the stack into the float that stands for it.
fn bool_to_value(em: &mut ExprEmitter)
    ensures
        final(em).control == old(em).control,
        final(em).bytecode@ == old(em).bytecode@ + seq![0xB8u8],
{
    em.f64_convert_i32_u();
}

/// Emits code that leaves the value of `e` on the stack. Compiling an
/// expression leaves every scratch pool's pointer and the open control
/// constructs as it found them.
fn emit_expr<'a>(
    e: &Expr,
    cx: &Context,
    vars: &mut Vec<(VarLocId, LocalIdx)>,
    scratch: &mut Scratch<'a>,
    em: &mut ExprEmitter,
) -> (r: Result<(), CodegenError>)
    requires
        old(scratch).wf(),
        cx.wf(),
    ensures
        final(scratch).wf(),
        r is Ok ==> final(scratch).counters() == old(scratch).counters(),
        r is Ok ==> final(em).control@ == old(em).control@,
        r matches Err(CodegenError::UnsupportedExpr) ==> !emittable_expr(*e, cx.is_entry, cx.nfuncs),
        pure_code(*e) matches Some(c) ==> r is Ok && final(em).bytecode@ == old(em).bytecode@ + c
            && final(scratch).locals_builder.local_types@ == old(scratch).locals_builder.local_types@,
        *final(final(scratch).locals_builder) == *final(old(scratch).locals_builder),
    decreases e,
{
    match &e.kind {
        ExprKind::PrimNumber(bits) => {
            em.f64_const(*bits);
            Ok(())
        },
        ExprKind::PrimBoolean(b) => {
            em.f64_const(if *b { TRUE_BITS } else { 0 });
            Ok(())
        },
        ExprKind::PrimUndefined => {
            em.f64_const(UNDEFINED_BITS);
            Ok(())
        },
        ExprKind::VarName { target } => {
            if position_of(*target, &cx.cells).is_some() {
                emit_cell_addr(*target, cx, vars, scratch, em)?;
                em.f64_load(3, 0);
            } else {
                let l = local_of(vars, *target, ValType::F64, cx, scratch)?;
                em.local_get(l);
            }
            Ok(())
        },
        ExprKind::Declaration { local, expr } => {
            emit_expr(&**expr, cx, vars, scratch, em)?;
            if position_of(*local, &cx.cells).is_some() {
                emit_store_cell(*local, true, cx, vars, scratch, em)
            } else {
                let l = local_of(vars, *local, ValType::F64, cx, scratch)?;
                em.local_tee(l);
                Ok(())
            }
        },
        ExprKind::Assign { target, expr } => {
            emit_expr(&**expr, cx, vars, scratch, em)?;
            if position_of(*target, &cx.cells).is_some() {
                emit_store_cell(*target, false, cx, vars, scratch, em)
            } else {
                let l = local_of(vars, *target, ValType::F64, cx, scratch)?;
                em.local_tee(l);
                Ok(())
            }
        },
        ExprKind::Return { expr } => {
            emit_expr(&**expr, cx, vars, scratch, em)?;
            em.return_();
            Ok(())
        },
        ExprKind::Sequence { content } => emit_sequence(content, cx, vars, scratch, em),
        ExprKind::Conditional { cond, true_expr, false_expr } => {
            emit_expr(&**cond, cx, vars, scratch, em)?;
            em.f64_const(0);
            em.f64_ne();
            em.if_(Some(ValType::F64));
            emit_expr(&**true_expr, cx, vars, scratch, em)?;
            match em.else_() {
                Ok(()) => {},
                Err(_) => {
                    return Err(CodegenError::UnsupportedExpr);
                },
            }
            emit_expr(&**false_expr, cx, vars, scratch, em)?;
            match em.end() {
                Ok(()) => {},
                Err(_) => {
                    return Err(CodegenError::UnsupportedExpr);
                },
            }
            assert(em.control@ =~= old(em).control@);
            Ok(())
        },
        ExprKind::PrimAppl { prim_inst, args } => emit_prim(*prim_inst, args, cx, vars, scratch, em),
        ExprKind::PrimFunc { funcidxs, closure } => {
            if funcidxs.len() != 1 || funcidxs[0] >= cx.nfuncs || funcidxs[0] > 0xFFFF {
                return Err(CodegenError::UnsupportedExpr);
            }
            match &closure.kind {
                ExprKind::PrimAppl { prim_inst, args } => {
                    if *prim_inst != CLOSURE_RECORD {
                        return Err(CodegenError::UnsupportedExpr);
                    }
                    emit_closure(funcidxs[0], args, cx, vars, scratch, em)
                },
                _ => Err(CodegenError::UnsupportedExpr),
            }
        },
        ExprKind::Appl { func, args } => {
            if args.len() != 0 {
                return Err(CodegenError::UnsupportedExpr);
            }
            emit_expr(&**func, cx, vars, scratch, em)?;
            if !scratch.can_add_local() {
                return Err(CodegenError::TooManyLocals);
            }
            let ghost s0 = *scratch;
            em.i64_trunc_f64_u();
            let t = scratch.push_i64();
            em.local_tee(t);
            em.i64_const(16);
            em.i64_shr_u();
            em.i32_wrap_i64();
            em.local_get(t);
            em.i64_const(0xFFFF);
            em.i64_and();
            em.i32_wrap_i64();
            em.call_indirect(cx.closure_type);
            scratch.pop_i64();
            assert(scratch.pool(ValType::I32) == s0.pool(ValType::I32));
            assert(scratch.pool(ValType::I64).1 == s0.pool(ValType::I64).1);
            assert(scratch.pool(ValType::F32) == s0.pool(ValType::F32));
            assert(scratch.pool(ValType::F64) == s0.pool(ValType::F64));
            Ok(())
        },
        _ => Err(CodegenError::UnsupportedExpr),
    }
}

/// Emits a primitive application: the operands, then the operation.
fn emit_prim<'a>(
    p: usize,
    args: &Vec<Expr>,
    cx: &Context,
    vars: &mut Vec<(VarLocId, LocalIdx)>,
    scratch: &mut Scratch<'a>,
    em: &mut ExprEmitter,
) -> (r: Result<(), CodegenError>)
    requires
        old(scratch).wf(),
        cx.wf(),
    ensures
        final(scratch).wf(),
        r is Ok ==> final(scratch).counters() == old(scratch).counters(),
        r is Ok ==> final(em).control@ == old(em).control@,
        r matches Err(CodegenError::UnsupportedExpr) ==> !(emittable_list(args@, cx.is_entry, cx.nfuncs) && (
        (p <= 10 && args@.len() == 2) || ((p == 11 || p == 12) && args@.len() == 1))),
        pure_prim(p, args@) matches Some(c) ==> r is Ok && final(em).bytecode@ == old(em).bytecode@ + c
            && final(scratch).locals_builder.local_types@ == old(scratch).locals_builder.local_types@,
        *final(final(scratch).locals_builder) == *final(old(scratch).locals_builder),
    decreases args,
{
    proof {
        lemma_emittable_list(args@, cx.is_entry, cx.nfuncs);
    }
    let ghost start = em.bytecode@;
    if p <= 10 && args.len() == 2 {
        emit_expr(&args[0], cx, vars, scratch, em)?;
        let ghost mid = em.bytecode@;
        emit_expr(&args[1], cx, vars, scratch, em)?;
        let ghost operands = em.bytecode@;
        if p == 0 {
            em.f64_add();
        } else if p == 1 {
            em.f64_sub();
        } else if p == 2 {
            em.f64_mul();
        } else if p == 3 {
            em.f64_div();
        } else if p == 4 {
            emit_remainder(scratch, em)?;
        } else if p == 5 {
            em.f64_eq();
            bool_to_value(em);
        } else if p == 6 {
            em.f64_ne();
            bool_to_value(em);
        } else if p == 7 {
            em.f64_lt();
            bool_to_value(em);
        } else if p == 8 {
            em.f64_le();
            bool_to_value(em);
        } else if p == 9 {
            em.f64_gt();
            bool_to_value(em);
        } else {
            em.f64_ge();
            bool_to_value(em);
        }
        proof {
            if pure_prim(p, args@) is Some {
                assert(em.bytecode@ =~= operands + prim_code(p));
                assert(em.bytecode@ =~= start + pure_prim(p, args@)->0);
            }
        }
        Ok(())
    } else if p == 11 && args.len() == 1 {
        emit_expr(&args[0], cx, vars, scratch, em)?;
        em.f64_neg();
        proof {
            if pure_prim(p, args@) is Some {
                assert(em.bytecode@ =~= start + pure_prim(p, args@)->0);
            }
        }
        Ok(())
    } else if p == 12 && args.len() == 1 {
        emit_expr(&args[0], cx, vars, scratch, em)?;
        let ghost operand = em.bytecode@;
        em.f64_const(0);
        em.f64_eq();
        bool_to_value(em);
        proof {
            if pure_prim(p, args@) is Some {
                assert(em.bytecode@ =~= operand + const_code(0) + seq![0x61u8, 0xB8u8]);
                assert(em.bytecode@ =~= start + pure_prim(p, args@)->0);
            }
        }
        Ok(())
    } else {
        Err(CodegenError::UnsupportedExpr)
    }
}

/// Emits a closure over function `k`: a fresh record holding the address
/// of each captured variable's cell, and the float that packs the record's
/// address above the table index `k`.
fn emit_closure<'a>(k: usize, args: &Vec<Expr>, cx: &Context, vars: &mut Vec<(VarLocId, LocalIdx)>, scratch: &mut Scratch<'a>, em: &mut ExprEmitter) -> (r: Result<(), CodegenError>)
    requires
        old(scratch).wf(),
        cx.wf(),
        k <= 0xFFFF,
    ensures
        r matches Err(CodegenError::UnsupportedExpr) ==> !(cx.nfuncs > 1 && record_ok(args@, cx.is_entry)),
        final(scratch).wf(),
        r is Ok ==> final(scratch).counters() == old(scratch).counters(),
        final(em).control == old(em).control,
        *final(final(scratch).locals_builder) == *final(old(scratch).locals_builder),
{
    let heap = match cx.heap {
        Some(h) => h,
        None => {
            return Err(CodegenError::UnsupportedExpr);
        },
    };
    let m = args.len();
    if m > 0x1FFF_FFFF || !scratch.can_add_local() {
        return Err(CodegenError::TooManyLocals);
    }
    let ghost s0 = *scratch;
    emit_alloc(heap, (4 * m) as u32, em);
    let rec = scratch.push_i32();
    em.local_set(rec);
    let mut i: usize = 0;
    let mut r: Result<(), CodegenError> = Ok(());
    while i < m
        invariant
            m == args@.len(),
            m <= 0x1FFF_FFFF,
            i <= m,
            scratch.wf(),
            scratch.pool(ValType::I32).1 == s0.pool(ValType::I32).1 + 1,
            scratch.pool(ValType::I64).1 == s0.pool(ValType::I64).1,
            scratch.pool(ValType::F32).1 == s0.pool(ValType::F32).1,
            scratch.pool(ValType::F64).1 == s0.pool(ValType::F64).1,
            em.control == old(em).control,
            *final(scratch.locals_builder) == *final(old(scratch).locals_builder),
            r matches Err(CodegenError::UnsupportedExpr) ==> !record_ok(args@, cx.is_entry),
            cx.wf(),
        decreases m - i,
    {
        match &args[i].kind {
            ExprKind::VarName { target } => {
                em.local_get(rec);
                match emit_cell_addr(*target, cx, vars, scratch, em) {
                    Ok(()) => {},
                    Err(e) => {
                        r = Err(e);
                    },
                }
                em.i32_store(2, (4 * i) as u32);
            },
            _ => {
                r = Err(CodegenError::UnsupportedExpr);
            },
        }
        i += 1;
    }
    em.local_get(rec);
    em.i64_extend_i32_u();
    em.i64_const(16);
    em.i64_shl();
    em.i64_const(k as i64);
    em.i64_or();
    em.f64_convert_i64_u();
    scratch.pop_i32();
    assert(scratch.pool(ValType::I32).1 == s0.pool(ValType::I32).1);
    assert(scratch.pool(ValType::I64).1 == s0.pool(ValType::I64).1);
    assert(scratch.pool(ValType::F32).1 == s0.pool(ValType::F32).1);
    assert(scratch.pool(ValType::F64).1 == s0.pool(ValType::F64).1);
    r
}

/// Emits each expression of a sequence, dropping every value but the last.
fn emit_sequence<'a>(
    content: &Vec<Expr>,
    cx: &Context,
    vars: &mut Vec<(VarLocId, LocalIdx)>,
    scratch: &mut Scratch<'a>,
    em: &mut ExprEmitter,
) -> (r: Result<(), CodegenError>)
    requires
        old(scratch).wf(),
        cx.wf(),
    ensures
        final(scratch).wf(),
        r is Ok ==> final(scratch).counters() == old(scratch).counters(),
        r is Ok ==> final(em).control@ == old(em).control@,
        r matches Err(CodegenError::UnsupportedExpr) ==> !emittable_list(content@, cx.is_entry, cx.nfuncs),
        pure_code_seq(content@) matches Some(c) ==> r is Ok && final(em).bytecode@ == old(em).bytecode@ + c
            && final(scratch).locals_builder.local_types@ == old(scratch).locals_builder.local_types@,
        *final(final(scratch).locals_builder) == *final(old(scratch).locals_builder),
    decreases content,
{
    let n = content.len();
    if n == 0 {
        em.f64_const(UNDEFINED_BITS);
        return Ok(());
    }
    proof {
        lemma_emittable_list(content@, cx.is_entry, cx.nfuncs);
        if pure_code_seq(content@) is Some {
            lemma_pure_prefix(content@);
        }
    }
    let ghost pure = pure_code_seq(content@) is Some;
    let mut i: usize = 0;
    while i < n
        invariant
            pure == (pure_code_seq(content@) is Some),
            pure ==> forall|k: int| 1 <= k <= n ==> (#[trigger] pure_code_seq(content@.take(k))) is Some,
            pure && i == 0 ==> em.bytecode@ == old(em).bytecode@,
            pure && i > 0 ==> em.bytecode@ == old(em).bytecode@ + pure_code_seq(content@.take(i as int))->0 + (
            if i < n {
                seq![0x1Au8]
            } else {
                Seq::empty()
            }),
            pure ==> scratch.locals_builder.local_types@ == old(scratch).locals_builder.local_types@,
            cx.wf(),
            emittable_list(content@, cx.is_entry, cx.nfuncs) <==> forall|j: int|
                0 <= j < content@.len() ==> emittable_expr(#[trigger] content@[j], cx.is_entry, cx.nfuncs),
            n == content@.len(),
            i <= n,
            scratch.wf(),
            scratch.counters() == old(scratch).counters(),
            em.control@ == old(em).control@,
            *final(scratch.locals_builder) == *final(old(scratch).locals_builder),
        decreases n - i,
    {
        proof {
            if pure {
                let t = content@.take(i as int + 1);
                assert(pure_code_seq(t) is Some);
                if i == 0 {
                    assert(t.len() == 1 && t[0] == content@[0]);
                } else {
                    assert(t.drop_last() =~= content@.take(i as int));
                    assert(t.last() == content@[i as int]);
                }
            }
        }
        let ghost before = em.bytecode@;
        emit_expr(&content[i], cx, vars, scratch, em)?;
        proof {
            if pure {
                let t = content@.take(i as int + 1);
                if i == 0 {
                    assert(t.len() == 1 && t[0] == content@[0]);
                    assert(em.bytecode@ =~= old(em).bytecode@ + pure_code_seq(t)->0);
                } else {
                    assert(t.drop_last() =~= content@.take(i as int));
                    assert(t.last() == content@[i as int]);
                    assert(em.bytecode@ =~= old(em).bytecode@ + pure_code_seq(t)->0);
                }
            }
        }
        if i + 1 < n {
            em.drop();
        }
        i += 1;
    }
    proof {
        assert(content@.take(n as int) =~= content@);
    }
    Ok(())
}

/// Replaces the two floats `x`, `y` on top of the stack with
/// `x - trunc(x / y) * y`, through two scratch locals.
fn emit_remainder<'a>(scratch: &mut Scratch<'a>, em: &mut ExprEmitter) -> (r: Result<(), CodegenError>)
    requires
        old(scratch).wf(),
    ensures
        !(r matches Err(CodegenError::UnsupportedExpr)),
        final(scratch).wf(),
        r is Ok ==> final(scratch).counters() == old(scratch).counters(),
        final(em).control@ == old(em).control@,
        *final(final(scratch).locals_builder) == *final(old(scratch).locals_builder),
{
    if !scratch.can_add_local() {
        return Err(CodegenError::TooManyLocals);
    }
    let ghost s0 = *scratch;
    let y = scratch.push_f64();
    if !scratch.can_add_local() {
        scratch.pop_f64();
        return Err(CodegenError::TooManyLocals);
    }
    let x = scratch.push_f64();
    em.local_set(y);
    em.local_set(x);
    em.local_get(x);
    em.local_get(x);
    em.local_get(y);
    em.f64_div();
    em.f64_trunc();
    em.local_get(y);
    em.f64_mul();
    em.f64_sub();
    let ghost s2 = *scratch;
    scratch.pop_f64();
    let ghost s3 = *scratch;
    scratch.pop_f64();
    assert(scratch.pool(ValType::I32) == s0.pool(ValType::I32));
    assert(scratch.pool(ValType::I64) == s0.pool(ValType::I64));
    assert(scratch.pool(ValType::F32) == s0.pool(ValType::F32));
    assert(scratch.pool(ValType::F64).1 == s0.pool(ValType::F64).1);
    Ok(())
}

/// Records, for each closure in `e`, the function it is over and the
/// variables its record captures. Malformed closures are left for code
/// generation to refuse.
fn collect_closures(e: &Expr, sites: &mut Vec<(usize, Vec<VarLocId>)>)
    decreases e,
{
    match &e.kind {
        ExprKind::PrimFunc { funcidxs, closure } => {
            if funcidxs.len() != 1 {
                return;
            }
            match &closure.kind {
                ExprKind::PrimAppl { prim_inst: _, args } => {
                    let mut captured: Vec<VarLocId> = Vec::new();
                    let mut i: usize = 0;
                    while i < args.len()
                        invariant
                            i <= args@.len(),
                        decreases args@.len() - i,
                    {
                        match &args[i].kind {
                            ExprKind::VarName { target } => captured.push(*target),
                            _ => {},
                        }
                        i += 1;
                    }
                    sites.push((funcidxs[0], captured));
                },
                _ => {},
            }
        },
        ExprKind::TypeCast { test, expected: _, create_narrow_local: _, true_expr, false_expr } => {
            collect_closures(&**test, sites);
            collect_closures(&**true_expr, sites);
            collect_closures(&**false_expr, sites);
        },
        ExprKind::PrimAppl { prim_inst: _, args } => collect_closures_list(args, sites),
        ExprKind::Appl { func, args } => {
            collect_closures(&**func, sites);
            collect_closures_list(args, sites);
        },
        ExprKind::DirectAppl { funcidx: _, args } => collect_closures_list(args, sites),
        ExprKind::Conditional { cond, true_expr, false_expr } => {
            collect_closures(&**cond, sites);
            collect_closures(&**true_expr, sites);
            collect_closures(&**false_expr, sites);
        },
        ExprKind::Declaration { local: _, expr } => collect_closures(&**expr, sites),
        ExprKind::Assign { target: _, expr } => collect_closures(&**expr, sites),
        ExprKind::Return { expr } => collect_closures(&**expr, sites),
        ExprKind::Sequence { content } => collect_closures_list(content, sites),
        _ => {},
    }
}

fn collect_closures_list(list: &Vec<Expr>, sites: &mut Vec<(usize, Vec<VarLocId>)>)
    decreases list,
{
    let mut i: usize = 0;
    while i < list.len()
        invariant
            i <= list@.len(),
        decreases list@.len() - i,
    {
        collect_closures(&list[i], sites);
        i += 1;
    }
}

fn copy_ids(s: &Vec<VarLocId>) -> (r: Vec<VarLocId>)
    ensures
        r@ == s@,
{
    let mut r: Vec<VarLocId> = Vec::new();
    let mut i: usize = 0;
    while i < s.len()
        invariant
            i <= s@.len(),
            r@ == s@.subrange(0, i as int),
        decreases s@.len() - i,
    {
        r.push(s[i]);
        i += 1;
        assert(r@ =~= s@.subrange(0, i as int));
    }
    assert(s@.subrange(0, s@.len() as int) =~= s@);
    r
}

/// The closure type: a record pointer in, a float out.
fn closure_functype() -> (r: FuncType)
    ensures
        r@ == (seq![ValType::I32], seq![ValType::F64]),
{
    let mut params: Vec<ValType> = Vec::new();
    params.push(ValType::I32);
    let mut results: Vec<ValType> = Vec::new();
    results.push(ValType::F64);
    assert(params@ =~= seq![ValType::I32]);
    assert(results@ =~= seq![ValType::F64]);
    FuncType::new(params, results)
}

/// The entry type: nothing in, nothing out.
fn entry_functype() -> (r: FuncType)
    ensures
        r@ == (Seq::<ValType>::empty(), Seq::<ValType>::empty()),
{
    FuncType::new(Vec::new(), Vec::new())
}

/// Compiles the body of one function into a finished builder.
fn compile_function(body: &Expr, cx: &Context) -> (r: Result<CodeBuilder, CodegenError>)
    requires
        cx.wf(),
    ensures
        r matches Err(CodegenError::UnsupportedExpr) ==> !emittable_expr(*body, cx.is_entry, cx.nfuncs),
        pure_code(*body) matches Some(c) ==> r matches Ok(b) && b.spec_body() == body_bytes(c, cx.is_entry),
        r matches Ok(b) ==> b.expr_builder.control@.len() == 0,
{
    let functype = if cx.is_entry {
        entry_functype()
    } else {
        closure_functype()
    };
    let mut builder = CodeBuilder::new(functype);
    {
        let (locals, em) = builder.split();
        let mut scratch = Scratch::new(locals);
        let mut vars: Vec<(VarLocId, LocalIdx)> = Vec::new();
        emit_expr(body, cx, &mut vars, &mut scratch, em)?;
        assert(scratch.counters() == (0int, 0int, 0int, 0int));
        if cx.is_entry {
            em.drop();
        }
    }
    let ghost code = builder.expr_builder.bytecode@;
    match builder.expr_builder.end() {
        Ok(()) => {
            proof {
                if pure_code(*body) is Some {
                    assert(builder.locals_builder.local_types@.len() == 0);
                    assert(builder.locals_builder.local_types@ =~= Seq::<ValType>::empty());
                    assert(builder.spec_body() =~= body_bytes(pure_code(*body)->0, cx.is_entry));
                }
            }
            Ok(builder)
        },
        Err(_) => Err(CodegenError::UnsupportedExpr),
    }
}

/// Compiles a program into a module: one Wasm function per IR function,
/// at the same index; the entry takes and returns nothing, dropping the
/// value of the program, and the others take the address of their closure
/// record and return a float; the entry is exported as `main`. With more than one function the module also has a table
/// holding every function at its own index, a memory for heap cells and
/// closure records, and a global with the next free heap address.
pub fn compile_program(ir: &Program) -> (r: Result<WasmModule, CodegenError>)
    ensures
        r matches Ok(m) ==> m.wf() && m.num_funcs() == ir.funcs@.len() && all_ready(m.code_section.content@)
            && m.export_section.content@.len() == 1,
        r matches Err(CodegenError::UnsupportedExpr) ==> !emittable(*ir),
        0 < ir.funcs@.len() <= 0xFFFF && ir.entry < ir.funcs@.len() && (forall|k: int| 0 <= k < ir.funcs@.len()
            ==> (#[trigger] pure_code(ir.funcs@[k].expr)) is Some) ==> r is Ok,
        r matches Ok(m) ==> forall|k: int| 0 <= k < ir.funcs@.len() ==> code_is(
            #[trigger] m.code_section.content@[k].func,
            ir.funcs@[k].expr,
            k == ir.entry,
        ),
        r matches Ok(m) ==> m.export_section.content@[0].entity_name@ == "main"@
            && m.export_section.content@[0].desc == ExportDesc::Func(FuncIdx { idx: ir.entry as u32 }),
        r matches Ok(m) ==> m.start_section.start is None && m.num_imports() == 0,
        r matches Ok(m) ==> ir.funcs@.len() == 1 ==> m.elem_section.content@.len() == 0,
        r matches Ok(m) ==> ir.funcs@.len() > 1 ==> m.elem_section.content@.len() == 1
            && m.elem_section.content@[0].content@.len() == ir.funcs@.len()
            && forall|q: int| 0 <= q < ir.funcs@.len() ==> (#[trigger] m.elem_section.content@[0].content@[q]).idx == q,
{
    let n = ir.funcs.len();
    if n == 0 || ir.entry >= n || n > 0xFFFF {
        return Err(CodegenError::UnsupportedExpr);
    }
    let mut sites: Vec<(usize, Vec<VarLocId>)> = Vec::new();
    let mut c: usize = 0;
    while c < n
        invariant
            n == ir.funcs@.len(),
            c <= n,
        decreases n - c,
    {
        collect_closures(&ir.funcs[c].expr, &mut sites);
        c += 1;
    }
    let mut cells: Vec<VarLocId> = Vec::new();
    let mut q: usize = 0;
    while n > 1 && q < sites.len()
        invariant
            q <= sites@.len(),
            n > 1 || cells@.len() == 0,
        decreases sites@.len() - q,
    {
        let mut w: usize = 0;
        while w < sites[q].1.len()
            invariant
                q < sites@.len(),
                w <= sites@[q as int].1@.len(),
            decreases sites@[q as int].1@.len() - w,
        {
            let v = sites[q].1[w];
            if position_of(v, &cells).is_none() {
                cells.push(v);
            }
            w += 1;
        }
        q += 1;
    }
    let mut module = WasmModule::new();
    let entry_type = entry_functype();
    let closure_type_v = closure_functype();
    let t0 = module.register_type(entry_type.duplicate());
    let t1 = if n > 1 {
        module.register_type(closure_type_v.duplicate())
    } else {
        t0
    };
    let mut i: usize = 0;
    while i < n
        invariant
            n == ir.funcs@.len(),
            n <= 0xFFFF,
            i <= n,
            module.wf(),
            module.num_imports() == 0,
            module.num_funcs() == i,
            module.types().len() <= 2,
            t0.idx < module.types().len(),
            t1.idx < module.types().len(),
            module.types()[t0.idx as int] == entry_type@,
            n > 1 ==> module.types()[t1.idx as int] == closure_type_v@,
            ir.entry < n,
            module.export_section.content@.len() == 0,
            module.table_section.content@.len() == 0,
            module.mem_section.content@.len() == 0,
            module.global_section.content@.len() == 0,
            module.elem_section.content@.len() == 0,
            module.start_section.start is None,
        decreases n - i,
    {
        if i == ir.entry {
            assert(module.types().contains(entry_type@));
            let _ = module.register_func(&entry_type);
        } else {
            assert(module.types().contains(closure_type_v@));
            let _ = module.register_func(&closure_type_v);
        }
        i += 1;
    }
    let mut heap: Option<GlobalIdx> = None;
    if n > 1 {
        let table = module.add_table(TableType { elem_type: ElemType::FuncRef, limits: Limits::Unbounded { min: n as u32 } });
        let _ = module.add_mem(MemType { limits: Limits::Unbounded { min: 1 } });
        let mut init: Vec<u8> = Vec::new();
        init.push(0x41u8);
        init.push(0x08u8);
        init.push(0x0Bu8);
        heap = Some(module.add_global(GlobalType { val_type: ValType::I32, mutability: Mut::Var }, ConstExpr { bytecode: init }));
        let mut offset: Vec<u8> = Vec::new();
        offset.push(0x41u8);
        offset.push(0x00u8);
        offset.push(0x0Bu8);
        let mut content: Vec<FuncIdx> = Vec::new();
        let mut j: usize = 0;
        while j < n
            invariant
                j <= n,
                n <= 0xFFFF,
                content@.len() == j,
                forall|q: int| 0 <= q < j ==> (#[trigger] content@[q]).idx == q,
            decreases n - j,
        {
            content.push(FuncIdx { idx: j as u32 });
            j += 1;
        }
        module.add_elem(table, ConstExpr { bytecode: offset }, content);
    }
    let ghost elems = module.elem_section.content@;
    assert(n > 1 ==> elems.len() == 1 && elems[0].content@.len() == n
        && forall|q: int| 0 <= q < n ==> (#[trigger] elems[0].content@[q]).idx == q);
    let mut k: usize = 0;
    while k < n
        invariant
            n == ir.funcs@.len(),
            n <= 0xFFFF,
            module.elem_section.content@ == elems,
            module.start_section.start is None,
            n <= 1 ==> elems.len() == 0,
            k <= n,
            module.wf(),
            module.num_imports() == 0,
            module.num_funcs() == n,
            module.export_section.content@.len() == 0,
            forall|j: int| 0 <= j < k ==> #[trigger] module.code_section.content@[j].func is Some,
            forall|j: int| 0 <= j < k ==> code_is(#[trigger] module.code_section.content@[j].func, ir.funcs@[j].expr, j == ir.entry),
            module.code_section.content@.len() == n,
            (n > 1) == (heap is Some),
            n > 1 || cells@.len() == 0,
            ir.entry < n,
        decreases n - k,
    {
        let mut captured: Vec<VarLocId> = Vec::new();
        let mut q2: usize = 0;
        while q2 < sites.len()
            invariant
                q2 <= sites@.len(),
                k == ir.entry ==> captured@.len() == 0,
            decreases sites@.len() - q2,
        {
            if sites[q2].0 == k && k != ir.entry {
                captured = copy_ids(&sites[q2].1);
            }
            q2 += 1;
        }
        let cx = Context {
            nfuncs: n,
            closure_type: t1,
            is_entry: k == ir.entry,
            heap,
            cells: copy_ids(&cells),
            captured,
        };
        let builder = compile_function(&ir.funcs[k].expr, &cx)?;
        let ghost before = module.code_section.content@;
        match module.commit_func(FuncIdx { idx: k as u32 }, builder) {
            Ok(()) => {},
            Err(_) => {
                return Err(CodegenError::UnsupportedExpr);
            },
        }
        assert forall|j: int| 0 <= j < k + 1 implies #[trigger] module.code_section.content@[j].func is Some by {
            if j < k {
                assert(module.code_section.content@[j] == before[j]);
                assert(before[j].func is Some);
            }
        }
        assert forall|j: int| 0 <= j < k + 1 implies code_is(#[trigger] module.code_section.content@[j].func, ir.funcs@[j].expr, j == ir.entry) by {
            if j < k {
                assert(module.code_section.content@[j] == before[j]);
            }
        }
        k += 1;
    }
    let ghost codes = module.code_section.content@;
    module.export_func(FuncIdx { idx: ir.entry as u32 }, "main".to_string());
    proof {
        assert(module.code_section.content@ == codes);
        assert forall|j: int| 0 <= j < module.code_section.content@.len() implies (#[trigger] module.code_section.content@[j]).spec_ready() by {
            assert(codes[j].func is Some);
        }
    }
    Ok(module)
}

} // verus!
