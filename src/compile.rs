//! The whole pipeline: resolution, lowering, unreachable-code elimination,
//! code generation and serialization.
use vstd::prelude::*;
use crate::codegen::{
    body_bytes, code_is, compile_program, const_code_seq, const_kind, lemma_const_sequence_code, pure_code,
    CodegenError,
};
use crate::estree::{const_list, const_stmt, number_literal, Node, NodeKind};
use crate::ir::{model, SExpr};
use crate::lower::{const_model, const_models, number_model, sequence_model};
use crate::module::{ExportDesc, FuncIdx};
use crate::prune::{func_models, kept, last_vartype, lemma_kept_shape, opt, opt_all};
use crate::estree::Program;
use crate::lower::{lower_program, LowerError};
use crate::resolve::{
    declares_twice, decl_free_list, has_use_list, lexical_free_list, resolve_program, supported_list, syntax_error,
    targets_ok_list, ResolveError,
};
use crate::module::WasmModule;
use crate::serialize::{wasm_header, SerializeError, WasmSerialize};
use crate::prune::optimize;

verus! {

/// Why a program did not compile, by the stage that refused it.
#[derive(Clone, Copy, PartialEq, Eq, Structural, Debug)]
pub enum CompileError {
    Resolve(ResolveError),
    Lower(LowerError),
    Codegen(CodegenError),
    Serialize(SerializeError),
}

/// The module a program of the constant fragment compiles to: one
/// function, exported as `main`, whose body is the code of the statements
/// up to the first `return`, each value but the last dropped, then `drop`
/// and `end`; no table, element segment or start function.
pub open spec fn constant_module(m: WasmModule, body: Seq<Node>) -> bool {
    &&& m.wf()
    &&& m.num_imports() == 0
    &&& m.num_funcs() == 1
    &&& m.code_section.content@[0].func matches Some(c) && c@ == body_bytes(
        const_code_seq(kept(const_models(body))),
        true,
    )
    &&& m.export_section.content@.len() == 1
    &&& m.export_section.content@[0].entity_name@ == "main"@
    &&& m.export_section.content@[0].desc == ExportDesc::Func(FuncIdx { idx: 0 })
    &&& m.elem_section.content@.len() == 0
    &&& m.start_section.start is None
}

proof fn lemma_const_models(body: Seq<Node>)
    requires
        const_list(body),
    ensures
        forall|j: int| 0 <= j < body.len() ==> const_kind(#[trigger] const_models(body)[j]),
        forall|j: int| 0 <= j < body.len() ==> opt(#[trigger] const_models(body)[j]) == const_models(body)[j],
{
    assert forall|j: int| 0 <= j < body.len() implies const_kind(#[trigger] const_models(body)[j])
        && opt(const_models(body)[j]) == const_models(body)[j] by {
        let n = body[j];
        assert(const_stmt(n));
        let m = const_model(n);
        assert(const_models(body)[j] == m);
        match n.kind {
            NodeKind::ReturnStatement(r) => {
                let inner = number_model(number_literal(*r.argument->0)->0);
                assert(opt(inner) == inner);
            },
            _ => {},
        }
    }
}

/// Compiles a syntax tree into the bytes of a Wasm module whose `main`
/// export runs the program's top level. Undeclared names fail in strict
/// mode and are globals otherwise. An empty program is the bare module:
/// the header alone, with no function, export or start section. A program
/// of number literals and returns compiles to exactly `constant_module`.
/// A tree that assigns to a non-variable, declares a `let` or `const`
/// name twice, or (in strict mode) uses a name while declaring none fails
/// in resolution.
pub fn compile(program: Program, strict: bool) -> (r: Result<Vec<u8>, CompileError>)
    ensures
        program.body@.len() == 0 ==> (r matches Ok(b) && b@ == wasm_header()),
        !(r matches Err(CompileError::Serialize(_))),
        !targets_ok_list(program.body@) ==> r matches Err(CompileError::Resolve(_)),
        strict && decl_free_list(program.body@) && has_use_list(program.body@) ==> r matches Err(
            CompileError::Resolve(_),
        ),
        declares_twice(program.body@) ==> r matches Err(CompileError::Resolve(_)),
        r matches Err(CompileError::Resolve(e)) ==> (syntax_error(Err::<(), ResolveError>(e))
            ==> !supported_list(program.body@)) && (e == ResolveError::UndeclaredGlobal ==> strict)
            && (e == ResolveError::DuplicateBinding ==> !lexical_free_list(program.body@)),
        const_list(program.body@) && program.body@.len() > 0 ==> (r matches Ok(b) && exists|m: WasmModule|
            #[trigger] m.spec_wasm() == b@ && constant_module(m, program.body@)),
        r matches Ok(b) ==> b@.len() >= 8 && b@.subrange(0, 8) == wasm_header(),
        r matches Ok(b) ==> exists|m: WasmModule| #[trigger] m.spec_wasm() == b@ && m.wf()
            && m.start_section.start is None && m.export_section.content@.len() <= 1
            && (m.export_section.content@.len() == 1 ==> m.export_section.content@[0].entity_name@ == "main"@
                && m.export_section.content@[0].desc is Func),
{
    if program.body.len() == 0 {
        let empty = WasmModule::new();
        proof {
            crate::serialize::lemma_empty_module(empty);
        }
        return match empty.to_bytes() {
            Ok(b) => Ok(b),
            Err(e) => Err(CompileError::Serialize(e)),
        };
    }
    let ghost body0 = program.body@;
    let mut program = program;
    match resolve_program(&mut program, strict) {
        Ok(_) => {},
        Err(e) => {
            return Err(CompileError::Resolve(e));
        },
    }
    let ir = match lower_program(program) {
        Ok(ir) => ir,
        Err(e) => {
            return Err(CompileError::Lower(e));
        },
    };
    let ghost lowered = ir.funcs@;
    let (ir, _changed) = optimize(ir);
    proof {
        if const_list(body0) {
            let cm = const_models(body0);
            lemma_const_models(body0);
            lemma_kept_shape(cm);
            let k = kept(cm);
            assert(func_models(lowered)[0] == model(lowered[0].expr));
            assert(func_models(ir.funcs@)[0] == model(ir.funcs@[0].expr));
            assert(opt_all(func_models(lowered))[0] == opt(func_models(lowered)[0]));
            assert(model(ir.funcs@[0].expr) == opt(sequence_model(cm)));
            assert(k.len() > 0);
            assert forall|j: int| 0 <= j < k.len() implies const_kind(#[trigger] k[j]) by {
                assert(k[j] == opt(cm[j]));
            }
            lemma_const_sequence_code(ir.funcs@[0].expr, k, last_vartype(k));
            assert(forall|q: int| 0 <= q < ir.funcs@.len() ==> (#[trigger] pure_code(ir.funcs@[q].expr)) is Some);
        }
    }
    let module = match compile_program(&ir) {
        Ok(m) => m,
        Err(e) => {
            return Err(CompileError::Codegen(e));
        },
    };
    match module.to_bytes() {
        Ok(b) => {
            proof {
                crate::serialize::lemma_header_prefix(module);
                if const_list(body0) {
                    assert(code_is(module.code_section.content@[0].func, ir.funcs@[0].expr, true));
                    assert(pure_code(ir.funcs@[0].expr) == Some(const_code_seq(kept(const_models(body0)))));
                    assert(module.num_imports() == 0);
                    assert(ir.entry == 0);
                    assert(constant_module(module, body0));
                }
            }
            Ok(b)
        },
        Err(e) => Err(CompileError::Serialize(e)),
    }
}

} // verus!
