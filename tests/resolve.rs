use wasmcomp::estree::VarLocId;
use wasmcomp::resolve::{DeclKind, ResolveError, ScopeStack};

fn s(x: &str) -> String {
    x.to_string()
}

#[test]
fn let_in_same_block_twice_fails() {
    let mut st = ScopeStack::new(true);
    assert_eq!(st.declare(s("x"), DeclKind::Let), Ok(VarLocId { depth: 0, index: 0 }));
    assert_eq!(st.declare(s("x"), DeclKind::Let), Err(ResolveError::DuplicateBinding));
    assert_eq!(st.declare(s("x"), DeclKind::Var), Err(ResolveError::DuplicateBinding));
    assert_eq!(st.declare(s("y"), DeclKind::Var), Ok(VarLocId { depth: 0, index: 1 }));
    assert_eq!(st.declare(s("y"), DeclKind::Var), Ok(VarLocId { depth: 0, index: 1 }));
    assert_eq!(st.declare(s("y"), DeclKind::Const), Err(ResolveError::DuplicateBinding));
}

#[test]
fn block_let_shadows_outer_var() {
    let mut st = ScopeStack::new(true);
    let outer = st.declare(s("x"), DeclKind::Var).unwrap();
    st.push_block();
    let inner = st.declare(s("x"), DeclKind::Let).unwrap();
    assert_ne!(inner, outer);
    assert_eq!(st.resolve_use(&s("x")), Ok(inner));
    st.pop();
    assert_eq!(st.resolve_use(&s("x")), Ok(outer));
}

#[test]
fn var_in_block_hoists_to_function() {
    let mut st = ScopeStack::new(true);
    st.push_function();
    st.push_block();
    let v = st.declare(s("v"), DeclKind::Var).unwrap();
    assert_eq!(v, VarLocId { depth: 1, index: 0 });
    st.pop();
    assert_eq!(st.resolve_use(&s("v")), Ok(v));
}

#[test]
fn undeclared_name_by_mode() {
    let mut strict = ScopeStack::new(true);
    assert_eq!(strict.resolve_use(&s("g")), Err(ResolveError::UndeclaredGlobal));
    let mut loose = ScopeStack::new(false);
    loose.push_function();
    let g = loose.resolve_use(&s("g")).unwrap();
    assert_eq!(g, VarLocId { depth: 0, index: 0 });
    assert_eq!(loose.resolve_use(&s("g")), Ok(g));
}

#[test]
fn captured_variable_is_marked() {
    // function f(){ let x = 4; return function(){ return x; }; }
    let mut st = ScopeStack::new(true);
    st.declare(s("f"), DeclKind::Var).unwrap();
    st.push_function();
    let x = st.declare(s("x"), DeclKind::Let).unwrap();
    assert_eq!(x, VarLocId { depth: 1, index: 0 });
    st.push_function();
    assert_eq!(st.resolve_use(&s("x")), Ok(x));
    let inner = st.pop();
    assert_eq!(inner.captured, vec![x]);
    assert!(inner.address_taken.is_empty());
    let outer = st.pop();
    assert_eq!(outer.address_taken, vec![0]);
    assert!(outer.captured.is_empty());
    assert_eq!(st.resolve_use(&s("f")), Ok(VarLocId { depth: 0, index: 0 }));
}

#[test]
fn uses_of_globals_are_not_captures() {
    let mut st = ScopeStack::new(true);
    let g = st.declare(s("g"), DeclKind::Var).unwrap();
    st.push_function();
    assert_eq!(st.resolve_use(&s("g")), Ok(g));
    let f = st.pop();
    assert!(f.captured.is_empty());
}

#[test]
fn indices_unique_across_sibling_functions() {
    let mut st = ScopeStack::new(true);
    st.push_function();
    let a = st.declare(s("a"), DeclKind::Let).unwrap();
    st.pop();
    st.push_function();
    let b = st.declare(s("a"), DeclKind::Let).unwrap();
    st.pop();
    assert_eq!(a.depth, b.depth);
    assert_ne!(a.index, b.index);
}
