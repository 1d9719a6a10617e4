use wasmcomp::code::{CodeBuilder, EmitError};
use wasmcomp::module::{FuncType, Insert, SearchableVec, ValType, WasmModule};
use wasmcomp::serialize::SerializeError;

const HEADER: [u8; 8] = [0x00, 0x61, 0x73, 0x6D, 0x01, 0x00, 0x00, 0x00];

fn i32_to_i32() -> FuncType {
    FuncType::new(vec![ValType::I32], vec![ValType::I32])
}

#[test]
fn empty_module_is_header_only() {
    let module = WasmModule::new();
    assert_eq!(module.to_bytes().unwrap(), HEADER.to_vec());
}

#[test]
fn type_dedup_across_registrations() {
    let mut module = WasmModule::new();
    let a = module.register_type(i32_to_i32());
    let b = module.register_type(i32_to_i32());
    assert_eq!(a, b);
    assert_eq!(module.type_section.content.len(), 1);
    let c = module.register_type(FuncType::new(vec![], vec![ValType::I32]));
    assert_ne!(a, c);
    let mut expected = HEADER.to_vec();
    expected.extend([0x01, 0x0A, 0x02, 0x60, 0x01, 0x7F, 0x01, 0x7F, 0x60, 0x00, 0x01, 0x7F]);
    assert_eq!(module.to_bytes().unwrap(), expected);
}

#[test]
fn searchable_vec_insert() {
    let mut v = SearchableVec::new();
    assert_eq!(v.insert(i32_to_i32()), (0, true));
    assert_eq!(v.insert(FuncType::new(vec![], vec![])), (1, true));
    assert_eq!(v.insert(i32_to_i32()), (0, false));
    assert_eq!(v.len(), 2);
}

#[test]
fn lib_gen() {
    let mut module = WasmModule::new();
    let functype = i32_to_i32();
    let (_type_idx, func_idx) = module.register_func(&functype);
    let mut code_builder = CodeBuilder::new(functype);
    {
        let (locals_builder, expr_builder) = code_builder.split();
        expr_builder.local_get(locals_builder.param(0));
        expr_builder.end().unwrap();
    }
    module.commit_func(func_idx, code_builder).unwrap();
    module.export_func(func_idx, "test".to_string());
    let mut expected = HEADER.to_vec();
    expected.extend([0x01, 0x06, 0x01, 0x60, 0x01, 0x7F, 0x01, 0x7F]);
    expected.extend([0x03, 0x02, 0x01, 0x00]);
    expected.extend([0x07, 0x08, 0x01, 0x04, b't', b'e', b's', b't', 0x00, 0x00]);
    expected.extend([0x0A, 0x06, 0x01, 0x04, 0x00, 0x20, 0x00, 0x0B]);
    assert_eq!(module.to_bytes().unwrap(), expected);
}

#[test]
fn serializing_twice_gives_equal_bytes() {
    let mut module = WasmModule::new();
    let functype = FuncType::new(vec![], vec![ValType::I32]);
    let (_t, f) = module.register_func(&functype);
    let mut builder = CodeBuilder::new(functype);
    builder.expr_builder.i32_const(42);
    builder.expr_builder.end().unwrap();
    module.commit_func(f, builder).unwrap();
    module.export_func(f, "main".to_string());
    let first = module.to_bytes().unwrap();
    let second = module.to_bytes().unwrap();
    assert_eq!(first, second);
    assert_eq!(&first[first.len() - 5..], &[0x04, 0x00, 0x41, 0x2A, 0x0B]);
}

#[test]
fn uncommitted_function_fails() {
    let mut module = WasmModule::new();
    let _ = module.register_func(&i32_to_i32());
    assert_eq!(module.to_bytes(), Err(SerializeError::UncommittedFunc));
}

#[test]
fn unclosed_body_is_not_committed() {
    let mut module = WasmModule::new();
    let functype = i32_to_i32();
    let (_t, f) = module.register_func(&functype);
    let mut builder = CodeBuilder::new(functype);
    builder.expr_builder.block(None);
    builder.expr_builder.end().unwrap();
    assert_eq!(module.commit_func(f, builder), Err(EmitError::UnbalancedControl));
    assert_eq!(module.to_bytes(), Err(SerializeError::UncommittedFunc));
}

#[test]
fn start_section_gated_on_start_function() {
    let mut module = WasmModule::new();
    let functype = FuncType::new(vec![], vec![]);
    let (_t, f) = module.register_func(&functype);
    let mut builder = CodeBuilder::new(functype);
    builder.expr_builder.end().unwrap();
    module.commit_func(f, builder).unwrap();
    let without = module.to_bytes().unwrap();
    assert!(!without.windows(3).any(|w| w == [0x08, 0x01, 0x00]));
    module.set_start(f);
    let with = module.to_bytes().unwrap();
    assert_eq!(with.len(), without.len() + 3);
    let pos = 8 + 6 + 4;
    assert_eq!(&with[pos..pos + 3], &[0x08, 0x01, 0x00]);
}

#[test]
fn imports_come_first_in_function_index_space() {
    let mut module = WasmModule::new();
    let functype = i32_to_i32();
    let a = module.import_func("env".to_string(), "print".to_string(), &functype);
    let b = module.import_func("env".to_string(), "read".to_string(), &functype);
    let a2 = module.import_func("env".to_string(), "print".to_string(), &functype);
    assert_eq!(a.idx, 0);
    assert_eq!(b.idx, 1);
    assert_eq!(a2, a);
    let (_t, f) = module.register_func(&functype);
    assert_eq!(f.idx, 2);
}
