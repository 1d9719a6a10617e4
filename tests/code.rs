use wasmcomp::code::{Control, EmitError, ExprEmitter, LocalsManager};
use wasmcomp::module::{FuncIdx, LocalIdx, ValType};
use wasmcomp::scratch::Scratch;

#[test]
fn emitter_control_balance() {
    let mut e = ExprEmitter::new();
    assert_eq!(e.depth(), 1);
    e.if_(Some(ValType::I32));
    e.i32_const(1);
    assert_eq!(e.else_(), Ok(()));
    assert_eq!(e.else_(), Err(EmitError::UnbalancedControl));
    e.i32_const(2);
    assert_eq!(e.end(), Ok(()));
    assert_eq!(e.end(), Ok(()));
    assert_eq!(e.depth(), 0);
    assert_eq!(e.end(), Err(EmitError::UnbalancedControl));
    assert_eq!(e.bytecode, vec![0x04, 0x7F, 0x41, 0x01, 0x05, 0x41, 0x02, 0x0B, 0x0B]);
}

#[test]
fn emitter_instructions() {
    let mut e = ExprEmitter::new();
    e.block(None);
    e.loop_(None);
    e.br_if(1);
    e.br(0);
    assert_eq!(e.end(), Ok(()));
    assert_eq!(e.end(), Ok(()));
    e.br_table(&vec![0, 1], 2);
    e.call(FuncIdx { idx: 300 });
    e.local_tee(LocalIdx { idx: 3 });
    e.i64_const(-1);
    e.i32_load(2, 16);
    e.f64_const(1.0f64.to_bits());
    e.drop();
    e.return_();
    assert_eq!(e.control, vec![Control::Function]);
    let mut expected = vec![0x02, 0x40, 0x03, 0x40, 0x0D, 0x01, 0x0C, 0x00, 0x0B, 0x0B];
    expected.extend([0x0E, 0x02, 0x00, 0x01, 0x02]);
    expected.extend([0x10, 0xAC, 0x02]);
    expected.extend([0x22, 0x03]);
    expected.extend([0x42, 0x7F]);
    expected.extend([0x28, 0x02, 0x10]);
    expected.push(0x44);
    expected.extend(1.0f64.to_le_bytes());
    expected.extend([0x1A, 0x0F]);
    assert_eq!(e.bytecode, expected);
}

#[test]
fn scratch_reuses_released_locals() {
    let mut locals = LocalsManager::new(vec![ValType::I32]);
    {
        let mut scratch = Scratch::new(&mut locals);
        let a = scratch.push_i32();
        let b = scratch.push_i32();
        let c = scratch.push_f64();
        assert_eq!((a.idx, b.idx, c.idx), (1, 2, 3));
        scratch.pop_i32();
        let d = scratch.push_i32();
        assert_eq!(d, b);
        scratch.pop_i32();
        scratch.pop_i32();
        scratch.pop_f64();
        assert_eq!((scratch.i32_idx, scratch.i64_idx, scratch.f32_idx, scratch.f64_idx), (0, 0, 0, 0));
        let e = scratch.push_i32();
        assert_eq!(e, a);
        scratch.pop_i32();
        let f = scratch.push_i64();
        assert_eq!(f.idx, 4);
        scratch.pop_i64();
        assert_eq!((scratch.i32_idx, scratch.i64_idx, scratch.f32_idx, scratch.f64_idx), (0, 0, 0, 0));
    }
    assert_eq!(locals.local_types, vec![ValType::I32, ValType::I32, ValType::F64, ValType::I64]);
    assert_eq!(locals.param(0).idx, 0);
}
