use wasmcomp::leb::LebSerialize;
use wasmcomp::module::ValType;
use wasmcomp::serialize::WasmSerialize;

fn wasm_serializer_wrapper<T: WasmSerialize + ?Sized>(val: &T) -> Vec<u8> {
    let mut tmp = Vec::<u8>::new();
    val.wasm_serialize(&mut tmp);
    tmp
}

fn leb_serializer_wrapper<T: LebSerialize>(val: T) -> Vec<u8> {
    let mut tmp = Vec::<u8>::new();
    val.leb_serialize(&mut tmp);
    tmp
}

fn check_vec() {
    assert_eq!(wasm_serializer_wrapper(&Vec::<ValType>::new()), [0]);
    assert_eq!(
        wasm_serializer_wrapper(&vec![ValType::I32]),
        [1, wasm_serializer_wrapper(&ValType::I32)[0]]
    );
    assert_eq!(
        wasm_serializer_wrapper(&vec![ValType::I32, ValType::F32]),
        [
            2,
            wasm_serializer_wrapper(&ValType::I32)[0],
            wasm_serializer_wrapper(&ValType::F32)[0]
        ]
    );
}

fn check_string() {
    assert_eq!(wasm_serializer_wrapper(""), [0]);
    assert_eq!(wasm_serializer_wrapper("a"), [1, 'a' as u8]);
    assert_eq!(
        wasm_serializer_wrapper("test"),
        [4, 't' as u8, 'e' as u8, 's' as u8, 't' as u8]
    );
}

fn check_unsigned() {
    assert_eq!(leb_serializer_wrapper(0u32), [0]);
    assert_eq!(leb_serializer_wrapper(1u32), [1]);
    assert_eq!(leb_serializer_wrapper(4u32), [4]);
    assert_eq!(leb_serializer_wrapper(127u32), [127]);
    assert_eq!(leb_serializer_wrapper(128u32), [128, 1]);
    assert_eq!(leb_serializer_wrapper(255u32), [255, 1]);
    assert_eq!(leb_serializer_wrapper(256u32), [128, 2]);
}

fn check_signed() {
    assert_eq!(leb_serializer_wrapper(0i32), [0]);
    assert_eq!(leb_serializer_wrapper(1i32), [1]);
    assert_eq!(leb_serializer_wrapper(4i32), [4]);
    assert_eq!(leb_serializer_wrapper(63i32), [63]);
    assert_eq!(leb_serializer_wrapper(64i32), [192, 0]);
    assert_eq!(leb_serializer_wrapper(127i32), [255, 0]);
    assert_eq!(leb_serializer_wrapper(128i32), [128, 1]);
    assert_eq!(leb_serializer_wrapper(255i32), [255, 1]);
    assert_eq!(leb_serializer_wrapper(256i32), [128, 2]);

    assert_eq!(leb_serializer_wrapper(-1i32), [127]);
    assert_eq!(leb_serializer_wrapper(-4i32), [124]);
    assert_eq!(leb_serializer_wrapper(-63i32), [65]);
    assert_eq!(leb_serializer_wrapper(-64i32), [64]);
    assert_eq!(leb_serializer_wrapper(-65i32), [191, 127]);
    assert_eq!(leb_serializer_wrapper(-127i32), [129, 127]);
    assert_eq!(leb_serializer_wrapper(-128i32), [128, 127]);
    assert_eq!(leb_serializer_wrapper(-129i32), [255, 126]);
    assert_eq!(leb_serializer_wrapper(-255i32), [129, 126]);
    assert_eq!(leb_serializer_wrapper(-256i32), [128, 126]);
    assert_eq!(leb_serializer_wrapper(-257i32), [255, 125]);
}

#[test]
fn serialize_wasm_serialize_vec() {
    check_vec();
}

#[test]
fn serialize_wasm_serialize_string() {
    check_string();
}

#[test]
fn serialize_leb_serialize_unsigned() {
    check_unsigned();
}

#[test]
fn serialize_leb_serialize_signed() {
    check_signed();
}

#[test]
fn mod_wasm_serialize_vec() {
    check_vec();
}

#[test]
fn mod_wasm_serialize_string() {
    check_string();
}

#[test]
fn mod_leb_serialize_unsigned() {
    check_unsigned();
}

#[test]
fn mod_leb_serialize_signed() {
    check_signed();
}
