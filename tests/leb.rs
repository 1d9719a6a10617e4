use wasmcomp::leb::{BitwiseSerialize, LebSerialize, LebSerialize5Byte};

fn leb<T: LebSerialize>(v: T) -> Vec<u8> {
    let mut out = Vec::new();
    v.leb_serialize(&mut out);
    out
}

fn leb5<T: LebSerialize5Byte>(v: T) -> Vec<u8> {
    let mut out = Vec::new();
    v.leb_serialize_5_byte(&mut out);
    out
}

fn bits<T: BitwiseSerialize>(v: T) -> Vec<u8> {
    let mut out = Vec::new();
    v.bitwise_serialize(&mut out);
    out
}

fn decode_unsigned(bytes: &[u8]) -> u64 {
    let mut r: u64 = 0;
    for (i, b) in bytes.iter().enumerate() {
        r |= ((b & 0x7F) as u64) << (7 * i);
    }
    r
}

fn decode_signed(bytes: &[u8]) -> i64 {
    let mut r: i64 = 0;
    let mut shift = 0;
    for b in bytes {
        r |= ((b & 0x7F) as i64) << shift;
        shift += 7;
    }
    let last = bytes[bytes.len() - 1];
    if shift < 64 && last & 0x40 != 0 {
        r |= -1i64 << shift;
    }
    r
}

#[test]
fn leb_signed_edges() {
    assert_eq!(leb(-64i32), [0x40]);
    assert_eq!(leb(-65i32), [0xBF, 0x7F]);
    assert_eq!(leb(63i32), [0x3F]);
    assert_eq!(leb(64i32), [0xC0, 0x00]);
}

#[test]
fn leb_wide_values() {
    assert_eq!(leb(u32::MAX), [0xFF, 0xFF, 0xFF, 0xFF, 0x0F]);
    assert_eq!(leb(u64::MAX), [0xFF, 0xFF, 0xFF, 0xFF, 0xFF, 0xFF, 0xFF, 0xFF, 0xFF, 0x01]);
    assert_eq!(leb(i32::MIN), [0x80, 0x80, 0x80, 0x80, 0x78]);
    assert_eq!(leb(i32::MAX), [0xFF, 0xFF, 0xFF, 0xFF, 0x07]);
    assert_eq!(leb(i64::MIN), [0x80, 0x80, 0x80, 0x80, 0x80, 0x80, 0x80, 0x80, 0x80, 0x7F]);
    assert_eq!(leb(-1i64), [0x7F]);
    assert_eq!(leb(624485u64), [0xE5, 0x8E, 0x26]);
    assert_eq!(leb(-123456i64), [0xC0, 0xBB, 0x78]);
}

#[test]
fn leb_round_trip_and_shape() {
    for x in [0u32, 1, 127, 128, 300, 16383, 16384, 1 << 31, u32::MAX] {
        let b = leb(x);
        assert_eq!(decode_unsigned(&b), x as u64);
        for byte in &b[..b.len() - 1] {
            assert!(*byte >= 0x80);
        }
        assert!(b[b.len() - 1] < 0x80);
    }
    for x in [0i32, 1, -1, 63, 64, -64, -65, 8191, -8192, i32::MIN, i32::MAX] {
        let b = leb(x);
        assert_eq!(decode_signed(&b), x as i64);
        let last = b[b.len() - 1];
        assert!(last < 0x80);
        assert_eq!(last >= 0x40, x < 0);
    }
}

#[test]
fn leb_fixed_five_bytes() {
    assert_eq!(leb5(0u32), [0x80, 0x80, 0x80, 0x80, 0x00]);
    assert_eq!(leb5(1u32), [0x81, 0x80, 0x80, 0x80, 0x00]);
    assert_eq!(leb5(u32::MAX), [0xFF, 0xFF, 0xFF, 0xFF, 0x0F]);
    assert_eq!(leb5(-1i32), [0xFF, 0xFF, 0xFF, 0xFF, 0x7F]);
    assert_eq!(leb5(i32::MIN), [0x80, 0x80, 0x80, 0x80, 0x78]);
    for x in [0i32, 5, -5, 1000, -1000, i32::MAX, i32::MIN] {
        let b = leb5(x);
        assert_eq!(b.len(), 5);
        assert_eq!(decode_signed(&b), x as i64);
    }
    for x in [0u32, 5, 1000, u32::MAX] {
        let b = leb5(x);
        assert_eq!(b.len(), 5);
        assert_eq!(decode_unsigned(&b), x as u64);
    }
}

#[test]
fn float_bits_little_endian() {
    assert_eq!(bits(1.0f32.to_bits()), 1.0f32.to_le_bytes());
    assert_eq!(bits(0x3F80_0000u32), [0x00, 0x00, 0x80, 0x3F]);
    assert_eq!(bits((-2.5f64).to_bits()), (-2.5f64).to_le_bytes());
    assert_eq!(bits(0x0102_0304_0506_0708u64), [8, 7, 6, 5, 4, 3, 2, 1]);
}

#[test]
fn leb5_is_standard_leb_padded() {
    assert_eq!(leb(3u32), [0x03]);
    assert_eq!(leb5(3u32), [0x83, 0x80, 0x80, 0x80, 0x00]);
    assert_eq!(leb(300u32), [0xAC, 0x02]);
    assert_eq!(leb5(300u32), [0xAC, 0x82, 0x80, 0x80, 0x00]);
    assert_eq!(leb(-2i32), [0x7E]);
    assert_eq!(leb5(-2i32), [0xFE, 0xFF, 0xFF, 0xFF, 0x7F]);
    assert_eq!(leb(-200i32), [0xB8, 0x7E]);
    assert_eq!(leb5(-200i32), [0xB8, 0xFE, 0xFF, 0xFF, 0x7F]);
}
