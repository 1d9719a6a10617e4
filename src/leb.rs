//! LEB128 variable-length integer encoding, as used throughout the Wasm
//! binary format.
use vstd::prelude::*;

verus! {

/// Unsigned LEB128 encoding of a natural number: seven bits per byte, low
/// bits first, the top bit set on every byte but the last.
pub open spec fn uleb(x: nat) -> Seq<u8>
    decreases x,
{
    if x < 128 {
        seq![x as u8]
    } else {
        seq![(x % 128 + 128) as u8] + uleb(x / 128)
    }
}

/// The value that unsigned LEB128 bytes stand for.
pub open spec fn uleb_decode(bytes: Seq<u8>) -> nat
    decreases bytes.len(),
{
    if bytes.len() == 0 {
        0
    } else {
        (bytes[0] % 128) as nat + 128 * uleb_decode(bytes.drop_first())
    }
}

/// Signed LEB128 encoding of an integer: seven bits per byte, low bits first,
/// stopping at the first byte whose bit 6 already carries the sign of what
/// is left.
pub open spec fn sleb(x: int) -> Seq<u8>
    decreases sleb_measure(x),
{
    let b = x % 128;
    let rest = x / 128;
    if (rest == 0 && b < 64) || (rest == -1 && b >= 64) {
        seq![b as u8]
    } else {
        seq![(b + 128) as u8] + sleb(rest)
    }
}

pub open spec fn sleb_measure(x: int) -> nat {
    if x >= 0 {
        x as nat
    } else {
        (-x - 1) as nat
    }
}

/// The value that signed LEB128 bytes stand for: the last byte is sign
/// extended from its bit 6.
pub open spec fn sleb_decode(bytes: Seq<u8>) -> int
    decreases bytes.len(),
{
    if bytes.len() == 0 {
        0
    } else if bytes.len() == 1 {
        let b = bytes[0] % 128;
        if b >= 64 {
            b - 128
        } else {
            b as int
        }
    } else {
        (bytes[0] % 128) + 128 * sleb_decode(bytes.drop_first())
    }
}

/// A LEB128 encoding padded to exactly `n` bytes: every byte but the last
/// carries the continuation bit, the last holds what is left of `x`.
pub open spec fn fixed_leb(x: int, n: nat) -> Seq<u8>
    decreases n,
{
    if n <= 1 {
        seq![(x % 128) as u8]
    } else {
        seq![(x % 128 + 128) as u8] + fixed_leb(x / 128, (n - 1) as nat)
    }
}

pub open spec fn pow128(n: nat) -> nat
    decreases n,
{
    if n == 0 {
        1
    } else {
        128 * pow128((n - 1) as nat)
    }
}

/// Unsigned LEB128 decodes back to the value it encodes; every byte but the
/// last carries the continuation bit and the last does not.
pub proof fn lemma_uleb_round_trip(x: nat)
    ensures
        uleb_decode(uleb(x)) == x,
        uleb(x).len() >= 1,
        forall|i: int| 0 <= i < uleb(x).len() - 1 ==> #[trigger] uleb(x)[i] >= 128,
        uleb(x).last() < 128,
    decreases x,
{
    if x >= 128 {
        lemma_uleb_round_trip(x / 128);
        let s = uleb(x);
        assert(s.drop_first() =~= uleb(x / 128));
        assert forall|i: int| 0 <= i < s.len() - 1 implies #[trigger] s[i] >= 128 by {
            if i > 0 {
                assert(s[i] == uleb(x / 128)[i - 1]);
            }
        }
        assert((s[0] % 128) as nat == x % 128);
        assert(x == x % 128 + 128 * (x / 128));
        assert(uleb_decode(s) == (s[0] % 128) as nat + 128 * uleb_decode(s.drop_first()));
    } else {
        assert(uleb(x).drop_first() =~= Seq::<u8>::empty());
        assert(uleb_decode(Seq::<u8>::empty()) == 0);
        assert(uleb(x)[0] == x);
        assert(uleb_decode(uleb(x)) == (uleb(x)[0] % 128) as nat + 128 * uleb_decode(uleb(x).drop_first()));
    }
}

/// Signed LEB128 decodes back to the value it encodes; every byte but the
/// last carries the continuation bit, and bit 6 of the last byte, which a
/// decoder sign-extends, is set exactly when the value is negative. So a
/// non-negative value ends in a byte of at most 0x3F and a negative one in a
/// byte of 0x40 to 0x7F.
pub proof fn lemma_sleb_round_trip(x: int)
    ensures
        sleb_decode(sleb(x)) == x,
        sleb(x).len() >= 1,
        forall|i: int| 0 <= i < sleb(x).len() - 1 ==> #[trigger] sleb(x)[i] >= 128,
        sleb(x).last() < 128,
        sleb(x).last() >= 64 <==> x < 0,
    decreases sleb_measure(x),
{
    let b = x % 128;
    let rest = x / 128;
    if (rest == 0 && b < 64) || (rest == -1 && b >= 64) {
    } else {
        lemma_sleb_round_trip(rest);
        let s = sleb(x);
        assert(s.drop_first() =~= sleb(rest));
        assert forall|i: int| 0 <= i < s.len() - 1 implies #[trigger] s[i] >= 128 by {
            if i > 0 {
                assert(s[i] == sleb(rest)[i - 1]);
            }
        }
    }
}

/// The fixed-width encoding of a value below `128^n` has `n` bytes and
/// decodes back to it as unsigned LEB128.
pub proof fn lemma_fixed_leb_unsigned(x: int, n: nat)
    requires
        n >= 1,
        0 <= x < pow128(n),
    ensures
        fixed_leb(x, n).len() == n,
        uleb_decode(fixed_leb(x, n)) == x,
    decreases n,
{
    if n > 1 {
        assert(pow128(n) == 128 * pow128((n - 1) as nat));
        lemma_fixed_leb_unsigned(x / 128, (n - 1) as nat);
        let f = fixed_leb(x, n);
        assert(f.drop_first() =~= fixed_leb(x / 128, (n - 1) as nat));
        assert(x == x % 128 + 128 * (x / 128));
        assert((f[0] % 128) as int == x % 128);
        assert(uleb_decode(f) == (f[0] % 128) as nat + 128 * uleb_decode(f.drop_first()));
    } else {
        assert(pow128(1) == 128 * pow128(0));
        let f = fixed_leb(x, n);
        assert(f.drop_first() =~= Seq::<u8>::empty());
        assert(uleb_decode(Seq::<u8>::empty()) == 0);
        assert(f[0] == x);
        assert(uleb_decode(f) == (f[0] % 128) as nat + 128 * uleb_decode(f.drop_first()));
    }
}

/// The fixed-width encoding of a value in `-64 * 128^(n-1) .. 64 * 128^(n-1)`
/// has `n` bytes and decodes back to it as signed LEB128.
pub proof fn lemma_fixed_leb_signed(x: int, n: nat)
    requires
        n >= 1,
        -64 * pow128((n - 1) as nat) <= x < 64 * pow128((n - 1) as nat),
    ensures
        fixed_leb(x, n).len() == n,
        sleb_decode(fixed_leb(x, n)) == x,
    decreases n,
{
    if n > 1 {
        assert(pow128((n - 1) as nat) == 128 * pow128((n - 2) as nat));
        lemma_fixed_leb_signed(x / 128, (n - 1) as nat);
        assert(fixed_leb(x, n).drop_first() =~= fixed_leb(x / 128, (n - 1) as nat));
    } else {
        assert(pow128(0) == 1);
    }
}

/// Every 32-bit value, unsigned or signed, takes exactly five bytes in the
/// fixed-width encoding and decodes back to itself.
pub proof fn lemma_leb5_round_trip(u: u32, s: i32)
    ensures
        u.spec_leb5().len() == 5,
        uleb_decode(u.spec_leb5()) == u,
        s.spec_leb5().len() == 5,
        sleb_decode(s.spec_leb5()) == s,
{
    assert(pow128(0) == 1);
    assert(pow128(1) == 128);
    assert(pow128(2) == 16384);
    assert(pow128(3) == 2097152);
    assert(pow128(4) == 268435456);
    assert(pow128(5) == 34359738368);
    lemma_fixed_leb_unsigned(u as int, 5);
    lemma_fixed_leb_signed(s as int, 5);
}

/// Unsigned LEB128 has no superfluous byte: a value below `128^n` takes at
/// most `n` bytes, and only zero ends in a zero byte.
pub proof fn lemma_uleb_minimal(x: nat, n: nat)
    ensures
        uleb(x).len() == 1 || uleb(x).last() != 0,
        n >= 1 && x < pow128(n) ==> uleb(x).len() <= n,
        x >= pow128(n) ==> uleb(x).len() > n,
    decreases x,
{
    if x >= 128 {
        lemma_uleb_minimal(x / 128, (n - 1) as nat);
        assert(uleb(x).last() == uleb(x / 128).last());
        if n >= 1 {
            assert(pow128(n) == 128 * pow128((n - 1) as nat));
        }
        if n >= 1 && x < pow128(n) {
            lemma_uleb_len(x, n);
        }
        if n == 0 {
            assert(pow128(0) == 1);
        }
    } else {
        if n >= 1 {
            assert(pow128(n) == 128 * pow128((n - 1) as nat));
            lemma_pow128_pos((n - 1) as nat);
        }
    }
}

proof fn lemma_pow128_pos(n: nat)
    ensures
        pow128(n) >= 1,
    decreases n,
{
    if n > 0 {
        lemma_pow128_pos((n - 1) as nat);
    }
}

/// Signed LEB128 has no superfluous byte: its last byte is never a bare
/// sign extension of the byte before it (0x00 after a byte with bit 6
/// clear, or 0x7F after one with bit 6 set).
pub proof fn lemma_sleb_minimal(x: int)
    ensures
        sleb(x).len() >= 2 ==> !(sleb(x).last() == 0 && sleb(x)[sleb(x).len() - 2] % 128 < 64),
        sleb(x).len() >= 2 ==> !(sleb(x).last() == 127 && sleb(x)[sleb(x).len() - 2] % 128 >= 64),
    decreases sleb_measure(x),
{
    let b = x % 128;
    let rest = x / 128;
    if !((rest == 0 && b < 64) || (rest == -1 && b >= 64)) {
        lemma_sleb_minimal(rest);
        let s = sleb(x);
        assert(s.drop_first() =~= sleb(rest));
        assert(s.last() == sleb(rest).last());
        if sleb(rest).len() >= 2 {
            assert(s[s.len() - 2] == sleb(rest)[sleb(rest).len() - 2]);
        } else {
            let rb = rest % 128;
            let rr = rest / 128;
            if !((rr == 0 && rb < 64) || (rr == -1 && rb >= 64)) {
                lemma_sleb_round_trip(rr);
                assert(sleb(rest).len() >= 2);
            }
            assert(s[s.len() - 2] == (b + 128) as u8);
            assert(sleb(rest).last() == rb as u8);
        }
    }
}

/// Standard LEB128 bytes padded to `n` bytes: every byte but the last
/// carries the continuation bit, and the bytes past the encoding carry the
/// fill, 0 for a non-negative value and all ones for a negative one.
pub open spec fn pad(b: Seq<u8>, n: nat, neg: bool) -> Seq<u8>
    decreases n,
{
    let fill: int = if neg { 127 } else { 0 };
    let low: int = if b.len() > 0 { (b[0] % 128) as int } else { fill };
    if n <= 1 {
        seq![low as u8]
    } else {
        seq![(low + 128) as u8] + pad(if b.len() > 0 { b.drop_first() } else { b }, (n - 1) as nat, neg)
    }
}

proof fn lemma_fixed_fill(x: int, n: nat)
    requires
        x == 0 || x == -1,
    ensures
        fixed_leb(x, n) == pad(Seq::<u8>::empty(), n, x == -1),
    decreases n,
{
    if n > 1 {
        lemma_fixed_fill(x / 128, (n - 1) as nat);
    }
}

/// The fixed-width unsigned encoding is the standard one padded, when the
/// standard one fits.
pub proof fn lemma_fixed_pads_uleb(x: nat, n: nat)
    requires
        n >= 1,
        uleb(x).len() <= n,
    ensures
        fixed_leb(x as int, n) == pad(uleb(x), n, false),
    decreases n,
{
    if x < 128 {
        if n > 1 {
            lemma_fixed_fill(0, (n - 1) as nat);
            assert(uleb(x).drop_first() =~= Seq::<u8>::empty());
        }
    } else {
        assert(uleb(x).drop_first() =~= uleb(x / 128));
        if n > 1 {
            lemma_fixed_pads_uleb(x / 128, (n - 1) as nat);
        }
    }
}

/// The fixed-width signed encoding is the standard one padded with the
/// sign, when the standard one fits.
pub proof fn lemma_fixed_pads_sleb(x: int, n: nat)
    requires
        n >= 1,
        sleb(x).len() <= n,
    ensures
        fixed_leb(x, n) == pad(sleb(x), n, x < 0),
    decreases n,
{
    let b = x % 128;
    let rest = x / 128;
    if (rest == 0 && b < 64) || (rest == -1 && b >= 64) {
        if n > 1 {
            lemma_fixed_fill(rest, (n - 1) as nat);
            assert(sleb(x).drop_first() =~= Seq::<u8>::empty());
        }
    } else {
        assert(sleb(x).drop_first() =~= sleb(rest));
        lemma_sleb_round_trip(rest);
        if n > 1 {
            lemma_fixed_pads_sleb(rest, (n - 1) as nat);
            assert((rest < 0) == (x < 0));
        }
    }
}

proof fn lemma_uleb_len(x: nat, n: nat)
    requires
        n >= 1,
        x < pow128(n),
    ensures
        uleb(x).len() <= n,
    decreases n,
{
    if x >= 128 {
        assert(pow128(n) == 128 * pow128((n - 1) as nat));
        if n > 1 {
            lemma_uleb_len(x / 128, (n - 1) as nat);
        } else {
            assert(pow128(1) == 128 * pow128(0));
        }
    }
}

proof fn lemma_sleb_len(x: int, n: nat)
    requires
        n >= 1,
        -64 * pow128((n - 1) as nat) <= x < 64 * pow128((n - 1) as nat),
    ensures
        sleb(x).len() <= n,
    decreases n,
{
    let rest = x / 128;
    let b = x % 128;
    if !((rest == 0 && b < 64) || (rest == -1 && b >= 64)) {
        if n > 1 {
            assert(pow128((n - 1) as nat) == 128 * pow128((n - 2) as nat));
            lemma_sleb_len(rest, (n - 1) as nat);
        } else {
            assert(pow128(0) == 1);
        }
    }
}

/// For every 32-bit value, the five-byte encoding is the standard encoding
/// padded to five bytes: zero fill for unsigned values and non-negative
/// signed ones, sign fill for negative ones.
pub proof fn lemma_leb5_pads_leb(u: u32, s: i32)
    ensures
        u.spec_leb().len() <= 5,
        u.spec_leb5() == pad(u.spec_leb(), 5, false),
        s.spec_leb().len() <= 5,
        s.spec_leb5() == pad(s.spec_leb(), 5, s < 0),
{
    assert(pow128(0) == 1);
    assert(pow128(1) == 128);
    assert(pow128(2) == 16384);
    assert(pow128(3) == 2097152);
    assert(pow128(4) == 268435456);
    assert(pow128(5) == 34359738368);
    lemma_uleb_len(u as nat, 5);
    lemma_sleb_len(s as int, 5);
    lemma_fixed_pads_uleb(u as nat, 5);
    lemma_fixed_pads_sleb(s as int, 5);
}

/// Each integer type's standard LEB128 encoding decodes back to its value.
pub proof fn lemma_leb_round_trip(a: u32, b: u64, c: i32, d: i64)
    ensures
        uleb_decode(a.spec_leb()) == a,
        uleb_decode(b.spec_leb()) == b,
        sleb_decode(c.spec_leb()) == c,
        sleb_decode(d.spec_leb()) == d,
{
    lemma_uleb_round_trip(a as nat);
    lemma_uleb_round_trip(b as nat);
    lemma_sleb_round_trip(c as int);
    lemma_sleb_round_trip(d as int);
}

proof fn lemma_u64_low7(x: u64)
    by (bit_vector)
    ensures
        x & 127 == x % 128,
        x >> 7 == x / 128,
{
}

proof fn lemma_u8_set_top(b: u8)
    by (bit_vector)
    requires
        b < 128,
    ensures
        b | 128 == b + 128,
{
}

fn uleb_u64(value: u64, receiver: &mut Vec<u8>)
    ensures
        final(receiver)@ == old(receiver)@ + uleb(value as nat),
{
    let mut x: u64 = value;
    loop
        invariant_except_break
            old(receiver)@ + uleb(value as nat) == receiver@ + uleb(x as nat),
        ensures
            receiver@ == old(receiver)@ + uleb(value as nat),
        decreases x,
    {
        proof { lemma_u64_low7(x); }
        let b: u8 = (x & 127u64) as u8;
        let ghost before = x;
        x >>= 7;
        if x != 0 {
            proof { lemma_u8_set_top(b); }
            receiver.push(b | 128u8);
            assert(uleb(before as nat) == seq![(b + 128) as u8] + uleb(x as nat));
            assert(receiver@ + uleb(x as nat) =~= old(receiver)@ + uleb(value as nat));
        } else {
            receiver.push(b);
            assert(uleb(before as nat) == seq![b]);
            assert(receiver@ =~= old(receiver)@ + uleb(value as nat));
            break;
        }
    }
}

proof fn lemma_i64_low7(x: i64)
    by (bit_vector)
    ensures
        0 <= x & 127 < 128,
        (x & 127) + 128 * (x >> 7) == x,
{
}

proof fn lemma_u8_bit6(b: u8)
    by (bit_vector)
    requires
        b < 128,
    ensures
        (b & 64 != 0) == (b >= 64),
{
}

/// Splits `x` into its low seven bits and the rest, as Euclidean division
/// by 128 does.
proof fn lemma_split(x: int, b: int, rest: int)
    requires
        0 <= b < 128,
        b + 128 * rest == x,
    ensures
        b == x % 128,
        rest == x / 128,
{
    vstd::arithmetic::div_mod::lemma_fundamental_div_mod_converse(x, 128, rest, b);
}

fn sleb_i64(value: i64, receiver: &mut Vec<u8>)
    ensures
        final(receiver)@ == old(receiver)@ + sleb(value as int),
{
    let mut x: i64 = value;
    loop
        invariant_except_break
            old(receiver)@ + sleb(value as int) == receiver@ + sleb(x as int),
        ensures
            receiver@ == old(receiver)@ + sleb(value as int),
        decreases sleb_measure(x as int),
    {
        proof { lemma_i64_low7(x); }
        let b: u8 = (x & 127i64) as u8;
        let ghost before = x;
        x >>= 7;
        proof {
            lemma_split(before as int, b as int, x as int);
            lemma_u8_bit6(b);
        }
        if (x != 0 || b & 64u8 != 0) && (x != -1 || b & 64u8 == 0) {
            proof { lemma_u8_set_top(b); }
            receiver.push(b | 128u8);
            assert(sleb(before as int) == seq![(b + 128) as u8] + sleb(x as int));
            assert(receiver@ + sleb(x as int) =~= old(receiver)@ + sleb(value as int));
        } else {
            receiver.push(b);
            assert(sleb(before as int) == seq![b]);
            assert(receiver@ =~= old(receiver)@ + sleb(value as int));
            break;
        }
    }
}

/// Emits `fixed_leb(value, 5)`; `value` must fit in 32 bits, signed or
/// unsigned, so that five bytes hold it.
fn fixed_leb5_i64(value: i64, receiver: &mut Vec<u8>)
    ensures
        final(receiver)@ == old(receiver)@ + fixed_leb(value as int, 5),
{
    let mut x: i64 = value;
    let mut k: usize = 0;
    while k < 4
        invariant
            k <= 4,
            old(receiver)@ + fixed_leb(value as int, 5) == receiver@ + fixed_leb(x as int, (5 - k) as nat),
        decreases 4 - k,
    {
        proof { lemma_i64_low7(x); }
        let b: u8 = (x & 127i64) as u8;
        let ghost before = x;
        x >>= 7;
        proof {
            lemma_split(before as int, b as int, x as int);
            lemma_u8_set_top(b);
        }
        receiver.push(b | 128u8);
        assert(fixed_leb(before as int, (5 - k) as nat) == seq![(b + 128) as u8] + fixed_leb(x as int, (5 - k - 1) as nat));
        k += 1;
        assert(receiver@ + fixed_leb(x as int, (5 - k) as nat) =~= old(receiver)@ + fixed_leb(value as int, 5));
    }
    proof {
        lemma_i64_low7(x);
        lemma_split(x as int, (x & 127i64) as int, (x >> 7) as int);
    }
    receiver.push((x & 127i64) as u8);
    assert(receiver@ =~= old(receiver)@ + fixed_leb(value as int, 5));
}

/// Little-endian bytes of the low `n` bytes of `x`.
pub open spec fn le_bytes(x: nat, n: nat) -> Seq<u8>
    decreases n,
{
    if n == 0 {
        seq![]
    } else {
        seq![(x % 256) as u8] + le_bytes(x / 256, (n - 1) as nat)
    }
}

proof fn lemma_u64_low8(x: u64)
    by (bit_vector)
    ensures
        x & 255 == x % 256,
        x >> 8 == x / 256,
{
}

fn le_bytes_u64(value: u64, n: usize, receiver: &mut Vec<u8>)
    ensures
        final(receiver)@ == old(receiver)@ + le_bytes(value as nat, n as nat),
{
    let mut x: u64 = value;
    let mut k: usize = 0;
    while k < n
        invariant
            k <= n,
            old(receiver)@ + le_bytes(value as nat, n as nat) == receiver@ + le_bytes(x as nat, (n - k) as nat),
        decreases n - k,
    {
        proof { lemma_u64_low8(x); }
        let b: u8 = (x & 255u64) as u8;
        let ghost before = x;
        x >>= 8;
        receiver.push(b);
        assert(le_bytes(before as nat, (n - k) as nat) == seq![b] + le_bytes(x as nat, (n - k - 1) as nat));
        k += 1;
        assert(receiver@ + le_bytes(x as nat, (n - k) as nat) =~= old(receiver)@ + le_bytes(value as nat, n as nat));
    }
    assert(receiver@ =~= old(receiver)@ + le_bytes(value as nat, n as nat));
}

/// LEB128 serialization of an integer.
pub trait LebSerialize {
    /// The bytes that encode `self`.
    spec fn spec_leb(&self) -> Seq<u8>;

    fn leb_serialize(&self, receiver: &mut Vec<u8>)
        ensures
            final(receiver)@ == old(receiver)@ + self.spec_leb(),
    ;
}

impl LebSerialize for u32 {
    open spec fn spec_leb(&self) -> Seq<u8> {
        uleb(*self as nat)
    }

    fn leb_serialize(&self, receiver: &mut Vec<u8>) {
        uleb_u64(*self as u64, receiver);
    }
}

impl LebSerialize for u64 {
    open spec fn spec_leb(&self) -> Seq<u8> {
        uleb(*self as nat)
    }

    fn leb_serialize(&self, receiver: &mut Vec<u8>) {
        uleb_u64(*self, receiver);
    }
}

impl LebSerialize for i32 {
    open spec fn spec_leb(&self) -> Seq<u8> {
        sleb(*self as int)
    }

    fn leb_serialize(&self, receiver: &mut Vec<u8>) {
        sleb_i64(*self as i64, receiver);
    }
}

impl LebSerialize for i64 {
    open spec fn spec_leb(&self) -> Seq<u8> {
        sleb(*self as int)
    }

    fn leb_serialize(&self, receiver: &mut Vec<u8>) {
        sleb_i64(*self, receiver);
    }
}

/// LEB128 serialization of a 32-bit integer into exactly five bytes, so
/// that the slot can be patched later without moving what follows.
pub trait LebSerialize5Byte {
    spec fn spec_leb5(&self) -> Seq<u8>;

    fn leb_serialize_5_byte(&self, receiver: &mut Vec<u8>)
        ensures
            final(receiver)@ == old(receiver)@ + self.spec_leb5(),
    ;
}

impl LebSerialize5Byte for u32 {
    open spec fn spec_leb5(&self) -> Seq<u8> {
        fixed_leb(*self as int, 5)
    }

    fn leb_serialize_5_byte(&self, receiver: &mut Vec<u8>) {
        fixed_leb5_i64(*self as i64, receiver);
    }
}

impl LebSerialize5Byte for i32 {
    open spec fn spec_leb5(&self) -> Seq<u8> {
        fixed_leb(*self as int, 5)
    }

    fn leb_serialize_5_byte(&self, receiver: &mut Vec<u8>) {
        fixed_leb5_i64(*self as i64, receiver);
    }
}

/// Copies the bits of a value to the output in little-endian order. A
/// floating-point number is written through its IEEE-754 bit pattern.
pub trait BitwiseSerialize {
    spec fn spec_bits(&self) -> Seq<u8>;

    fn bitwise_serialize(&self, receiver: &mut Vec<u8>)
        ensures
            final(receiver)@ == old(receiver)@ + self.spec_bits(),
    ;
}

impl BitwiseSerialize for u32 {
    open spec fn spec_bits(&self) -> Seq<u8> {
        le_bytes(*self as nat, 4)
    }

    fn bitwise_serialize(&self, receiver: &mut Vec<u8>) {
        le_bytes_u64(*self as u64, 4, receiver);
    }
}

impl BitwiseSerialize for u64 {
    open spec fn spec_bits(&self) -> Seq<u8> {
        le_bytes(*self as nat, 8)
    }

    fn bitwise_serialize(&self, receiver: &mut Vec<u8>) {
        le_bytes_u64(*self, 8, receiver);
    }
}

} // verus!
