//! Big-endian wire encoding of atomic values: `TFormat` + bytes -> `TValue`
//! and back.

use vstd::prelude::*;

use crate::t_format::TFormat;
use crate::t_value::{TValue, TValueView};

verus! {

use crate::t_format::spec_nb_bytes;

/// 256 to the power `n`.
pub open spec fn pow256(n: nat) -> nat
    decreases n,
{
    if n == 0 {
        1
    } else {
        256 * pow256((n - 1) as nat)
    }
}

/// Big-endian bytes of the lowest `n` bytes of a number.
pub open spec fn spec_u64_to_be(v: u64, n: nat) -> Seq<u8>
    decreases n,
{
    if n == 0 {
        Seq::empty()
    } else {
        spec_u64_to_be((v / 256) as u64, (n - 1) as nat).push((v % 256) as u8)
    }
}

/// Value of big-endian bytes.
pub open spec fn spec_be_val(s: Seq<u8>) -> nat
    decreases s.len(),
{
    if s.len() == 0 {
        0
    } else {
        spec_be_val(s.drop_last()) * 256 + s.last() as nat
    }
}

pub proof fn lemma_be_val_bound(s: Seq<u8>)
    ensures
        spec_be_val(s) < pow256(s.len() as nat),
    decreases s.len(),
{
    if s.len() > 0 {
        lemma_be_val_bound(s.drop_last());
        assert(spec_be_val(s.drop_last()) * 256 + 255 < pow256(s.len() as nat))
            by (nonlinear_arith)
            requires
                spec_be_val(s.drop_last()) < pow256((s.len() - 1) as nat),
                pow256(s.len() as nat) == 256 * pow256((s.len() - 1) as nat),
        ;
    }
}

/// Encoding then decoding big-endian bytes gives the number back.
pub proof fn lemma_be_round_trip(v: u64, n: nat)
    requires
        v < pow256(n),
    ensures
        spec_u64_to_be(v, n).len() == n,
        spec_be_val(spec_u64_to_be(v, n)) == v,
    decreases n,
{
    if n > 0 {
        let hi = (v / 256) as u64;
        assert(hi < pow256((n - 1) as nat)) by (nonlinear_arith)
            requires
                v < pow256(n),
                pow256(n) == 256 * pow256((n - 1) as nat),
                hi == v / 256,
        ;
        lemma_be_round_trip(hi, (n - 1) as nat);
        let s = spec_u64_to_be(v, n);
        assert(s.drop_last() =~= spec_u64_to_be(hi, (n - 1) as nat));
        assert(v / 256 * 256 + v % 256 == v) by (nonlinear_arith);
    }
}

/// Writes the lowest `n` bytes of a number in big-endian order.
pub fn u64_to_be(v: u64, n: usize) -> (r: Vec<u8>)
    ensures
        r@ == spec_u64_to_be(v, n as nat),
        r@.len() == n,
    decreases n,
{
    proof {
        lemma_u64_to_be_len(v, n as nat);
    }
    if n == 0 {
        Vec::new()
    } else {
        let mut r = u64_to_be(v / 256, n - 1);
        r.push((v % 256) as u8);
        r
    }
}

pub proof fn lemma_u64_to_be_len(v: u64, n: nat)
    ensures
        spec_u64_to_be(v, n).len() == n,
    decreases n,
{
    if n > 0 {
        lemma_u64_to_be_len((v / 256) as u64, (n - 1) as nat);
    }
}

/// Reads up to 8 big-endian bytes as a number.
pub fn be_to_u64(s: &[u8], from: usize, to: usize) -> (r: u64)
    requires
        from <= to <= s@.len(),
        to - from <= 8,
    ensures
        r == spec_be_val(s@.subrange(from as int, to as int)),
{
    proof {
        lemma_pow256_le8();
    }
    let mut acc: u64 = 0;
    let mut i: usize = from;
    while i < to
        invariant
            from <= i <= to <= s@.len(),
            to - from <= 8,
            acc == spec_be_val(s@.subrange(from as int, i as int)),
            acc < pow256((i - from) as nat),
            pow256(8) == 0x1_0000_0000_0000_0000,
        decreases to - i,
    {
        let ghost pre = s@.subrange(from as int, i as int);
        let ghost cur = s@.subrange(from as int, i + 1 as int);
        proof {
            assert(cur.drop_last() =~= pre);
            lemma_pow256_mono((i - from) as nat, 7);
            assert(acc * 256 + s@[i as int] < pow256((i + 1 - from) as nat)) by (nonlinear_arith)
                requires
                    acc < pow256((i - from) as nat),
                    s@[i as int] < 256,
                    pow256((i + 1 - from) as nat) == 256 * pow256((i - from) as nat),
            ;
            lemma_pow256_mono((i + 1 - from) as nat, 8);
        }
        acc = acc * 256 + (s[i] as u64);
        i += 1;
    }
    acc
}

pub proof fn lemma_pow256_le8()
    ensures
        pow256(8) == 0x1_0000_0000_0000_0000,
        pow256(1) == 0x100,
        pow256(2) == 0x1_0000,
        pow256(4) == 0x1_0000_0000,
{
    assert(pow256(0) == 1);
    assert(pow256(1) == 0x100);
    assert(pow256(2) == 0x1_0000);
    assert(pow256(3) == 0x100_0000);
    assert(pow256(4) == 0x1_0000_0000);
    assert(pow256(5) == 0x100_0000_0000);
    assert(pow256(6) == 0x1_0000_0000_0000);
    assert(pow256(7) == 0x100_0000_0000_0000);
    assert(pow256(8) == 0x1_0000_0000_0000_0000);
}

pub proof fn lemma_pow256_mono(a: nat, b: nat)
    requires
        a <= b,
    ensures
        pow256(a) <= pow256(b),
    decreases b,
{
    if a < b {
        lemma_pow256_mono(a, (b - 1) as nat);
        assert(pow256(b) == 256 * pow256((b - 1) as nat));
        assert(256 * pow256((b - 1) as nat) >= pow256((b - 1) as nat)) by (nonlinear_arith);
    }
}

/// Value decoded from big-endian bytes, by format. `None` when the bytes are
/// too few; a byte string takes exactly its declared length.
pub open spec fn spec_decode_value(t_format: TFormat, s: Seq<u8>) -> Option<TValueView> {
    if s.len() < spec_nb_bytes(t_format) {
        None
    } else {
        match t_format {
            TFormat::Unknown => Some(TValueView::VecU8(0, Seq::empty())),
            TFormat::Bool => Some(TValueView::Bool(s[0] != 0)),
            TFormat::U8 => Some(TValueView::U8(s[0])),
            TFormat::I8 => Some(TValueView::I8(s[0] as i8)),
            TFormat::U16 => Some(TValueView::U16(spec_be_val(s.take(2)) as u16)),
            TFormat::I16 => Some(TValueView::I16(spec_be_val(s.take(2)) as u16 as i16)),
            TFormat::U32 => Some(TValueView::U32(spec_be_val(s.take(4)) as u32)),
            TFormat::I32 => Some(TValueView::I32(spec_be_val(s.take(4)) as u32 as i32)),
            TFormat::U64 => Some(TValueView::U64(spec_be_val(s.take(8)) as u64)),
            TFormat::I64 => Some(TValueView::I64(spec_be_val(s.take(8)) as u64 as i64)),
            TFormat::F32 => Some(TValueView::F32(spec_be_val(s.take(4)) as u32)),
            TFormat::F64 => Some(TValueView::F64(spec_be_val(s.take(8)) as u64)),
            TFormat::VecU8(n) => Some(TValueView::VecU8(n as nat, s.take(n as int))),
        }
    }
}

/// Big-endian bytes of a value. A true boolean encodes as 1 here (the wire
/// encoding), unlike the raw-byte reading `spec_to_vec_u8`.
pub open spec fn spec_encode_value(v: TValueView) -> Seq<u8> {
    match v {
        TValueView::Bool(b) => if b {
            seq![1u8]
        } else {
            seq![0u8]
        },
        TValueView::U8(x) => seq![x],
        TValueView::I8(x) => seq![x as u8],
        TValueView::U16(x) => spec_u64_to_be(x as u64, 2),
        TValueView::I16(x) => spec_u64_to_be(x as u16 as u64, 2),
        TValueView::U32(x) => spec_u64_to_be(x as u64, 4),
        TValueView::I32(x) => spec_u64_to_be(x as u32 as u64, 4),
        TValueView::U64(x) => spec_u64_to_be(x, 8),
        TValueView::I64(x) => spec_u64_to_be(x as u64, 8),
        TValueView::F32(bits) => spec_u64_to_be(bits as u64, 4),
        TValueView::F64(bits) => spec_u64_to_be(bits, 8),
        TValueView::VecU8(_, bytes) => bytes,
    }
}

/// Decodes a value of the given format from the start of a byte slice.
/// Returns an error exactly when the slice is shorter than the format's width.
pub fn decode(t_format: TFormat, vec_u8: &[u8]) -> (r: Result<TValue, &'static str>)
    ensures
        match r {
            Ok(v) => spec_decode_value(t_format, vec_u8@) == Some(v@),
            Err(_) => spec_decode_value(t_format, vec_u8@) is None,
        },
{
    let nb = t_format.nb_bytes();
    if vec_u8.len() < nb {
        return Err("Missing u8 in data");
    }
    match t_format {
        TFormat::Unknown => Ok(TValue::VecU8(0, Vec::new())),
        TFormat::Bool => Ok(TValue::Bool(vec_u8[0] != 0)),
        TFormat::U8 => Ok(TValue::U8(vec_u8[0])),
        TFormat::I8 => Ok(TValue::I8(vec_u8[0] as i8)),
        TFormat::U16 => {
            let v = be_to_u64(vec_u8, 0, 2);
            proof {
                assert(vec_u8@.subrange(0, 2) =~= vec_u8@.take(2));
            }
            Ok(TValue::U16(v as u16))
        },
        TFormat::I16 => {
            let v = be_to_u64(vec_u8, 0, 2);
            proof {
                assert(vec_u8@.subrange(0, 2) =~= vec_u8@.take(2));
            }
            Ok(TValue::I16(v as u16 as i16))
        },
        TFormat::U32 => {
            let v = be_to_u64(vec_u8, 0, 4);
            proof {
                assert(vec_u8@.subrange(0, 4) =~= vec_u8@.take(4));
            }
            Ok(TValue::U32(v as u32))
        },
        TFormat::I32 => {
            let v = be_to_u64(vec_u8, 0, 4);
            proof {
                assert(vec_u8@.subrange(0, 4) =~= vec_u8@.take(4));
            }
            Ok(TValue::I32(v as u32 as i32))
        },
        TFormat::U64 => {
            let v = be_to_u64(vec_u8, 0, 8);
            proof {
                assert(vec_u8@.subrange(0, 8) =~= vec_u8@.take(8));
            }
            Ok(TValue::U64(v))
        },
        TFormat::I64 => {
            let v = be_to_u64(vec_u8, 0, 8);
            proof {
                assert(vec_u8@.subrange(0, 8) =~= vec_u8@.take(8));
            }
            Ok(TValue::I64(v as i64))
        },
        TFormat::F32 => {
            let v = be_to_u64(vec_u8, 0, 4);
            proof {
                assert(vec_u8@.subrange(0, 4) =~= vec_u8@.take(4));
            }
            Ok(TValue::F32(v as u32))
        },
        TFormat::F64 => {
            let v = be_to_u64(vec_u8, 0, 8);
            proof {
                assert(vec_u8@.subrange(0, 8) =~= vec_u8@.take(8));
            }
            Ok(TValue::F64(v))
        },
        TFormat::VecU8(n) => {
            let mut bytes: Vec<u8> = Vec::new();
            let mut i: usize = 0;
            while i < n
                invariant
                    0 <= i <= n,
                    n <= vec_u8@.len(),
                    bytes@ == vec_u8@.take(i as int),
                decreases n - i,
            {
                bytes.push(vec_u8[i]);
                proof {
                    assert(vec_u8@.take(i + 1 as int) =~= vec_u8@.take(i as int).push(
                        vec_u8@[i as int],
                    ));
                }
                i += 1;
            }
            Ok(TValue::VecU8(n, bytes))
        },
    }
}

/// Encodes a value as its big-endian wire bytes.
pub fn encode(t_value: &TValue) -> (r: Vec<u8>)
    ensures
        r@ == spec_encode_value(t_value@),
{
    match t_value {
        TValue::Bool(b) => {
            let mut r: Vec<u8> = Vec::new();
            if *b {
                r.push(1);
                proof {
                    assert(r@ =~= seq![1u8]);
                }
            } else {
                r.push(0);
                proof {
                    assert(r@ =~= seq![0u8]);
                }
            }
            r
        },
        TValue::U8(x) => {
            let mut r: Vec<u8> = Vec::new();
            r.push(*x);
            proof {
                assert(r@ =~= seq![*x]);
            }
            r
        },
        TValue::I8(x) => {
            let mut r: Vec<u8> = Vec::new();
            r.push(*x as u8);
            proof {
                assert(r@ =~= seq![*x as u8]);
            }
            r
        },
        TValue::U16(x) => u64_to_be(*x as u64, 2),
        TValue::I16(x) => u64_to_be(*x as u16 as u64, 2),
        TValue::U32(x) => u64_to_be(*x as u64, 4),
        TValue::I32(x) => u64_to_be(*x as u32 as u64, 4),
        TValue::U64(x) => u64_to_be(*x, 8),
        TValue::I64(x) => u64_to_be(*x as u64, 8),
        TValue::F32(bits) => u64_to_be(*bits as u64, 4),
        TValue::F64(bits) => u64_to_be(*bits, 8),
        TValue::VecU8(_, bytes) => {
            let mut r: Vec<u8> = Vec::new();
            let mut i: usize = 0;
            while i < bytes.len()
                invariant
                    0 <= i <= bytes@.len(),
                    r@ == bytes@.take(i as int),
                decreases bytes@.len() - i,
            {
                r.push(bytes[i]);
                proof {
                    assert(bytes@.take(i + 1 as int) =~= bytes@.take(i as int).push(
                        bytes@[i as int],
                    ));
                }
                i += 1;
            }
            proof {
                assert(bytes@.take(bytes@.len() as int) =~= bytes@);
            }
            r
        },
    }
}

/// A value is wire-sound when its byte string, if any, carries exactly its
/// declared length, and that length has a format code (at most 127).
pub open spec fn value_wire_sound(v: TValueView) -> bool {
    match v {
        TValueView::VecU8(len, bytes) => bytes.len() == len && len <= 127,
        _ => true,
    }
}

/// Decoding an encoded value with its own format gives the value back, for
/// every wire-sound value.
pub proof fn lemma_value_round_trip(v: TValueView)
    requires
        value_wire_sound(v),
    ensures
        spec_encode_value(v).len() == spec_nb_bytes(crate::t_value::spec_format_of(v)),
        spec_decode_value(crate::t_value::spec_format_of(v), spec_encode_value(v)) == Some(v),
{
    lemma_pow256_le8();
    let f = crate::t_value::spec_format_of(v);
    let s = spec_encode_value(v);
    match v {
        TValueView::Bool(b) => {
            assert(s[0] != 0 <==> b);
        },
        TValueView::I8(x) => {
            assert(x as u8 as i8 == x) by (bit_vector);
        },
        TValueView::U16(x) => {
            lemma_be_round_trip(x as u64, 2);
            assert(s.take(2) =~= s);
        },
        TValueView::I16(x) => {
            lemma_be_round_trip(x as u16 as u64, 2);
            assert(s.take(2) =~= s);
            assert(x as u16 as u64 as u16 as i16 == x) by (bit_vector);
        },
        TValueView::U32(x) => {
            lemma_be_round_trip(x as u64, 4);
            assert(s.take(4) =~= s);
        },
        TValueView::I32(x) => {
            lemma_be_round_trip(x as u32 as u64, 4);
            assert(s.take(4) =~= s);
            assert(x as u32 as u64 as u32 as i32 == x) by (bit_vector);
        },
        TValueView::U64(x) => {
            lemma_be_round_trip(x, 8);
            assert(s.take(8) =~= s);
        },
        TValueView::I64(x) => {
            lemma_be_round_trip(x as u64, 8);
            assert(s.take(8) =~= s);
            assert(x as u64 as i64 == x) by (bit_vector);
        },
        TValueView::F32(bits) => {
            lemma_be_round_trip(bits as u64, 4);
            assert(s.take(4) =~= s);
        },
        TValueView::F64(bits) => {
            lemma_be_round_trip(bits, 8);
            assert(s.take(8) =~= s);
        },
        TValueView::VecU8(len, bytes) => {
            assert(s.take(len as int) =~= bytes);
        },
        _ => {},
    }
}

} // verus!
