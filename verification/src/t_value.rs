//! Container for the atomic values held in the database and carried in TLV
//! data items, with total conversions between the variants.
//!
//! IEEE-754 values are carried as their raw bit patterns (`F32` holds the 32
//! bits of a single, `F64` the 64 bits of a double): the library moves and
//! stores such values without interpreting them, and numeric conversions and
//! textual renderings of a float variant yield 0 and the empty text.

use vstd::prelude::*;

use crate::t_format::TFormat;
use crate::text;

verus! {

use vstd::utf8::encode_utf8;
use crate::text::{
    dec_chars,
    dec_chars_int,
    spec_parse_dec,
    spec_parse_i64,
    spec_trim_ascii,
    utf8_lossy_of,
};

/// An atomic value together with its format.
#[derive(Debug)]
pub enum TValue {
    Bool(bool),
    U8(u8),
    I8(i8),
    U16(u16),
    I16(i16),
    U32(u32),
    I32(i32),
    U64(u64),
    I64(i64),
    /// Bit pattern of an IEEE-754 single.
    F32(u32),
    /// Bit pattern of an IEEE-754 double.
    F64(u64),
    /// A byte string and its nominal length.
    VecU8(usize, Vec<u8>),
}

/// Mathematical model of a `TValue`.
#[verifier::ext_equal]
pub enum TValueView {
    Bool(bool),
    U8(u8),
    I8(i8),
    U16(u16),
    I16(i16),
    U32(u32),
    I32(i32),
    U64(u64),
    I64(i64),
    F32(u32),
    F64(u64),
    VecU8(nat, Seq<u8>),
}

impl View for TValue {
    type V = TValueView;

    open spec fn view(&self) -> TValueView {
        match self {
            TValue::Bool(b) => TValueView::Bool(*b),
            TValue::U8(x) => TValueView::U8(*x),
            TValue::I8(x) => TValueView::I8(*x),
            TValue::U16(x) => TValueView::U16(*x),
            TValue::I16(x) => TValueView::I16(*x),
            TValue::U32(x) => TValueView::U32(*x),
            TValue::I32(x) => TValueView::I32(*x),
            TValue::U64(x) => TValueView::U64(*x),
            TValue::I64(x) => TValueView::I64(*x),
            TValue::F32(bits) => TValueView::F32(*bits),
            TValue::F64(bits) => TValueView::F64(*bits),
            TValue::VecU8(len, bytes) => TValueView::VecU8(*len as nat, bytes@),
        }
    }
}

impl Clone for TValue {
    /// A copy of the value, equal to the original in its model.
    fn clone(&self) -> (r: Self)
        ensures
            r@ == self@,
    {
        match self {
            TValue::Bool(b) => TValue::Bool(*b),
            TValue::U8(x) => TValue::U8(*x),
            TValue::I8(x) => TValue::I8(*x),
            TValue::U16(x) => TValue::U16(*x),
            TValue::I16(x) => TValue::I16(*x),
            TValue::U32(x) => TValue::U32(*x),
            TValue::I32(x) => TValue::I32(*x),
            TValue::U64(x) => TValue::U64(*x),
            TValue::I64(x) => TValue::I64(*x),
            TValue::F32(bits) => TValue::F32(*bits),
            TValue::F64(bits) => TValue::F64(*bits),
            TValue::VecU8(len, bytes) => TValue::VecU8(*len, text::copy_bytes(bytes)),
        }
    }
}

/// Format of a value.
pub open spec fn spec_format_of(v: TValueView) -> TFormat {
    match v {
        TValueView::Bool(_) => TFormat::Bool,
        TValueView::U8(_) => TFormat::U8,
        TValueView::I8(_) => TFormat::I8,
        TValueView::U16(_) => TFormat::U16,
        TValueView::I16(_) => TFormat::I16,
        TValueView::U32(_) => TFormat::U32,
        TValueView::I32(_) => TFormat::I32,
        TValueView::U64(_) => TFormat::U64,
        TValueView::I64(_) => TFormat::I64,
        TValueView::F32(_) => TFormat::F32,
        TValueView::F64(_) => TFormat::F64,
        TValueView::VecU8(len, _) => TFormat::VecU8(len as usize),
    }
}

/// The sequence padded with zero bytes, or truncated, to length `len`.
pub open spec fn pad_trunc(s: Seq<u8>, len: nat) -> Seq<u8> {
    Seq::new(len, |i: int| if i < s.len() { s[i] } else { 0u8 })
}

/// Unsigned reading of a value: out-of-range values (a negative number, a
/// float bit pattern, a byte string that is no decimal number) read as 0.
pub open spec fn spec_to_u64(v: TValueView) -> u64 {
    match v {
        TValueView::Bool(b) => if b {
            1
        } else {
            0
        },
        TValueView::U8(x) => x as u64,
        TValueView::I8(x) => if x >= 0 {
            x as u64
        } else {
            0
        },
        TValueView::U16(x) => x as u64,
        TValueView::I16(x) => if x >= 0 {
            x as u64
        } else {
            0
        },
        TValueView::U32(x) => x as u64,
        TValueView::I32(x) => if x >= 0 {
            x as u64
        } else {
            0
        },
        TValueView::U64(x) => x,
        TValueView::I64(x) => if x >= 0 {
            x as u64
        } else {
            0
        },
        TValueView::F32(_) => 0,
        TValueView::F64(_) => 0,
        TValueView::VecU8(_, bytes) => match spec_parse_dec(bytes, u64::MAX as nat) {
            Some(n) => n as u64,
            None => 0,
        },
    }
}

/// Signed reading of a value, 0 when out of range.
pub open spec fn spec_to_i64(v: TValueView) -> i64 {
    match v {
        TValueView::Bool(b) => if b {
            1
        } else {
            0
        },
        TValueView::U8(x) => x as i64,
        TValueView::I8(x) => x as i64,
        TValueView::U16(x) => x as i64,
        TValueView::I16(x) => x as i64,
        TValueView::U32(x) => x as i64,
        TValueView::I32(x) => x as i64,
        TValueView::U64(x) => if x <= i64::MAX as u64 {
            x as i64
        } else {
            0
        },
        TValueView::I64(x) => x,
        TValueView::F32(_) => 0,
        TValueView::F64(_) => 0,
        TValueView::VecU8(_, bytes) => match spec_parse_i64(bytes) {
            Some(n) => n,
            None => 0,
        },
    }
}

pub open spec fn spec_to_bool(v: TValueView) -> bool {
    spec_to_i64(v) != 0
}

/// Textual rendering of a value. Integers render in decimal, booleans as
/// `true` / `false`, a byte string as its padded or truncated bytes decoded
/// from UTF-8; a float bit pattern renders empty (the embedding program owns
/// float formatting).
pub open spec fn spec_to_text(v: TValueView) -> Seq<char> {
    match v {
        TValueView::Bool(b) => if b {
            seq!['t', 'r', 'u', 'e']
        } else {
            seq!['f', 'a', 'l', 's', 'e']
        },
        TValueView::U8(x) => dec_chars(x as nat),
        TValueView::I8(x) => dec_chars_int(x as int),
        TValueView::U16(x) => dec_chars(x as nat),
        TValueView::I16(x) => dec_chars_int(x as int),
        TValueView::U32(x) => dec_chars(x as nat),
        TValueView::I32(x) => dec_chars_int(x as int),
        TValueView::U64(x) => dec_chars(x as nat),
        TValueView::I64(x) => dec_chars_int(x as int),
        TValueView::F32(_) => Seq::empty(),
        TValueView::F64(_) => Seq::empty(),
        TValueView::VecU8(len, bytes) => utf8_lossy_of(pad_trunc(bytes, len)),
    }
}

/// Raw bytes of a value as the notification path hands them out: a true
/// boolean is the byte 0xFF, numbers are big-endian, a byte string is itself.
pub open spec fn spec_to_vec_u8(v: TValueView) -> Seq<u8> {
    match v {
        TValueView::Bool(b) => if b {
            seq![0xFFu8]
        } else {
            seq![0u8]
        },
        TValueView::U8(x) => seq![x],
        TValueView::I8(x) => seq![x as u8],
        TValueView::U16(x) => crate::be_data::spec_u64_to_be(x as u64, 2),
        TValueView::I16(x) => crate::be_data::spec_u64_to_be(x as u16 as u64, 2),
        TValueView::U32(x) => crate::be_data::spec_u64_to_be(x as u64, 4),
        TValueView::I32(x) => crate::be_data::spec_u64_to_be(x as u32 as u64, 4),
        TValueView::U64(x) => crate::be_data::spec_u64_to_be(x, 8),
        TValueView::I64(x) => crate::be_data::spec_u64_to_be(x as u64, 8),
        TValueView::F32(bits) => crate::be_data::spec_u64_to_be(bits as u64, 4),
        TValueView::F64(bits) => crate::be_data::spec_u64_to_be(bits, 8),
        TValueView::VecU8(_, bytes) => bytes,
    }
}

impl TValue {
    /// Returns the format of this value.
    pub fn to_t_format(&self) -> (r: TFormat)
        ensures
            r == spec_format_of(self@),
    {
        match self {
            TValue::Bool(_) => TFormat::Bool,
            TValue::U8(_) => TFormat::U8,
            TValue::I8(_) => TFormat::I8,
            TValue::U16(_) => TFormat::U16,
            TValue::I16(_) => TFormat::I16,
            TValue::U32(_) => TFormat::U32,
            TValue::I32(_) => TFormat::I32,
            TValue::U64(_) => TFormat::U64,
            TValue::I64(_) => TFormat::I64,
            TValue::F32(_) => TFormat::F32,
            TValue::F64(_) => TFormat::F64,
            TValue::VecU8(len, _) => TFormat::VecU8(*len),
        }
    }

    /// Unsigned reading of the value; 0 when out of range.
    pub fn extract_u64(&self) -> (r: u64)
        ensures
            r == spec_to_u64(self@),
    {
        match self {
            TValue::Bool(b) => if *b {
                1
            } else {
                0
            },
            TValue::U8(x) => *x as u64,
            TValue::I8(x) => if *x >= 0 {
                *x as u64
            } else {
                0
            },
            TValue::U16(x) => *x as u64,
            TValue::I16(x) => if *x >= 0 {
                *x as u64
            } else {
                0
            },
            TValue::U32(x) => *x as u64,
            TValue::I32(x) => if *x >= 0 {
                *x as u64
            } else {
                0
            },
            TValue::U64(x) => *x,
            TValue::I64(x) => if *x >= 0 {
                *x as u64
            } else {
                0
            },
            TValue::F32(_) => 0,
            TValue::F64(_) => 0,
            TValue::VecU8(_, bytes) => match text::parse_dec_bytes(bytes.as_slice(), u64::MAX) {
                Some(n) => n,
                None => 0,
            },
        }
    }

    /// Signed reading of the value; 0 when out of range.
    pub fn extract_i64(&self) -> (r: i64)
        ensures
            r == spec_to_i64(self@),
    {
        match self {
            TValue::Bool(b) => if *b {
                1
            } else {
                0
            },
            TValue::U8(x) => *x as i64,
            TValue::I8(x) => *x as i64,
            TValue::U16(x) => *x as i64,
            TValue::I16(x) => *x as i64,
            TValue::U32(x) => *x as i64,
            TValue::I32(x) => *x as i64,
            TValue::U64(x) => if *x <= 0x7FFF_FFFF_FFFF_FFFF {
                *x as i64
            } else {
                0
            },
            TValue::I64(x) => *x,
            TValue::F32(_) => 0,
            TValue::F64(_) => 0,
            TValue::VecU8(_, bytes) => match text::parse_i64_bytes(bytes.as_slice()) {
                Some(n) => n,
                None => 0,
            },
        }
    }

    /// Boolean reading of the value: true when the signed reading is not 0.
    pub fn extract_bool(&self) -> (r: bool)
        ensures
            r == spec_to_bool(self@),
    {
        self.extract_i64() != 0
    }

    pub fn extract_u8(&self) -> (r: u8)
        ensures
            r == if spec_to_u64(self@) <= u8::MAX as u64 {
                spec_to_u64(self@) as u8
            } else {
                0
            },
    {
        let v = self.extract_u64();
        if v <= 0xFF {
            v as u8
        } else {
            0
        }
    }

    pub fn extract_u16(&self) -> (r: u16)
        ensures
            r == if spec_to_u64(self@) <= u16::MAX as u64 {
                spec_to_u64(self@) as u16
            } else {
                0
            },
    {
        let v = self.extract_u64();
        if v <= 0xFFFF {
            v as u16
        } else {
            0
        }
    }

    pub fn extract_u32(&self) -> (r: u32)
        ensures
            r == if spec_to_u64(self@) <= u32::MAX as u64 {
                spec_to_u64(self@) as u32
            } else {
                0
            },
    {
        let v = self.extract_u64();
        if v <= 0xFFFF_FFFF {
            v as u32
        } else {
            0
        }
    }

    pub fn extract_i8(&self) -> (r: i8)
        ensures
            r == if i8::MIN as i64 <= spec_to_i64(self@) && spec_to_i64(self@) <= i8::MAX as i64 {
                spec_to_i64(self@) as i8
            } else {
                0
            },
    {
        let v = self.extract_i64();
        if -128 <= v && v <= 127 {
            v as i8
        } else {
            0
        }
    }

    pub fn extract_i16(&self) -> (r: i16)
        ensures
            r == if i16::MIN as i64 <= spec_to_i64(self@) && spec_to_i64(self@)
                <= i16::MAX as i64 {
                spec_to_i64(self@) as i16
            } else {
                0
            },
    {
        let v = self.extract_i64();
        if -32768 <= v && v <= 32767 {
            v as i16
        } else {
            0
        }
    }

    pub fn extract_i32(&self) -> (r: i32)
        ensures
            r == if i32::MIN as i64 <= spec_to_i64(self@) && spec_to_i64(self@)
                <= i32::MAX as i64 {
                spec_to_i64(self@) as i32
            } else {
                0
            },
    {
        let v = self.extract_i64();
        if -0x8000_0000 <= v && v <= 0x7FFF_FFFF {
            v as i32
        } else {
            0
        }
    }

    pub fn to_t_value_bool(&self) -> (r: TValue)
        ensures
            r@ == TValueView::Bool(spec_to_bool(self@)),
    {
        TValue::Bool(self.extract_bool())
    }

    pub fn to_t_value_u8(&self) -> (r: TValue)
        ensures
            r@ == TValueView::U8(
                if spec_to_u64(self@) <= u8::MAX as u64 {
                    spec_to_u64(self@) as u8
                } else {
                    0u8
                },
            ),
    {
        TValue::U8(self.extract_u8())
    }

    pub fn to_t_value_i8(&self) -> (r: TValue)
        ensures
            r@ == TValueView::I8(
                if i8::MIN as i64 <= spec_to_i64(self@) && spec_to_i64(self@) <= i8::MAX as i64 {
                    spec_to_i64(self@) as i8
                } else {
                    0i8
                },
            ),
    {
        TValue::I8(self.extract_i8())
    }

    pub fn to_t_value_u16(&self) -> (r: TValue)
        ensures
            r@ == TValueView::U16(
                if spec_to_u64(self@) <= u16::MAX as u64 {
                    spec_to_u64(self@) as u16
                } else {
                    0u16
                },
            ),
    {
        TValue::U16(self.extract_u16())
    }

    pub fn to_t_value_i16(&self) -> (r: TValue)
        ensures
            r@ == TValueView::I16(
                if i16::MIN as i64 <= spec_to_i64(self@) && spec_to_i64(self@)
                    <= i16::MAX as i64 {
                    spec_to_i64(self@) as i16
                } else {
                    0i16
                },
            ),
    {
        TValue::I16(self.extract_i16())
    }

    pub fn to_t_value_u32(&self) -> (r: TValue)
        ensures
            r@ == TValueView::U32(
                if spec_to_u64(self@) <= u32::MAX as u64 {
                    spec_to_u64(self@) as u32
                } else {
                    0u32
                },
            ),
    {
        TValue::U32(self.extract_u32())
    }

    pub fn to_t_value_i32(&self) -> (r: TValue)
        ensures
            r@ == TValueView::I32(
                if i32::MIN as i64 <= spec_to_i64(self@) && spec_to_i64(self@)
                    <= i32::MAX as i64 {
                    spec_to_i64(self@) as i32
                } else {
                    0i32
                },
            ),
    {
        TValue::I32(self.extract_i32())
    }

    pub fn to_t_value_u64(&self) -> (r: TValue)
        ensures
            r@ == TValueView::U64(spec_to_u64(self@)),
    {
        TValue::U64(self.extract_u64())
    }

    pub fn to_t_value_i64(&self) -> (r: TValue)
        ensures
            r@ == TValueView::I64(spec_to_i64(self@)),
    {
        TValue::I64(self.extract_i64())
    }

    /// Textual rendering of the value.
    pub fn to_text(&self) -> (r: String)
        ensures
            r@ == spec_to_text(self@),
    {
        match self {
            TValue::Bool(b) => {
                let mut chars: Vec<char> = Vec::new();
                if *b {
                    chars.push('t');
                    chars.push('r');
                    chars.push('u');
                    chars.push('e');
                    proof {
                        assert(chars@ =~= seq!['t', 'r', 'u', 'e']);
                    }
                } else {
                    chars.push('f');
                    chars.push('a');
                    chars.push('l');
                    chars.push('s');
                    chars.push('e');
                    proof {
                        assert(chars@ =~= seq!['f', 'a', 'l', 's', 'e']);
                    }
                }
                text::string_from_chars(&chars)
            },
            TValue::U8(x) => text::string_from_chars(&text::u64_to_dec_chars(*x as u64)),
            TValue::I8(x) => text::string_from_chars(&text::i64_to_dec_chars(*x as i64)),
            TValue::U16(x) => text::string_from_chars(&text::u64_to_dec_chars(*x as u64)),
            TValue::I16(x) => text::string_from_chars(&text::i64_to_dec_chars(*x as i64)),
            TValue::U32(x) => text::string_from_chars(&text::u64_to_dec_chars(*x as u64)),
            TValue::I32(x) => text::string_from_chars(&text::i64_to_dec_chars(*x as i64)),
            TValue::U64(x) => text::string_from_chars(&text::u64_to_dec_chars(*x)),
            TValue::I64(x) => text::string_from_chars(&text::i64_to_dec_chars(*x)),
            TValue::F32(_) => {
                let chars: Vec<char> = Vec::new();
                text::string_from_chars(&chars)
            },
            TValue::F64(_) => {
                let chars: Vec<char> = Vec::new();
                text::string_from_chars(&chars)
            },
            TValue::VecU8(len, bytes) => {
                let padded = pad_trunc_exec(bytes, *len);
                text::vec_u8_to_string(padded.as_slice())
            },
        }
    }

    /// Converts the value to a byte string of exactly `len` bytes: its
    /// rendering, trimmed of ASCII whitespace, padded with zero bytes or
    /// truncated.
    pub fn to_t_value_vec_u8(&self, len: usize) -> (r: TValue)
        ensures
            r@ == TValueView::VecU8(
                len as nat,
                pad_trunc(spec_trim_ascii(encode_utf8(spec_to_text(self@))), len as nat),
            ),
    {
        let s = self.to_text();
        let bytes = text::string_to_vec_u8(s.as_str());
        let trimmed = text::trim_ascii(bytes.as_slice());
        let padded = pad_trunc_exec(&trimmed, len);
        TValue::VecU8(len, padded)
    }

    /// Raw bytes of the value (a true boolean is 0xFF, numbers big-endian).
    pub fn to_vec_u8(&self) -> (r: Vec<u8>)
        ensures
            r@ == spec_to_vec_u8(self@),
    {
        match self {
            TValue::Bool(b) => {
                let mut r: Vec<u8> = Vec::new();
                if *b {
                    r.push(0xFF);
                    proof {
                        assert(r@ =~= seq![0xFFu8]);
                    }
                } else {
                    r.push(0);
                    proof {
                        assert(r@ =~= seq![0u8]);
                    }
                }
                r
            },
            TValue::U8(x) => {
                let mut r: Vec<u8> = Vec::new();
                r.push(*x);
                proof {
                    assert(r@ =~= seq![*x]);
                }
                r
            },
            TValue::I8(x) => {
                let mut r: Vec<u8> = Vec::new();
                r.push(*x as u8);
                proof {
                    assert(r@ =~= seq![*x as u8]);
                }
                r
            },
            TValue::U16(x) => crate::be_data::u64_to_be(*x as u64, 2),
            TValue::I16(x) => crate::be_data::u64_to_be(*x as u16 as u64, 2),
            TValue::U32(x) => crate::be_data::u64_to_be(*x as u64, 4),
            TValue::I32(x) => crate::be_data::u64_to_be(*x as u32 as u64, 4),
            TValue::U64(x) => crate::be_data::u64_to_be(*x, 8),
            TValue::I64(x) => crate::be_data::u64_to_be(*x as u64, 8),
            TValue::F32(bits) => crate::be_data::u64_to_be(*bits as u64, 4),
            TValue::F64(bits) => crate::be_data::u64_to_be(*bits, 8),
            TValue::VecU8(_, bytes) => {
                let mut r: Vec<u8> = Vec::new();
                let mut i: usize = 0;
                while i < bytes.len()
                    invariant
                        0 <= i <= bytes@.len(),
                        r@ == bytes@.take(i as int),
                    decreases bytes@.len() - i,
                {
                    r.push(bytes[i]);
                    proof {
                        assert(bytes@.take(i + 1 as int) =~= bytes@.take(i as int).push(
                            bytes@[i as int],
                        ));
                    }
                    i += 1;
                }
                proof {
                    assert(bytes@.take(bytes@.len() as int) =~= bytes@);
                }
                r
            },
        }
    }
}

/// Pads with zero bytes, or truncates, to exactly `len` bytes.
pub fn pad_trunc_exec(bytes: &Vec<u8>, len: usize) -> (r: Vec<u8>)
    ensures
        r@ == pad_trunc(bytes@, len as nat),
{
    let mut r: Vec<u8> = Vec::new();
    let mut i: usize = 0;
    while i < len
        invariant
            0 <= i <= len,
            r@.len() == i,
            forall|j: int|
                0 <= j < i ==> r@[j] == (if j < bytes@.len() {
                    bytes@[j]
                } else {
                    0u8
                }),
        decreases len - i,
    {
        if i < bytes.len() {
            r.push(bytes[i]);
        } else {
            r.push(0);
        }
        i += 1;
    }
    proof {
        assert(r@ =~= pad_trunc(bytes@, len as nat));
    }
    r
}

/// Text round trip for unsigned numbers: rendering a number as text and
/// reading the rendered bytes back as a byte-string value yields the number.
pub proof fn lemma_text_round_trip_u64(v: u64)
    ensures
        spec_to_text(TValueView::U64(v)) == dec_chars(v as nat),
        spec_to_u64(
            TValueView::VecU8(
                dec_chars(v as nat).len(),
                encode_utf8(dec_chars(v as nat)),
            ),
        ) == v,
{
    text::lemma_dec_chars_val(v as nat);
    let cs = dec_chars(v as nat);
    vstd::utf8::is_ascii_chars_encode_utf8(cs);
    let bs = encode_utf8(cs);
    assert(bs =~= text::ascii_bytes_of(cs));
    assert(bs[0] != 0x2B);
    assert(spec_parse_dec(bs, u64::MAX as nat) == Some(v as nat));
}

/// Text round trip for signed numbers: rendering a number as text and reading
/// the rendered bytes back as a byte-string value yields the number.
pub proof fn lemma_text_round_trip_i64(v: i64)
    ensures
        spec_to_text(TValueView::I64(v)) == dec_chars_int(v as int),
        spec_to_i64(
            TValueView::VecU8(
                dec_chars_int(v as int).len(),
                encode_utf8(dec_chars_int(v as int)),
            ),
        ) == v,
{
    if v >= 0 {
        text::lemma_dec_chars_val(v as nat);
        let cs = dec_chars_int(v as int);
        assert(cs == dec_chars(v as nat));
        vstd::utf8::is_ascii_chars_encode_utf8(cs);
        let bs = encode_utf8(cs);
        assert(bs =~= text::ascii_bytes_of(cs));
        assert(bs[0] != 0x2B && bs[0] != 0x2D);
        assert(spec_parse_dec(bs, 0x7FFF_FFFF_FFFF_FFFF as nat) == Some(v as nat));
    } else {
        let m = (0 - v) as nat;
        text::lemma_dec_chars_val(m);
        let ds = dec_chars(m);
        let cs = dec_chars_int(v as int);
        assert(cs == seq!['-'] + ds);
        assert(vstd::utf8::is_ascii_chars(cs)) by {
            assert forall|i: int| 0 <= i < cs.len() implies '\0' <= #[trigger] cs[i]
                <= '\u{7f}' by {
                if i > 0 {
                    assert(cs[i] == ds[i - 1]);
                }
            }
        }
        vstd::utf8::is_ascii_chars_encode_utf8(cs);
        let bs = encode_utf8(cs);
        assert(bs =~= text::ascii_bytes_of(cs));
        assert(bs[0] == 0x2D);
        assert(bs.skip(1) =~= text::ascii_bytes_of(ds));
        assert(spec_parse_i64(bs) == Some(v));
    }
}

/// Every numeric conversion is the identity on the value's own variant:
/// wrapping a number and reading it back with the matching conversion yields
/// the number, for every integer width and for booleans.
pub proof fn lemma_numeric_conversions_identity(
    b: bool,
    v8: u8,
    i8v: i8,
    v16: u16,
    i16v: i16,
    v32: u32,
    i32v: i32,
    v64: u64,
    i64v: i64,
)
    ensures
        spec_to_bool(TValueView::Bool(b)) == b,
        spec_to_u64(TValueView::U8(v8)) == v8 as u64,
        spec_to_i64(TValueView::I8(i8v)) == i8v as i64,
        spec_to_u64(TValueView::U16(v16)) == v16 as u64,
        spec_to_i64(TValueView::I16(i16v)) == i16v as i64,
        spec_to_u64(TValueView::U32(v32)) == v32 as u64,
        spec_to_i64(TValueView::I32(i32v)) == i32v as i64,
        spec_to_u64(TValueView::U64(v64)) == v64,
        spec_to_i64(TValueView::I64(i64v)) == i64v,
{
}

} // verus!
