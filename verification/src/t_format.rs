//! One-byte format code for the atomic values held in the database.
//!
//! Wire encoding of the format byte:
//! `0x00` unknown, `0x01` u8, `0x11` bool, `0x02` u16, `0x04` u32, `0x08` u64,
//! `0x41` i8, `0x42` i16, `0x44` i32, `0x48` i64, `0x64` f32, `0x68` f64,
//! `0x80 + n` a byte string of `n` bytes with `n` in `[0, 127]`.

use vstd::prelude::*;

verus! {

/// Format of an atomic value, together with the length for byte strings.
///
/// The `F32` and `F64` formats describe IEEE-754 values; the library carries
/// such values as their raw big-endian bit patterns (see `TValue`).
#[derive(Clone, Copy, Debug, PartialEq, Eq, Structural)]
pub enum TFormat {
    Unknown,
    Bool,
    U8,
    I8,
    U16,
    I16,
    U32,
    I32,
    U64,
    I64,
    F32,
    F64,
    VecU8(usize),
}

impl Default for TFormat {
    /// The default format is `Unknown`.
    fn default() -> (res: Self)
        ensures
            res == TFormat::Unknown,
    {
        TFormat::Unknown
    }
}

/// Format decoded from its one-byte wire code.
pub open spec fn spec_format_from_u8(value: u8) -> TFormat {
    if value == 0x11 {
        TFormat::Bool
    } else if value == 0x01 {
        TFormat::U8
    } else if value == 0x41 {
        TFormat::I8
    } else if value == 0x02 {
        TFormat::U16
    } else if value == 0x42 {
        TFormat::I16
    } else if value == 0x04 {
        TFormat::U32
    } else if value == 0x44 {
        TFormat::I32
    } else if value == 0x08 {
        TFormat::U64
    } else if value == 0x48 {
        TFormat::I64
    } else if value == 0x64 {
        TFormat::F32
    } else if value == 0x68 {
        TFormat::F64
    } else if 0x80 <= value {
        TFormat::VecU8((value - 0x80) as usize)
    } else {
        TFormat::Unknown
    }
}

/// One-byte wire code of a format. A byte-string length above 127 has no code
/// and maps to the unknown code 0.
pub open spec fn spec_format_to_u8(value: TFormat) -> u8 {
    match value {
        TFormat::Unknown => 0x00,
        TFormat::Bool => 0x11,
        TFormat::U8 => 0x01,
        TFormat::I8 => 0x41,
        TFormat::U16 => 0x02,
        TFormat::I16 => 0x42,
        TFormat::U32 => 0x04,
        TFormat::I32 => 0x44,
        TFormat::U64 => 0x08,
        TFormat::I64 => 0x48,
        TFormat::F32 => 0x64,
        TFormat::F64 => 0x68,
        TFormat::VecU8(n) => if n <= 127 {
            (0x80 + n) as u8
        } else {
            0x00
        },
    }
}

/// Number of bytes a value of this format occupies in the store.
pub open spec fn spec_nb_bytes(value: TFormat) -> nat {
    match value {
        TFormat::Unknown => 0,
        TFormat::U8 | TFormat::Bool | TFormat::I8 => 1,
        TFormat::U16 | TFormat::I16 => 2,
        TFormat::U32 | TFormat::I32 | TFormat::F32 => 4,
        TFormat::U64 | TFormat::I64 | TFormat::F64 => 8,
        TFormat::VecU8(n) => n as nat,
    }
}

/// Number of 16-bit words a value of this format occupies in the store.
pub open spec fn spec_nb_words(value: TFormat) -> nat {
    match value {
        TFormat::Unknown => 0,
        TFormat::U8 | TFormat::Bool | TFormat::I8 | TFormat::U16 | TFormat::I16 => 1,
        TFormat::U32 | TFormat::I32 | TFormat::F32 => 2,
        TFormat::U64 | TFormat::I64 | TFormat::F64 => 4,
        TFormat::VecU8(n) => if 1 <= n && n <= 127 {
            ((n + 1) / 2) as nat
        } else {
            0
        },
    }
}

impl From<u8> for TFormat {
    /// Decodes a format from its one-byte wire code.
    fn from(value: u8) -> (res: TFormat) {
        if value == 0x11 {
            TFormat::Bool
        } else if value == 0x01 {
            TFormat::U8
        } else if value == 0x41 {
            TFormat::I8
        } else if value == 0x02 {
            TFormat::U16
        } else if value == 0x42 {
            TFormat::I16
        } else if value == 0x04 {
            TFormat::U32
        } else if value == 0x44 {
            TFormat::I32
        } else if value == 0x08 {
            TFormat::U64
        } else if value == 0x48 {
            TFormat::I64
        } else if value == 0x64 {
            TFormat::F32
        } else if value == 0x68 {
            TFormat::F64
        } else if 0x80 <= value {
            TFormat::VecU8((value - 0x80) as usize)
        } else {
            TFormat::Unknown
        }
    }
}

impl vstd::std_specs::convert::FromSpecImpl<u8> for TFormat {
    open spec fn obeys_from_spec() -> bool {
        true
    }

    open spec fn from_spec(value: u8) -> TFormat {
        spec_format_from_u8(value)
    }
}

impl From<TFormat> for u8 {
    /// Encodes a format as its one-byte wire code.
    fn from(value: TFormat) -> (res: u8) {
        match value {
            TFormat::Unknown => 0x00,
            TFormat::Bool => 0x11,
            TFormat::U8 => 0x01,
            TFormat::I8 => 0x41,
            TFormat::U16 => 0x02,
            TFormat::I16 => 0x42,
            TFormat::U32 => 0x04,
            TFormat::I32 => 0x44,
            TFormat::U64 => 0x08,
            TFormat::I64 => 0x48,
            TFormat::F32 => 0x64,
            TFormat::F64 => 0x68,
            TFormat::VecU8(n) => {
                if n <= 127 {
                    0x80 + (n as u8)
                } else {
                    0x00
                }
            },
        }
    }
}

impl vstd::std_specs::convert::FromSpecImpl<TFormat> for u8 {
    open spec fn obeys_from_spec() -> bool {
        true
    }

    open spec fn from_spec(value: TFormat) -> u8 {
        spec_format_to_u8(value)
    }
}

impl TFormat {
    /// Returns the number of bytes a value of this format occupies.
    pub fn nb_bytes(&self) -> (res: usize)
        ensures
            res == spec_nb_bytes(*self),
    {
        match self {
            TFormat::Unknown => 0,
            TFormat::U8 | TFormat::Bool | TFormat::I8 => 1,
            TFormat::U16 | TFormat::I16 => 2,
            TFormat::U32 | TFormat::I32 | TFormat::F32 => 4,
            TFormat::U64 | TFormat::I64 | TFormat::F64 => 8,
            TFormat::VecU8(n) => *n,
        }
    }

    /// Returns the number of words a value of this format occupies.
    pub fn nb_words(&self) -> (res: usize)
        ensures
            res == spec_nb_words(*self),
    {
        match self {
            TFormat::Unknown => 0,
            TFormat::U8 | TFormat::Bool | TFormat::I8 | TFormat::U16 | TFormat::I16 => 1,
            TFormat::U32 | TFormat::I32 | TFormat::F32 => 2,
            TFormat::U64 | TFormat::I64 | TFormat::F64 => 4,
            TFormat::VecU8(n) => {
                if 1 <= *n && *n <= 127 {
                    (*n + 1) / 2
                } else {
                    0
                }
            },
        }
    }
}

/// The wire code round-trips: decoding the code of a format yields the format
/// back, for every format that has a code of its own (a byte-string length
/// above 127 has none).
pub proof fn lemma_format_code_round_trip(value: TFormat)
    requires
        !matches!(value, TFormat::VecU8(n) if n > 127),
    ensures
        spec_format_from_u8(spec_format_to_u8(value)) == value,
{
}

} // verus!
