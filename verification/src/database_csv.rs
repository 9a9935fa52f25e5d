//! Parser for one line of the tag-table file: semicolon-separated fields,
//! `//` and `@@` comment lines, hexadecimal key and address fields.

use vstd::prelude::*;

use crate::id_tag::IdTag;
use crate::t_format::TFormat;
use crate::tag::Tag;

verus! {

use vstd::string::StringExecFns;
use vstd::utf8::encode_utf8;
use crate::t_format::spec_format_from_u8;
use crate::text;
use crate::text::{all_dec_digits, dec_val, spec_trim_ascii, utf8_lossy_of};

/// Index of the first `sep` byte, -1 when none occurs.
pub open spec fn first_sep(s: Seq<u8>, sep: u8) -> int
    decreases s.len(),
{
    if s.len() == 0 {
        -1
    } else if s[0] == sep {
        0
    } else {
        let r = first_sep(s.skip(1), sep);
        if r < 0 {
            -1
        } else {
            r + 1
        }
    }
}

/// The fields of a byte sequence split on a separator byte.
pub open spec fn spec_split(s: Seq<u8>, sep: u8) -> Seq<Seq<u8>>
    decreases s.len(),
{
    let i = first_sep(s, sep);
    if i < 0 || i >= s.len() {
        seq![s]
    } else {
        seq![s.take(i)] + spec_split(s.skip(i + 1), sep)
    }
}

/// An ASCII hexadecimal digit.
pub open spec fn is_hex_digit(b: u8) -> bool {
    (0x30 <= b && b <= 0x39) || (0x41 <= b && b <= 0x46) || (0x61 <= b && b <= 0x66)
}

/// Value of a hexadecimal digit byte; 0 on any other byte.
pub open spec fn hex_digit_val(b: u8) -> nat {
    if 0x30 <= b && b <= 0x39 {
        (b - 0x30) as nat
    } else if 0x41 <= b && b <= 0x46 {
        (b - 0x41 + 10) as nat
    } else if 0x61 <= b && b <= 0x66 {
        (b - 0x61 + 10) as nat
    } else {
        0
    }
}

pub open spec fn all_hex_digits(s: Seq<u8>) -> bool {
    forall|i: int| 0 <= i < s.len() ==> is_hex_digit(#[trigger] s[i])
}

/// Value of a sequence of hexadecimal digit bytes, most significant first.
pub open spec fn hex_val(s: Seq<u8>) -> nat
    decreases s.len(),
{
    if s.len() == 0 {
        0
    } else {
        hex_val(s.drop_last()) * 16 + hex_digit_val(s.last())
    }
}

/// What the hexadecimal field parser accepts: digits only (an empty field
/// reads as 0) and a value within the bound.
pub open spec fn spec_parse_hex(s: Seq<u8>, bound: nat) -> Option<nat> {
    if all_hex_digits(s) && hex_val(s) <= bound {
        Some(hex_val(s))
    } else {
        None
    }
}

/// A comment or empty line: nothing to define.
pub open spec fn spec_csv_comment(s: Seq<u8>) -> bool {
    ||| s.len() == 0
    ||| (s.len() >= 2 && s[0] == 0x2F && s[1] == 0x2F)
    ||| (s.len() >= 2 && s[0] == 0x40 && s[1] == 0x40)
}

/// The parsed fields of a tag definition line.
#[verifier::ext_equal]
pub struct CsvTagView {
    pub is_internal: bool,
    pub num_tag: u16,
    pub indice_0: u8,
    pub indice_1: u8,
    pub indice_2: u8,
    pub word_address: u16,
    pub t_format: TFormat,
    pub unity: Seq<u8>,
    pub label: Seq<u8>,
    pub is_write: bool,
    pub zone: u8,
    pub default_value: Seq<u8>,
}

/// The first field parsed as `II:NNNN:XX:XX:XX`: internal flag, tag number
/// and the three indices, all hexadecimal.
pub open spec fn spec_parse_field0(f: Seq<u8>) -> Option<(bool, u16, u8, u8, u8)> {
    if f.len() != 16 {
        None
    } else {
        let parts = spec_split(f, 0x3A);
        if parts.len() != 5 {
            None
        } else {
            let internal = !(parts[0] =~= seq![0x30u8, 0x30]);
            match (
                spec_parse_hex(parts[1], 0xFFFF),
                spec_parse_hex(parts[2], 0xFF),
                spec_parse_hex(parts[3], 0xFF),
                spec_parse_hex(parts[4], 0xFF),
            ) {
                (Some(num), Some(i0), Some(i1), Some(i2)) => Some(
                    (internal, num as u16, i0 as u8, i1 as u8, i2 as u8),
                ),
                _ => None,
            }
        }
    }
}

/// The tag a well-formed definition line describes; `None` on a line that is
/// neither a comment nor well formed.
pub open spec fn spec_csv_tag(s: Seq<u8>) -> Option<CsvTagView> {
    let f = spec_split(s, 0x3B);
    if f.len() < 13 {
        None
    } else {
        match spec_parse_field0(spec_trim_ascii(f[0])) {
            None => None,
            Some((is_internal, num_tag, i0, i1, i2)) => {
                match spec_parse_hex(spec_trim_ascii(f[1]), 0xFFFF) {
                    None => None,
                    Some(word_address) => {
                        match spec_parse_hex(spec_trim_ascii(f[2]), 0xFF) {
                            None => None,
                            Some(format_u8) => {
                                let t_format = spec_format_from_u8(format_u8 as u8);
                                if t_format is Unknown {
                                    None
                                } else {
                                    match (
                                        text::spec_parse_dec(spec_trim_ascii(f[10]), 0xFF),
                                        text::spec_parse_dec(spec_trim_ascii(f[11]), 0xFF),
                                    ) {
                                        (Some(rw), Some(zone)) => Some(
                                            CsvTagView {
                                                is_internal,
                                                num_tag,
                                                indice_0: i0,
                                                indice_1: i1,
                                                indice_2: i2,
                                                word_address: word_address as u16,
                                                t_format,
                                                unity: spec_trim_ascii(f[3]),
                                                label: spec_trim_ascii(f[4]),
                                                is_write: rw == 1,
                                                zone: zone as u8,
                                                default_value: spec_trim_ascii(f[12]),
                                            },
                                        ),
                                        _ => None,
                                    }
                                }
                            },
                        }
                    },
                }
            },
        }
    }
}

/// Views of split fields.
pub open spec fn field_views(s: Seq<Vec<u8>>) -> Seq<Seq<u8>> {
    s.map_values(|v: Vec<u8>| v@)
}

/// Splits a byte slice on a separator byte.
fn split_bytes(s: &[u8], sep: u8) -> (r: Vec<Vec<u8>>)
    ensures
        field_views(r@) == spec_split(s@, sep),
    decreases s@.len(),
{
    let n = s.len();
    let mut i: usize = 0;
    while i < n && s[i] != sep
        invariant
            0 <= i <= n,
            n == s@.len(),
            forall|j: int| 0 <= j < i ==> s@[j] != sep,
        decreases n - i,
    {
        i += 1;
    }
    proof {
        lemma_first_sep_char(s@, sep, i as int);
    }
    if i >= n {
        let mut r: Vec<Vec<u8>> = Vec::new();
        let whole = vstd::slice::slice_to_vec(s);
        r.push(whole);
        proof {
            assert(field_views(r@) =~= seq![s@]);
        }
        r
    } else {
        let head = vstd::slice::slice_to_vec(vstd::slice::slice_subrange(s, 0, i));
        let rest_slice = vstd::slice::slice_subrange(s, i + 1, n);
        let rest = split_bytes(rest_slice, sep);
        let mut r: Vec<Vec<u8>> = Vec::new();
        r.push(head);
        let mut k: usize = 0;
        let ghost rest_views = field_views(rest@);
        while k < rest.len()
            invariant
                0 <= k <= rest@.len(),
                rest_views == field_views(rest@),
                r@.len() == k + 1,
                field_views(r@) == seq![s@.subrange(0, first_sep(s@, sep))] + rest_views.take(
                    k as int,
                ),
            decreases rest@.len() - k,
        {
            let ghost r_pre = r@;
            let item = text::copy_bytes(&rest[k]);
            proof {
                assert(item@ == rest_views[k as int]);
            }
            r.push(item);
            proof {
                let target = seq![s@.subrange(0, first_sep(s@, sep))] + rest_views.take(
                    k + 1 as int,
                );
                assert forall|j: int| 0 <= j < r@.len() implies field_views(r@)[j] == target[j] by {
                    assert(field_views(r@)[j] == r@[j]@);
                    if j < r@.len() - 1 {
                        assert(r@[j] == r_pre[j]);
                        assert(field_views(r_pre)[j] == r_pre[j]@);
                    }
                }
                assert(field_views(r@) =~= target);
            }
            k += 1;
        }
        proof {
            assert(rest_views.take(rest@.len() as int) =~= rest_views);
            assert(s@.subrange(0, first_sep(s@, sep)) =~= s@.take(first_sep(s@, sep)));
            assert(s@.subrange(i + 1 as int, n as int) =~= s@.skip(first_sep(s@, sep) + 1));
            assert(field_views(r@) =~= spec_split(s@, sep));
        }
        r
    }
}

/// A scan that stopped at `i` pins down the first separator index.
proof fn lemma_first_sep_char(s: Seq<u8>, sep: u8, i: int)
    requires
        0 <= i <= s.len(),
        forall|j: int| 0 <= j < i ==> s[j] != sep,
        i < s.len() ==> s[i] == sep,
    ensures
        i < s.len() ==> first_sep(s, sep) == i,
        i == s.len() ==> first_sep(s, sep) < 0,
    decreases s.len(),
{
    if s.len() > 0 && s[0] != sep {
        lemma_first_sep_char(s.skip(1), sep, i - 1);
    }
}

/// Parses a hexadecimal field, accepting values up to `bound`; an empty field
/// reads as 0.
fn parse_hex_bytes(s: &[u8], bound: u64) -> (r: Option<u64>)
    requires
        bound >= 15,
    ensures
        match r {
            Some(v) => spec_parse_hex(s@, bound as nat) == Some(v as nat),
            None => spec_parse_hex(s@, bound as nat) is None,
        },
{
    let n = s.len();
    let mut acc: u64 = 0;
    let mut i: usize = 0;
    proof {
        assert(s@.take(0) =~= Seq::<u8>::empty());
    }
    while i < n
        invariant
            0 <= i <= n,
            n == s@.len(),
            bound >= 15,
            all_hex_digits(s@.take(i as int)),
            acc == hex_val(s@.take(i as int)),
            acc <= bound,
        decreases n - i,
    {
        let b = s[i];
        let ghost pre = s@.take(i as int);
        let ghost cur = s@.take(i + 1 as int);
        proof {
            assert(cur =~= pre.push(b));
            assert(cur.drop_last() =~= pre);
        }
        let d: u64 = if 0x30 <= b && b <= 0x39 {
            (b - 0x30) as u64
        } else if 0x41 <= b && b <= 0x46 {
            (b - 0x41 + 10) as u64
        } else if 0x61 <= b && b <= 0x66 {
            (b - 0x61 + 10) as u64
        } else {
            return None;
        };
        if acc > (bound - d) / 16 {
            proof {
                assert(acc * 16 + d > bound) by (nonlinear_arith)
                    requires
                        acc > (bound - d) / 16,
                        d <= 15,
                        d <= bound,
                ;
                if all_hex_digits(s@) {
                    lemma_hex_val_prefix(s@, i + 1);
                    assert(s@.take(s@.len() as int) =~= s@);
                }
            }
            return None;
        }
        proof {
            assert(acc * 16 + d <= bound) by (nonlinear_arith)
                requires
                    acc <= (bound - d) / 16,
                    d <= 15,
                    d <= bound,
            ;
        }
        acc = acc * 16 + d;
        i += 1;
    }
    proof {
        assert(s@.take(n as int) =~= s@);
    }
    Some(acc)
}

/// The value of a hexadecimal digit sequence is at least any prefix's value.
proof fn lemma_hex_val_prefix(s: Seq<u8>, k: int)
    requires
        0 <= k <= s.len(),
    ensures
        hex_val(s) >= hex_val(s.take(k)),
    decreases s.len(),
{
    if k < s.len() {
        assert(s.drop_last().take(k) =~= s.take(k));
        lemma_hex_val_prefix(s.drop_last(), k);
    } else {
        assert(s.take(k) =~= s);
    }
}

/// Parses one line of the tag-table file. A comment or empty line yields
/// `Ok(None)`; a well-formed definition yields the tag it describes; anything
/// else is an error.
pub fn from_line_csv(line: &str) -> (r: Result<Option<Tag>, String>)
    ensures
        ({
            let s = encode_utf8(line@);
            if spec_csv_comment(s) {
                r matches Ok(o) && o is None
            } else {
                match spec_csv_tag(s) {
                    Some(c) => r matches Ok(o) && o matches Some(t) && t.is_internal
                        == c.is_internal && t.word_address == c.word_address && t.t_format
                        == c.t_format && t.is_write == c.is_write && t.id_tag == (IdTag {
                        zone: c.zone,
                        num_tag: c.num_tag,
                        indice_0: c.indice_0,
                        indice_1: c.indice_1,
                        indice_2: c.indice_2,
                    }) && t.unity@ == utf8_lossy_of(c.unity) && t.label@ == utf8_lossy_of(c.label)
                        && t.default_value@ == utf8_lossy_of(c.default_value),
                    None => r is Err,
                }
            }
        }),
{
    let bytes = text::string_to_vec_u8(line);
    let n = bytes.len();
    if n == 0 {
        return Ok(None);
    }
    if n >= 2 && ((bytes[0] == 0x2F && bytes[1] == 0x2F) || (bytes[0] == 0x40 && bytes[1]
        == 0x40)) {
        return Ok(None);
    }
    let fields = split_bytes(bytes.as_slice(), 0x3B);
    if fields.len() < 13 {
        return Err(String::from_str("Nombre de champs insuffisant"));
    }
    proof {
        assert(field_views(fields@)[0] == fields@[0]@);
        assert(field_views(fields@)[1] == fields@[1]@);
        assert(field_views(fields@)[2] == fields@[2]@);
        assert(field_views(fields@)[3] == fields@[3]@);
        assert(field_views(fields@)[4] == fields@[4]@);
        assert(field_views(fields@)[10] == fields@[10]@);
        assert(field_views(fields@)[11] == fields@[11]@);
        assert(field_views(fields@)[12] == fields@[12]@);
    }
    // Field 0: internal flag, tag number and indices.
    let field0 = text::trim_ascii(fields[0].as_slice());
    let parsed0 = parse_field0(field0.as_slice());
    let (is_internal, num_tag, indice_0, indice_1, indice_2) = match parsed0 {
        Some(t) => t,
        None => {
            return Err(String::from_str("Format incorrect du champ#0"));
        },
    };
    // Field 1: word address, hexadecimal.
    let field1 = text::trim_ascii(fields[1].as_slice());
    let word_address = match parse_hex_bytes(field1.as_slice(), 0xFFFF) {
        Some(v) => v as u16,
        None => {
            return Err(String::from_str("Adresse mot incorrecte"));
        },
    };
    // Field 2: format byte, hexadecimal.
    let field2 = text::trim_ascii(fields[2].as_slice());
    let format_u8 = match parse_hex_bytes(field2.as_slice(), 0xFF) {
        Some(v) => v as u8,
        None => {
            return Err(String::from_str("Format de donnee incorrect"));
        },
    };
    let t_format = TFormat::from(format_u8);
    if matches!(t_format, TFormat::Unknown) {
        return Err(String::from_str("Format inconnu de donnee"));
    }
    // Fields 3 and 4: unit and label.
    let unity_bytes = text::trim_ascii(fields[3].as_slice());
    let unity = text::vec_u8_to_string(unity_bytes.as_slice());
    let label_bytes = text::trim_ascii(fields[4].as_slice());
    let label = text::vec_u8_to_string(label_bytes.as_slice());
    // Field 10: read/write flag.
    let field10 = text::trim_ascii(fields[10].as_slice());
    let rw = match text::parse_dec_bytes(field10.as_slice(), 0xFF) {
        Some(v) => v as u8,
        None => {
            return Err(String::from_str("R/W incorrect"));
        },
    };
    // Field 11: zone, decimal.
    let field11 = text::trim_ascii(fields[11].as_slice());
    let zone = match text::parse_dec_bytes(field11.as_slice(), 0xFF) {
        Some(v) => v as u8,
        None => {
            return Err(String::from_str("No de zone incorrect"));
        },
    };
    // Field 12: default value, as text.
    let default_bytes = text::trim_ascii(fields[12].as_slice());
    let default_value = text::vec_u8_to_string(default_bytes.as_slice());
    let id_tag = IdTag::new(zone, num_tag, [indice_0, indice_1, indice_2]);
    Ok(
        Some(
            Tag {
                word_address,
                id_tag,
                is_internal,
                t_format,
                unity,
                label,
                is_write: rw == 1,
                default_value,
            },
        ),
    )
}

/// Parses the first field: 16 bytes, five colon-separated hexadecimal parts.
fn parse_field0(field: &[u8]) -> (r: Option<(bool, u16, u8, u8, u8)>)
    ensures
        r == spec_parse_field0(field@),
{
    if field.len() != 16 {
        return None;
    }
    let parts = split_bytes(field, 0x3A);
    if parts.len() != 5 {
        return None;
    }
    proof {
        assert(field_views(parts@)[0] == parts@[0]@);
        assert(field_views(parts@)[1] == parts@[1]@);
        assert(field_views(parts@)[2] == parts@[2]@);
        assert(field_views(parts@)[3] == parts@[3]@);
        assert(field_views(parts@)[4] == parts@[4]@);
    }
    let p0 = &parts[0];
    let is_internal = !(p0.len() == 2 && p0[0] == 0x30 && p0[1] == 0x30);
    proof {
        if p0@.len() == 2 && p0@[0] == 0x30 && p0@[1] == 0x30 {
            assert(p0@ =~= seq![0x30u8, 0x30]);
        }
        if p0@ =~= seq![0x30u8, 0x30] {
            assert(p0@.len() == 2 && p0@[0] == 0x30 && p0@[1] == 0x30);
        }
    }
    let num_tag = match parse_hex_bytes(parts[1].as_slice(), 0xFFFF) {
        Some(v) => v as u16,
        None => {
            return None;
        },
    };
    let i0 = match parse_hex_bytes(parts[2].as_slice(), 0xFF) {
        Some(v) => v as u8,
        None => {
            return None;
        },
    };
    let i1 = match parse_hex_bytes(parts[3].as_slice(), 0xFF) {
        Some(v) => v as u8,
        None => {
            return None;
        },
    };
    let i2 = match parse_hex_bytes(parts[4].as_slice(), 0xFF) {
        Some(v) => v as u8,
        None => {
            return None;
        },
    };
    Some((is_internal, num_tag, i0, i1, i2))
}

} // verus!
