//! Text helpers: decimal and hexadecimal parsing over ASCII bytes, decimal
//! rendering to characters, ASCII trimming, and the conversions between byte
//! vectors and strings.

use vstd::prelude::*;

verus! {

use vstd::string::StrSliceExecFns;
use vstd::utf8::encode_utf8;

/// What `String::from_utf8_lossy` returns on a byte sequence: the bytes
/// decoded as UTF-8, invalid sequences replaced by the replacement character.
pub uninterp spec fn utf8_lossy_of(bytes: Seq<u8>) -> Seq<char>;

/// Decodes a byte vector into a `String`, replacing invalid UTF-8 sequences.
///
/// Relies on `String::from_utf8_lossy`: the result is a function of the bytes
/// alone; valid UTF-8 decodes to the text it encodes (so the conversion is
/// the inverse of `string_to_vec_u8`); an empty input gives an empty string.
#[verifier::external_body]
pub fn vec_u8_to_string(vec_u8: &[u8]) -> (r: String)
    ensures
        r@ == utf8_lossy_of(vec_u8@),
        forall|s: Seq<char>| vec_u8@ == encode_utf8(s) ==> r@ == s,
        vec_u8@.len() == 0 ==> r@.len() == 0,
{
    String::from_utf8_lossy(vec_u8).into()
}

/// Builds a `String` out of a vector of characters.
///
/// Relies on `String::from_iter` over `char`: the string holds exactly the
/// characters handed in, in order.
#[verifier::external_body]
pub fn string_from_chars(chars: &Vec<char>) -> (r: String)
    ensures
        r@ == chars@,
{
    chars.iter().collect()
}

/// Encodes a string slice as its UTF-8 bytes.
pub fn string_to_vec_u8(s: &str) -> (r: Vec<u8>)
    ensures
        r@ == encode_utf8(s@),
{
    s.as_bytes_vec()
}

/// An ASCII decimal digit byte.
pub open spec fn is_dec_digit(b: u8) -> bool {
    0x30 <= b && b <= 0x39
}

/// Value of a digit byte; 0 on a byte that is no digit.
pub open spec fn digit_val(b: u8) -> nat {
    if is_dec_digit(b) {
        (b - 0x30) as nat
    } else {
        0
    }
}

pub open spec fn all_dec_digits(s: Seq<u8>) -> bool {
    forall|i: int| 0 <= i < s.len() ==> is_dec_digit(#[trigger] s[i])
}

/// Value of a sequence of decimal digit bytes, most significant first.
pub open spec fn dec_val(s: Seq<u8>) -> nat
    decreases s.len(),
{
    if s.len() == 0 {
        0
    } else {
        dec_val(s.drop_last()) * 10 + digit_val(s.last())
    }
}

/// The value of a digit sequence is at least the value of any of its prefixes.
pub proof fn lemma_dec_val_prefix(s: Seq<u8>, k: int)
    requires
        0 <= k <= s.len(),
    ensures
        dec_val(s) >= dec_val(s.take(k)),
    decreases s.len(),
{
    if k < s.len() {
        assert(s.drop_last().take(k) =~= s.take(k));
        lemma_dec_val_prefix(s.drop_last(), k);
    } else {
        assert(s.take(k) =~= s);
    }
}

/// What `str::parse` returns for an unsigned integer that must fit below
/// `bound`: an optional leading `+`, then at least one decimal digit, and the
/// value within the bound.
pub open spec fn spec_parse_dec(s: Seq<u8>, bound: nat) -> Option<nat> {
    let t = if s.len() > 0 && s[0] == 0x2B {
        s.skip(1)
    } else {
        s
    };
    if t.len() > 0 && all_dec_digits(t) && dec_val(t) <= bound {
        Some(dec_val(t))
    } else {
        None
    }
}

/// Parses the digits of `s` from `start` on, accepting values up to `bound`.
/// Returns the value exactly when the rest is one or more digits whose value
/// fits.
fn parse_dec_from(s: &[u8], start: usize, bound: u64) -> (r: Option<u64>)
    requires
        start <= s@.len(),
        bound >= 9,
    ensures
        match r {
            Some(v) => {
                &&& s@.skip(start as int).len() > 0
                &&& all_dec_digits(s@.skip(start as int))
                &&& v == dec_val(s@.skip(start as int))
                &&& v <= bound
            },
            None => {
                let t = s@.skip(start as int);
                t.len() == 0 || !all_dec_digits(t) || dec_val(t) > bound
            },
        },
{
    let n = s.len();
    if start >= n {
        return None;
    }
    let mut acc: u64 = 0;
    let mut i: usize = start;
    while i < n
        invariant
            start <= i <= n,
            n == s@.len(),
            all_dec_digits(s@.subrange(start as int, i as int)),
            acc == dec_val(s@.subrange(start as int, i as int)),
            acc <= bound,
            bound >= 9,
        decreases n - i,
    {
        let b = s[i];
        let ghost pre = s@.subrange(start as int, i as int);
        let ghost cur = s@.subrange(start as int, i + 1 as int);
        assert(cur =~= pre.push(b));
        assert(cur.drop_last() =~= pre);
        if !(0x30 <= b && b <= 0x39) {
            assert(!is_dec_digit(s@.skip(start as int)[i - start]));
            return None;
        }
        let d = (b - 0x30) as u64;
        assert(dec_val(cur) == dec_val(pre) * 10 + digit_val(b));
        if acc > (bound - d) / 10 {
            // The digits seen so far already exceed the bound, and further
            // digits can only grow the value.
            proof {
                assert(acc * 10 + d > bound) by (nonlinear_arith)
                    requires
                        acc > (bound - d) / 10,
                        d <= 9,
                        d <= bound,
                        bound <= u64::MAX,
                ;
                if all_dec_digits(s@.skip(start as int)) {
                    let t = s@.skip(start as int);
                    lemma_dec_val_prefix(t, i + 1 - start);
                    assert(t.take(i + 1 - start) =~= cur);
                }
            }
            return None;
        }
        proof {
            assert(acc * 10 + d <= bound) by (nonlinear_arith)
                requires
                    acc <= (bound - d) / 10,
                    d <= 9,
                    d <= bound,
                    bound <= u64::MAX,
            ;
        }
        acc = acc * 10 + d;
        i += 1;
    }
    proof {
        assert(s@.subrange(start as int, n as int) =~= s@.skip(start as int));
    }
    Some(acc)
}

/// Parses an unsigned decimal number, as `str::parse` does for an unsigned
/// type whose largest value is `bound`.
pub fn parse_dec_bytes(s: &[u8], bound: u64) -> (r: Option<u64>)
    requires
        bound >= 9,
    ensures
        match r {
            Some(v) => spec_parse_dec(s@, bound as nat) == Some(v as nat),
            None => spec_parse_dec(s@, bound as nat) is None,
        },
{
    let n = s.len();
    let start: usize = if n > 0 && s[0] == 0x2B {
        1
    } else {
        0
    };
    proof {
        if start == 0 {
            assert(s@.skip(0) =~= s@);
        }
    }
    parse_dec_from(s, start, bound)
}

/// What `str::parse::<i64>` returns: an optional sign, then at least one
/// decimal digit, and the value within the type's range.
pub open spec fn spec_parse_i64(s: Seq<u8>) -> Option<i64> {
    if s.len() > 0 && s[0] == 0x2D {
        let t = s.skip(1);
        if t.len() > 0 && all_dec_digits(t) && dec_val(t) <= 0x8000_0000_0000_0000 {
            Some((0 - dec_val(t)) as i64)
        } else {
            None
        }
    } else {
        match spec_parse_dec(s, 0x7FFF_FFFF_FFFF_FFFF as nat) {
            Some(v) => Some(v as i64),
            None => None,
        }
    }
}

/// Parses a signed decimal number, as `str::parse::<i64>` does.
pub fn parse_i64_bytes(s: &[u8]) -> (r: Option<i64>)
    ensures
        r == spec_parse_i64(s@),
{
    let n = s.len();
    if n > 0 && s[0] == 0x2D {
        match parse_dec_from(s, 1, 0x8000_0000_0000_0000) {
            Some(mag) => {
                if mag == 0x8000_0000_0000_0000 {
                    Some(i64::MIN)
                } else {
                    Some(-(mag as i64))
                }
            },
            None => None,
        }
    } else {
        match parse_dec_bytes(s, 0x7FFF_FFFF_FFFF_FFFF) {
            Some(v) => Some(v as i64),
            None => None,
        }
    }
}

/// What `str::parse::<bool>` returns: exactly the text `true` or `false`.
pub open spec fn spec_parse_bool(s: Seq<u8>) -> Option<bool> {
    if s =~= seq![0x74u8, 0x72, 0x75, 0x65] {
        Some(true)
    } else if s =~= seq![0x66u8, 0x61, 0x6C, 0x73, 0x65] {
        Some(false)
    } else {
        None
    }
}

/// Parses a boolean, as `str::parse::<bool>` does.
pub fn parse_bool_bytes(s: &[u8]) -> (r: Option<bool>)
    ensures
        r == spec_parse_bool(s@),
{
    let n = s.len();
    if n == 4 && s[0] == 0x74 && s[1] == 0x72 && s[2] == 0x75 && s[3] == 0x65 {
        proof {
            assert(s@ =~= seq![0x74u8, 0x72, 0x75, 0x65]);
        }
        Some(true)
    } else if n == 5 && s[0] == 0x66 && s[1] == 0x61 && s[2] == 0x6C && s[3] == 0x73 && s[4]
        == 0x65 {
        proof {
            assert(s@ =~= seq![0x66u8, 0x61, 0x6C, 0x73, 0x65]);
        }
        Some(false)
    } else {
        proof {
            if s@ =~= seq![0x74u8, 0x72, 0x75, 0x65] {
                assert(s@.len() == 4 && s@[0] == 0x74 && s@[1] == 0x72 && s@[2] == 0x75 && s@[3]
                    == 0x65);
            }
            if s@ =~= seq![0x66u8, 0x61, 0x6C, 0x73, 0x65] {
                assert(s@.len() == 5);
            }
        }
        None
    }
}

/// The character for a decimal digit value.
pub open spec fn digit_char(d: nat) -> char {
    if d == 0 {
        '0'
    } else if d == 1 {
        '1'
    } else if d == 2 {
        '2'
    } else if d == 3 {
        '3'
    } else if d == 4 {
        '4'
    } else if d == 5 {
        '5'
    } else if d == 6 {
        '6'
    } else if d == 7 {
        '7'
    } else if d == 8 {
        '8'
    } else {
        '9'
    }
}

/// Decimal rendering of a natural number, most significant digit first.
pub open spec fn dec_chars(v: nat) -> Seq<char>
    decreases v,
{
    if v < 10 {
        seq![digit_char(v)]
    } else {
        dec_chars(v / 10).push(digit_char(v % 10))
    }
}

/// Decimal rendering of an integer, with a leading minus sign when negative.
pub open spec fn dec_chars_int(v: int) -> Seq<char> {
    if v < 0 {
        seq!['-'] + dec_chars((0 - v) as nat)
    } else {
        dec_chars(v as nat)
    }
}

fn digit_to_char(d: u8) -> (c: char)
    requires
        d < 10,
    ensures
        c == digit_char(d as nat),
{
    if d == 0 {
        '0'
    } else if d == 1 {
        '1'
    } else if d == 2 {
        '2'
    } else if d == 3 {
        '3'
    } else if d == 4 {
        '4'
    } else if d == 5 {
        '5'
    } else if d == 6 {
        '6'
    } else if d == 7 {
        '7'
    } else if d == 8 {
        '8'
    } else {
        '9'
    }
}

/// Renders an unsigned number in decimal.
pub fn u64_to_dec_chars(v: u64) -> (r: Vec<char>)
    ensures
        r@ == dec_chars(v as nat),
    decreases v,
{
    if v < 10 {
        let mut r: Vec<char> = Vec::new();
        r.push(digit_to_char(v as u8));
        proof {
            assert(r@ =~= dec_chars(v as nat));
        }
        r
    } else {
        let mut r = u64_to_dec_chars(v / 10);
        r.push(digit_to_char((v % 10) as u8));
        proof {
            assert(r@ =~= dec_chars(v as nat));
        }
        r
    }
}

/// Renders a signed number in decimal.
pub fn i64_to_dec_chars(v: i64) -> (r: Vec<char>)
    ensures
        r@ == dec_chars_int(v as int),
{
    if v >= 0 {
        u64_to_dec_chars(v as u64)
    } else {
        let mag: u64 = if v == i64::MIN {
            0x8000_0000_0000_0000
        } else {
            (-v) as u64
        };
        let mut r: Vec<char> = Vec::new();
        r.push('-');
        let digits = u64_to_dec_chars(mag);
        let mut j: usize = 0;
        while j < digits.len()
            invariant
                0 <= j <= digits@.len(),
                r@ == seq!['-'] + digits@.take(j as int),
            decreases digits@.len() - j,
        {
            r.push(digits[j]);
            proof {
                assert(seq!['-'] + digits@.take(j + 1 as int) =~= (seq!['-'] + digits@.take(
                    j as int,
                )).push(digits@[j as int]));
            }
            j += 1;
        }
        proof {
            assert(digits@.take(digits@.len() as int) =~= digits@);
        }
        r
    }
}

/// A copy of a byte vector.
pub fn copy_bytes(v: &Vec<u8>) -> (r: Vec<u8>)
    ensures
        r@ == v@,
{
    let mut copy: Vec<u8> = Vec::new();
    let mut i: usize = 0;
    while i < v.len()
        invariant
            0 <= i <= v@.len(),
            copy@ == v@.take(i as int),
        decreases v@.len() - i,
    {
        copy.push(v[i]);
        proof {
            assert(v@.take(i + 1 as int) =~= v@.take(i as int).push(v@[i as int]));
        }
        i += 1;
    }
    proof {
        assert(v@.take(v@.len() as int) =~= v@);
    }
    copy
}

/// The ASCII bytes of a character sequence, one byte per character.
pub open spec fn ascii_bytes_of(s: Seq<char>) -> Seq<u8> {
    Seq::new(s.len(), |i: int| s[i] as u8)
}

/// The decimal rendering of a number is one or more ASCII digits whose value
/// is the number, with no sign in front.
pub proof fn lemma_dec_chars_val(v: nat)
    ensures
        dec_chars(v).len() >= 1,
        vstd::utf8::is_ascii_chars(dec_chars(v)),
        all_dec_digits(ascii_bytes_of(dec_chars(v))),
        dec_val(ascii_bytes_of(dec_chars(v))) == v,
        dec_chars(v)[0] != '+',
        dec_chars(v)[0] != '-',
    decreases v,
{
    if v < 10 {
        let cs = dec_chars(v);
        assert(cs =~= seq![digit_char(v)]);
        let bs = ascii_bytes_of(cs);
        assert(bs.len() == 1);
        assert(bs[0] == digit_char(v) as u8);
        assert(bs.drop_last() =~= Seq::<u8>::empty());
        assert(dec_val(bs) == dec_val(bs.drop_last()) * 10 + digit_val(bs.last()));
    } else {
        lemma_dec_chars_val(v / 10);
        let cs = dec_chars(v);
        let pre = dec_chars(v / 10);
        assert(cs == pre.push(digit_char(v % 10)));
        let bs = ascii_bytes_of(cs);
        let pbs = ascii_bytes_of(pre);
        assert(bs.drop_last() =~= pbs);
        assert(bs.last() == digit_char(v % 10) as u8);
        assert(digit_val(digit_char(v % 10) as u8) == v % 10);
        assert(dec_val(bs) == dec_val(pbs) * 10 + v % 10);
        assert(v == 10 * (v / 10) + v % 10) by (nonlinear_arith);
        assert forall|i: int| 0 <= i < bs.len() implies is_dec_digit(#[trigger] bs[i]) by {
            if i < pbs.len() {
                assert(pbs[i] == bs[i]);
            }
        }
        assert forall|i: int| 0 <= i < cs.len() implies '\0' <= #[trigger] cs[i] <= '\u{7f}' by {
            if i < pre.len() {
                assert(pre[i] == cs[i]);
            }
        }
    }
}

/// An ASCII whitespace byte (space, tab, line feed, carriage return).
pub open spec fn is_ascii_ws(b: u8) -> bool {
    b == 0x20 || b == 0x09 || b == 0x0A || b == 0x0D
}

/// The sequence with leading ASCII whitespace removed.
pub open spec fn trim_front(s: Seq<u8>) -> Seq<u8>
    decreases s.len(),
{
    if s.len() > 0 && is_ascii_ws(s[0]) {
        trim_front(s.skip(1))
    } else {
        s
    }
}

/// The sequence with trailing ASCII whitespace removed.
pub open spec fn trim_back(s: Seq<u8>) -> Seq<u8>
    decreases s.len(),
{
    if s.len() > 0 && is_ascii_ws(s.last()) {
        trim_back(s.drop_last())
    } else {
        s
    }
}

/// The sequence with leading and trailing ASCII whitespace removed.
pub open spec fn spec_trim_ascii(s: Seq<u8>) -> Seq<u8> {
    trim_back(trim_front(s))
}

/// Removes leading and trailing ASCII whitespace.
pub fn trim_ascii(s: &[u8]) -> (r: Vec<u8>)
    ensures
        r@ == spec_trim_ascii(s@),
{
    let n = s.len();
    proof {
        assert(s@.skip(0) =~= s@);
    }
    let mut from: usize = 0;
    while from < n && (s[from] == 0x20 || s[from] == 0x09 || s[from] == 0x0A || s[from] == 0x0D)
        invariant
            0 <= from <= n,
            n == s@.len(),
            trim_front(s@) == trim_front(s@.skip(from as int)),
        decreases n - from,
    {
        proof {
            assert(s@.skip(from as int)[0] == s@[from as int]);
            assert(s@.skip(from as int).skip(1) =~= s@.skip(from + 1));
        }
        from += 1;
    }
    proof {
        // The remainder starts with no whitespace, so it is its own trim.
        assert(trim_front(s@.skip(from as int)) == s@.skip(from as int));
        assert(s@.subrange(from as int, n as int) =~= s@.skip(from as int));
    }
    let mut to: usize = n;
    while to > from && (s[to - 1] == 0x20 || s[to - 1] == 0x09 || s[to - 1] == 0x0A || s[to - 1]
        == 0x0D)
        invariant
            from <= to <= n,
            n == s@.len(),
            trim_front(s@) == s@.subrange(from as int, n as int),
            trim_back(trim_front(s@)) == trim_back(s@.subrange(from as int, to as int)),
        decreases to,
    {
        proof {
            let cut = s@.subrange(from as int, to as int);
            assert(cut.last() == s@[to - 1]);
            assert(cut.drop_last() =~= s@.subrange(from as int, to - 1));
        }
        to -= 1;
    }
    proof {
        let cut = s@.subrange(from as int, to as int);
        assert(trim_back(cut) == cut);
    }
    let mut r: Vec<u8> = Vec::new();
    let mut i: usize = from;
    while i < to
        invariant
            from <= i <= to <= n,
            n == s@.len(),
            r@ == s@.subrange(from as int, i as int),
        decreases to - i,
    {
        r.push(s[i]);
        proof {
            assert(s@.subrange(from as int, i + 1 as int) =~= s@.subrange(from as int, i as int)
                .push(s@[i as int]));
        }
        i += 1;
    }
    r
}

} // verus!
