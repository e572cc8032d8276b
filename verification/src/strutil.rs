//! Small verified helpers on strings, characters and decimal numbers that the
//! wire codec is built from.
use vstd::prelude::*;
use vstd::string::*;
use vstd::arithmetic::div_mod::lemma_fundamental_div_mod;
use crate::error::{Error, ErrorKind};

verus! {

/// Collects the characters of a string slice into a vector.
pub fn str_chars(s: &str) -> (r: Vec<char>)
    ensures
        r@ == s@,
{
    let n: usize = s.unicode_len();
    let mut v: Vec<char> = Vec::new();
    let mut i: usize = 0;
    while i < n
        invariant
            i <= n,
            n == s@.len(),
            v@ == s@.subrange(0, i as int),
        decreases n - i,
    {
        let c = s.get_char(i);
        v.push(c);
        i = i + 1;
    }
    proof {
        assert(v@ =~= s@);
    }
    v
}

/// Relies on `String`'s `FromIterator<char>` impl: collecting characters
/// yields the string made of exactly those characters, in order.
#[verifier::external_body]
pub(crate) fn chars_to_string(v: &Vec<char>) -> (s: String)
    ensures
        s@ == v@,
{
    v.iter().collect()
}

/// Relies on `String::from_utf8`: it succeeds exactly on valid UTF-8 input
/// and yields the characters that input encodes.
#[verifier::external_body]
pub(crate) fn utf8_to_string(bytes: Vec<u8>) -> (r: Result<String, Error>)
    ensures
        ({
            match r {
                Ok(s) => vstd::utf8::valid_utf8(bytes@) && s@ == vstd::utf8::decode_utf8(bytes@),
                Err(e) => e.kind == ErrorKind::Invalid && !vstd::utf8::valid_utf8(bytes@),
            }
        }),
{
    match String::from_utf8(bytes) {
        Ok(s) => Ok(s),
        Err(_) => Err(Error::invalid()),
    }
}

/// Compares two string slices character by character.
pub fn str_eq(a: &str, b: &str) -> (r: bool)
    ensures
        r == (a@ == b@),
{
    let na: usize = a.unicode_len();
    let nb: usize = b.unicode_len();
    if na != nb {
        return false;
    }
    let mut i: usize = 0;
    while i < na
        invariant
            i <= na,
            na == a@.len(),
            na == b@.len(),
            forall|j: int| 0 <= j < i ==> a@[j] == b@[j],
        decreases na - i,
    {
        if a.get_char(i) != b.get_char(i) {
            return false;
        }
        i = i + 1;
    }
    proof {
        assert(a@ =~= b@);
    }
    true
}

/// Compares two character vectors.
pub fn chars_eq(a: &Vec<char>, b: &Vec<char>) -> (r: bool)
    ensures
        r == (a@ == b@),
{
    let na: usize = a.len();
    if na != b.len() {
        return false;
    }
    let mut i: usize = 0;
    while i < na
        invariant
            i <= na,
            na == a@.len(),
            na == b@.len(),
            forall|j: int| 0 <= j < i ==> a@[j] == b@[j],
        decreases na - i,
    {
        if a[i] != b[i] {
            return false;
        }
        i = i + 1;
    }
    proof {
        assert(a@ =~= b@);
    }
    true
}

/// Two characters with the same code point are the same character.
pub proof fn lemma_char_injective(a: char, b: char)
    requires
        a as u32 == b as u32,
    ensures
        a == b,
{
}

/// Whether a character is a decimal digit.
pub open spec fn is_dec_digit(c: char) -> bool {
    48 <= c as u32 <= 57
}

/// The numeric value of a decimal digit character (or an out-of-range value
/// for any other character).
pub open spec fn dec_digit_val(c: char) -> int {
    c as u32 - 48
}

/// The character for one decimal digit.
pub open spec fn dec_digit_char(d: int) -> char
    recommends
        0 <= d < 10,
{
    ((48 + d) as u8) as char
}

/// The decimal digit string of a natural number, most significant first.
pub open spec fn spec_u64_digits(n: nat) -> Seq<char>
    decreases n,
{
    if n < 10 {
        seq![dec_digit_char(n as int)]
    } else {
        spec_u64_digits(n / 10).push(dec_digit_char((n % 10) as int))
    }
}

/// Whether every character of a string is a decimal digit.
pub open spec fn all_dec_digits(s: Seq<char>) -> bool {
    forall|i: int| 0 <= i < s.len() ==> is_dec_digit(s[i])
}

/// The numeric value of a decimal digit string.
pub open spec fn dec_value(s: Seq<char>) -> int
    decreases s.len(),
{
    if s.len() == 0 {
        0
    } else {
        dec_value(s.drop_last()) * 10 + dec_digit_val(s.last())
    }
}

/// Printing a number gives a non-empty, all-digit string whose value is the
/// number itself.
pub proof fn lemma_u64_digits(n: nat)
    ensures
        spec_u64_digits(n).len() >= 1,
        all_dec_digits(spec_u64_digits(n)),
        dec_value(spec_u64_digits(n)) == n,
    decreases n,
{
    if n < 10 {
        let s = spec_u64_digits(n);
        assert(s.drop_last() =~= Seq::<char>::empty());
        assert(dec_value(s.drop_last()) == 0);
        let b = (48 + n as int) as u8;
        assert(b as u32 == 48 + n);
        assert((b as char) as u32 == b as u32);
        assert(dec_digit_val(dec_digit_char(n as int)) == n);
    } else {
        lemma_u64_digits(n / 10);
        let p = spec_u64_digits(n / 10);
        let s = spec_u64_digits(n);
        assert(s == p.push(dec_digit_char((n % 10) as int)));
        assert(s.drop_last() =~= p);
        assert(dec_value(s) == dec_value(p) * 10 + dec_digit_val(s.last()));
        lemma_fundamental_div_mod(n as int, 10);
        assert(forall|i: int| 0 <= i < s.len() ==> is_dec_digit(#[trigger] s[i])) by {
            assert(forall|i: int| 0 <= i < p.len() ==> s[i] == p[i]);
        }
    }
}

fn dec_digit_exec(d: u64) -> (c: char)
    requires
        d < 10,
    ensures
        c == dec_digit_char(d as int),
{
    ((48 + d as u8)) as char
}

/// The decimal digit characters of a number, most significant first.
pub fn u64_to_dec_chars(n: u64) -> (r: Vec<char>)
    ensures
        r@ == spec_u64_digits(n as nat),
    decreases n,
{
    if n < 10 {
        let mut v: Vec<char> = Vec::new();
        v.push(dec_digit_exec(n));
        proof {
            assert(v@ =~= spec_u64_digits(n as nat));
        }
        v
    } else {
        let mut v = u64_to_dec_chars(n / 10);
        v.push(dec_digit_exec(n % 10));
        v
    }
}

/// Ten to the given power.
pub open spec fn pow10(k: nat) -> int
    decreases k,
{
    if k == 0 {
        1
    } else {
        10 * pow10((k - 1) as nat)
    }
}

proof fn lemma_pow10_pos(k: nat)
    ensures
        pow10(k) >= 1,
    decreases k,
{
    if k > 0 {
        lemma_pow10_pos((k - 1) as nat);
    }
}

proof fn lemma_dec_value_append(s1: Seq<char>, s2: Seq<char>)
    ensures
        dec_value(s1 + s2) == dec_value(s1) * pow10(s2.len()) + dec_value(s2),
    decreases s2.len(),
{
    if s2.len() == 0 {
        assert(s1 + s2 =~= s1);
    } else {
        lemma_dec_value_append(s1, s2.drop_last());
        let t = s1 + s2;
        assert(t.drop_last() =~= s1 + s2.drop_last());
        assert(t.last() == s2.last());
        let a = dec_value(s1);
        let p = pow10(s2.drop_last().len());
        assert(dec_value(t) == (a * p + dec_value(s2.drop_last())) * 10 + dec_digit_val(s2.last()));
        assert((a * p + dec_value(s2.drop_last())) * 10 == a * (p * 10) + dec_value(s2.drop_last()) * 10)
            by (nonlinear_arith);
        assert(pow10(s2.len()) == 10 * p);
        assert(a * (p * 10) == a * pow10(s2.len())) by (nonlinear_arith)
            requires
                pow10(s2.len()) == 10 * p,
        ;
    }
}

proof fn lemma_dec_value_nonneg(s: Seq<char>)
    requires
        all_dec_digits(s),
    ensures
        dec_value(s) >= 0,
    decreases s.len(),
{
    if s.len() > 0 {
        assert(all_dec_digits(s.drop_last())) by {
            assert(forall|i: int| 0 <= i < s.len() - 1 ==> s.drop_last()[i] == s[i]);
        }
        lemma_dec_value_nonneg(s.drop_last());
        assert(is_dec_digit(s.last()));
    }
}

/// A digit string's value can only grow when more digits follow.
proof fn lemma_dec_value_prefix_le(s1: Seq<char>, s2: Seq<char>)
    requires
        all_dec_digits(s1 + s2),
    ensures
        dec_value(s1 + s2) >= dec_value(s1),
{
    let t = s1 + s2;
    lemma_dec_value_append(s1, s2);
    lemma_pow10_pos(s2.len());
    assert(all_dec_digits(s2)) by {
        assert(forall|i: int| 0 <= i < s2.len() ==> s2[i] == t[s1.len() + i]);
    }
    lemma_dec_value_nonneg(s2);
    assert(all_dec_digits(s1)) by {
        assert(forall|i: int| 0 <= i < s1.len() ==> s1[i] == t[i]);
    }
    lemma_dec_value_nonneg(s1);
    let a = dec_value(s1);
    let p = pow10(s2.len());
    assert(a * p >= a) by (nonlinear_arith)
        requires
            a >= 0,
            p >= 1,
    ;
}

/// Parses the decimal digits of `s` from position `from` to the end.
///
/// Succeeds exactly on a non-empty all-digit suffix whose value fits in a
/// `u64`.
pub fn parse_u64_chars(s: &Vec<char>, from: usize) -> (r: Result<u64, Error>)
    requires
        from <= s@.len(),
    ensures
        ({
            let t = s@.subrange(from as int, s@.len() as int);
            match r {
                Ok(v) => t.len() > 0 && all_dec_digits(t) && dec_value(t) == v,
                Err(e) => e.kind == ErrorKind::Invalid && (t.len() == 0 || !all_dec_digits(t)
                    || dec_value(t) > u64::MAX),
            }
        }),
{
    let ghost t = s@.subrange(from as int, s@.len() as int);
    let n: usize = s.len();
    if from == n {
        return Err(Error::invalid());
    }
    let mut acc: u64 = 0;
    let mut i: usize = from;
    while i < n
        invariant
            from <= i <= n,
            n == s@.len(),
            t == s@.subrange(from as int, n as int),
            all_dec_digits(s@.subrange(from as int, i as int)),
            acc == dec_value(s@.subrange(from as int, i as int)),
        decreases n - i,
    {
        let ghost pre = s@.subrange(from as int, i as int);
        let ghost pre1 = s@.subrange(from as int, i + 1);
        let c = s[i];
        let cu = c as u32;
        if cu < 48 || cu > 57 {
            proof {
                assert(t[i - from] == c);
            }
            return Err(Error::invalid());
        }
        let d = (cu - 48) as u64;
        proof {
            assert(pre1.drop_last() =~= pre);
            assert(pre1.last() == c);
            assert(all_dec_digits(pre1)) by {
                assert(forall|j: int| 0 <= j < pre.len() ==> pre1[j] == pre[j]);
            }
            assert(dec_value(pre1) == acc * 10 + d);
        }
        let acc10 = match acc.checked_mul(10) {
            Some(x) => x,
            None => {
                proof {
                    overflow_tail(s@, from as int, i + 1, acc * 10 + d);
                }
                return Err(Error::invalid());
            },
        };
        acc = match acc10.checked_add(d) {
            Some(x) => x,
            None => {
                proof {
                    overflow_tail(s@, from as int, i + 1, acc * 10 + d);
                }
                return Err(Error::invalid());
            },
        };
        i = i + 1;
    }
    proof {
        assert(s@.subrange(from as int, i as int) =~= t);
    }
    Ok(acc)
}

/// The decimal representation of a signed number: a minus sign for negative
/// values, then the digits of the magnitude.
pub open spec fn spec_i64_chars(v: int) -> Seq<char> {
    if v < 0 {
        seq!['-'] + spec_u64_digits((-v) as nat)
    } else {
        spec_u64_digits(v as nat)
    }
}

/// The decimal characters of a signed number.
pub fn i64_to_dec_chars(n: i64) -> (r: Vec<char>)
    ensures
        r@ == spec_i64_chars(n as int),
{
    if n >= 0 {
        u64_to_dec_chars(n as u64)
    } else {
        let mag: u64 = if n == i64::MIN {
            9223372036854775808u64
        } else {
            (-n) as u64
        };
        let mut v: Vec<char> = Vec::new();
        v.push('-');
        let mut d = u64_to_dec_chars(mag);
        v.append(&mut d);
        proof {
            assert(v@ =~= spec_i64_chars(n as int));
        }
        v
    }
}

/// What a decimal string denotes as a signed 64-bit value, if anything.
pub open spec fn spec_parse_i64(s: Seq<char>) -> Option<int> {
    if s.len() > 0 && s[0] == '-' {
        let t = s.subrange(1, s.len() as int);
        if t.len() > 0 && all_dec_digits(t) && dec_value(t) <= 0x8000000000000000 {
            Some(-dec_value(t))
        } else {
            None
        }
    } else if s.len() > 0 && all_dec_digits(s) && dec_value(s) <= i64::MAX {
        Some(dec_value(s))
    } else {
        None
    }
}

/// Parses a signed decimal number.
pub fn parse_i64_chars(s: &Vec<char>) -> (r: Result<i64, Error>)
    ensures
        ({
            match r {
                Ok(v) => spec_parse_i64(s@) == Some(v as int),
                Err(e) => e.kind == ErrorKind::Invalid && spec_parse_i64(s@) is None,
            }
        }),
{
    let n: usize = s.len();
    if n == 0 {
        return Err(Error::invalid());
    }
    if s[0] == '-' {
        let ghost t = s@.subrange(1, s@.len() as int);
        match parse_u64_chars(s, 1) {
            Ok(m) => {
                if m <= 9223372036854775807u64 {
                    Ok(-(m as i64))
                } else if m == 9223372036854775808u64 {
                    Ok(i64::MIN)
                } else {
                    Err(Error::invalid())
                }
            },
            Err(_) => {
                proof {
                    if dec_value(t) > u64::MAX {
                        assert(dec_value(t) > 0x8000000000000000);
                    }
                }
                Err(Error::invalid())
            },
        }
    } else {
        let ghost t = s@.subrange(0, s@.len() as int);
        proof {
            assert(t =~= s@);
        }
        match parse_u64_chars(s, 0) {
            Ok(m) => {
                if m <= 9223372036854775807u64 {
                    Ok(m as i64)
                } else {
                    Err(Error::invalid())
                }
            },
            Err(_) => {
                proof {
                    if dec_value(t) > u64::MAX {
                        assert(dec_value(t) > i64::MAX);
                    }
                }
                Err(Error::invalid())
            },
        }
    }
}

/// The text of a boolean value.
pub open spec fn spec_bool_chars(b: bool) -> Seq<char> {
    if b {
        seq!['t', 'r', 'u', 'e']
    } else {
        seq!['f', 'a', 'l', 's', 'e']
    }
}

/// The characters `true` or `false`.
pub fn bool_to_chars(b: bool) -> (r: Vec<char>)
    ensures
        r@ == spec_bool_chars(b),
{
    let mut v: Vec<char> = Vec::new();
    if b {
        v.push('t');
        v.push('r');
        v.push('u');
        v.push('e');
    } else {
        v.push('f');
        v.push('a');
        v.push('l');
        v.push('s');
        v.push('e');
    }
    proof {
        assert(v@ =~= spec_bool_chars(b));
    }
    v
}

/// What a string denotes as a boolean, if anything: exactly `true` or
/// `false`.
pub open spec fn spec_parse_bool(s: Seq<char>) -> Option<bool> {
    if s == spec_bool_chars(true) {
        Some(true)
    } else if s == spec_bool_chars(false) {
        Some(false)
    } else {
        None
    }
}

/// Parses a boolean value.
pub fn parse_bool_chars(s: &Vec<char>) -> (r: Result<bool, Error>)
    ensures
        ({
            match r {
                Ok(v) => spec_parse_bool(s@) == Some(v),
                Err(e) => e.kind == ErrorKind::Invalid && spec_parse_bool(s@) is None,
            }
        }),
{
    let t = bool_to_chars(true);
    if chars_eq(s, &t) {
        return Ok(true);
    }
    let f = bool_to_chars(false);
    if chars_eq(s, &f) {
        return Ok(false);
    }
    Err(Error::invalid())
}

/// ASCII lower-casing of one character.
pub open spec fn lower_char(c: char) -> char {
    if 65 <= c as u32 <= 90 {
        ((c as u32 + 32) as u8) as char
    } else {
        c
    }
}

/// ASCII lower-casing of a string.
pub open spec fn lower_chars(s: Seq<char>) -> Seq<char> {
    s.map_values(|c: char| lower_char(c))
}

fn lower_char_exec(c: char) -> (r: char)
    ensures
        r == lower_char(c),
{
    let cu = c as u32;
    if 65 <= cu && cu <= 90 {
        ((cu + 32) as u8) as char
    } else {
        c
    }
}

/// Compares two strings ignoring ASCII case.
pub fn chars_eq_ignore_case(a: &Vec<char>, b: &Vec<char>) -> (r: bool)
    ensures
        r == (lower_chars(a@) == lower_chars(b@)),
{
    let na: usize = a.len();
    if na != b.len() {
        proof {
            assert(lower_chars(a@).len() != lower_chars(b@).len());
        }
        return false;
    }
    let mut i: usize = 0;
    while i < na
        invariant
            i <= na,
            na == a@.len(),
            na == b@.len(),
            forall|j: int| 0 <= j < i ==> lower_char(a@[j]) == lower_char(b@[j]),
        decreases na - i,
    {
        let ca = lower_char_exec(a[i]);
        let cb = lower_char_exec(b[i]);
        if ca != cb {
            proof {
                assert(lower_chars(a@)[i as int] != lower_chars(b@)[i as int]);
            }
            return false;
        }
        i = i + 1;
    }
    proof {
        assert(lower_chars(a@) =~= lower_chars(b@));
    }
    true
}

/// Whether a character is a hexadecimal digit.
pub open spec fn is_hex_digit(c: char) -> bool {
    48 <= c as u32 <= 57 || 65 <= c as u32 <= 70 || 97 <= c as u32 <= 102
}

/// The numeric value of a hexadecimal digit character, upper or lower case
/// (or an out-of-range value for any other character).
pub open spec fn hex_digit_val(c: char) -> int {
    if 48 <= c as u32 <= 57 {
        c as u32 - 48
    } else if 65 <= c as u32 <= 70 {
        c as u32 - 55
    } else if 97 <= c as u32 <= 102 {
        c as u32 - 87
    } else {
        16
    }
}

/// The upper-case character for one hexadecimal digit.
pub open spec fn hex_digit_char(d: int) -> char
    recommends
        0 <= d < 16,
{
    if d < 10 {
        ((48 + d) as u8) as char
    } else {
        ((55 + d) as u8) as char
    }
}

/// A hex digit character reads back as its own value.
pub proof fn lemma_hex_digit_round_trip(d: int)
    requires
        0 <= d < 16,
    ensures
        is_hex_digit(hex_digit_char(d)),
        hex_digit_val(hex_digit_char(d)) == d,
{
    if d < 10 {
        let b = (48 + d) as u8;
        assert((b as char) as u32 == b as u32);
    } else {
        let b = (55 + d) as u8;
        assert((b as char) as u32 == b as u32);
    }
}

fn hex_digit_exec(d: u32) -> (c: char)
    requires
        d < 16,
    ensures
        c == hex_digit_char(d as int),
{
    if d < 10 {
        ((48 + d) as u8) as char
    } else {
        ((55 + d) as u8) as char
    }
}

fn hex_val_exec(c: char) -> (r: u32)
    ensures
        is_hex_digit(c) ==> r == hex_digit_val(c),
        !is_hex_digit(c) ==> r == 16,
{
    let cu = c as u32;
    if 48 <= cu && cu <= 57 {
        cu - 48
    } else if 65 <= cu && cu <= 70 {
        cu - 55
    } else if 97 <= cu && cu <= 102 {
        cu - 87
    } else {
        16
    }
}

/// The two upper-case hex digit characters of a byte value.
pub open spec fn hex_byte_chars(b: int) -> Seq<char>
    recommends
        0 <= b < 256,
{
    seq![hex_digit_char(b / 16), hex_digit_char(b % 16)]
}

pub(crate) fn hex_byte_exec(b: u32) -> (r: (char, char))
    requires
        b < 256,
    ensures
        r.0 == hex_digit_char(b as int / 16),
        r.1 == hex_digit_char(b as int % 16),
{
    (hex_digit_exec(b / 16), hex_digit_exec(b % 16))
}

pub(crate) fn hex_val_pair_exec(hi: char, lo: char) -> (r: Option<u32>)
    ensures
        ({
            match r {
                Some(v) => is_hex_digit(hi) && is_hex_digit(lo) && v == hex_digit_val(hi) * 16
                    + hex_digit_val(lo) && v < 256,
                None => !(is_hex_digit(hi) && is_hex_digit(lo)),
            }
        }),
{
    let h = hex_val_exec(hi);
    let l = hex_val_exec(lo);
    if h < 16 && l < 16 {
        Some(h * 16 + l)
    } else {
        None
    }
}

/// If an all-digit prefix already exceeds `u64::MAX`, the whole string is
/// either not all digits or exceeds `u64::MAX` too.
proof fn overflow_tail(s: Seq<char>, from: int, upto: int, prefval: int)
    requires
        0 <= from <= upto <= s.len(),
        all_dec_digits(s.subrange(from, upto)),
        dec_value(s.subrange(from, upto)) == prefval,
        prefval > u64::MAX,
    ensures
        !all_dec_digits(s.subrange(from, s.len() as int)) || dec_value(
            s.subrange(from, s.len() as int),
        ) > u64::MAX,
{
    let t = s.subrange(from, s.len() as int);
    let p = s.subrange(from, upto);
    let q = s.subrange(upto, s.len() as int);
    assert(t =~= p + q);
    if all_dec_digits(t) {
        lemma_dec_value_prefix_le(p, q);
    }
}

} // verus!
