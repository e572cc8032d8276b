//! Percent-encoding of path segment values.
//!
//! A value bound to a path variable is written with every character outside
//! the unreserved set escaped as `%XX`; reading reverses the escape.  The
//! escape covers the characters that would collide with the path syntax
//! (`/`, `%`, space and the rest of the reserved ASCII range).  Characters
//! above `U+00FF` pass through unchanged in both directions, so that the two
//! directions stay exact inverses on every string.
use vstd::prelude::*;
use vstd::arithmetic::div_mod::lemma_fundamental_div_mod;
use crate::error::{Error, ErrorKind};
use crate::strutil::{
    chars_to_string, hex_byte_chars, hex_byte_exec, hex_digit_val, hex_val_pair_exec, is_hex_digit,
    lemma_char_injective, lemma_hex_digit_round_trip, str_chars,
};

verus! {

/// Characters written verbatim by the encoder: ASCII letters, digits and
/// `-`, `.`, `_`, `~`.
pub open spec fn is_unreserved(c: char) -> bool {
    ||| 48 <= c as u32 <= 57
    ||| 65 <= c as u32 <= 90
    ||| 97 <= c as u32 <= 122
    ||| c == '-'
    ||| c == '.'
    ||| c == '_'
    ||| c == '~'
}

/// How one character is written: itself, or a `%XX` escape for reserved
/// characters up to `U+00FF`.
pub open spec fn spec_encode_char(c: char) -> Seq<char> {
    if is_unreserved(c) {
        seq![c]
    } else if (c as u32) < 256 {
        seq!['%'] + hex_byte_chars(c as u32 as int)
    } else {
        seq![c]
    }
}

/// The percent-encoded form of a string.
pub open spec fn spec_percent_encode(s: Seq<char>) -> Seq<char>
    decreases s.len(),
{
    if s.len() == 0 {
        Seq::empty()
    } else {
        spec_encode_char(s[0]) + spec_percent_encode(s.skip(1))
    }
}

/// The percent-decoded form of a string: every `%` must be followed by two
/// hex digits, which decode to the character of that value; everything else
/// passes through.
pub open spec fn spec_percent_decode(s: Seq<char>) -> Option<Seq<char>>
    decreases s.len(),
{
    if s.len() == 0 {
        Some(Seq::empty())
    } else if s[0] == '%' {
        if s.len() >= 3 && is_hex_digit(s[1]) && is_hex_digit(s[2]) {
            let v = hex_digit_val(s[1]) * 16 + hex_digit_val(s[2]);
            match spec_percent_decode(s.skip(3)) {
                Some(t) => Some(seq![(v as u8) as char] + t),
                None => None,
            }
        } else {
            None
        }
    } else {
        match spec_percent_decode(s.skip(1)) {
            Some(t) => Some(seq![s[0]] + t),
            None => None,
        }
    }
}

/// Encoding distributes over concatenation.
pub proof fn lemma_encode_append(s1: Seq<char>, s2: Seq<char>)
    ensures
        spec_percent_encode(s1 + s2) == spec_percent_encode(s1) + spec_percent_encode(s2),
    decreases s1.len(),
{
    if s1.len() == 0 {
        assert(s1 + s2 =~= s2);
        assert(spec_percent_encode(s1) + spec_percent_encode(s2) =~= spec_percent_encode(s2));
    } else {
        lemma_encode_append(s1.skip(1), s2);
        let t = s1 + s2;
        assert(t[0] == s1[0]);
        assert(t.skip(1) =~= s1.skip(1) + s2);
        assert(spec_encode_char(s1[0]) + (spec_percent_encode(s1.skip(1)) + spec_percent_encode(s2))
            =~= (spec_encode_char(s1[0]) + spec_percent_encode(s1.skip(1)))
            + spec_percent_encode(s2));
    }
}

/// Decoding inverts encoding on every string.
pub proof fn lemma_percent_round_trip(s: Seq<char>)
    ensures
        spec_percent_decode(spec_percent_encode(s)) == Some(s),
    decreases s.len(),
{
    if s.len() == 0 {
    } else {
        lemma_percent_round_trip(s.skip(1));
        let c = s[0];
        let e = spec_percent_encode(s);
        let rest = spec_percent_encode(s.skip(1));
        assert(e == spec_encode_char(c) + rest);
        if is_unreserved(c) || (c as u32) >= 256 {
            assert(c != '%');
            assert(e[0] == c);
            assert(e.skip(1) =~= rest);
            assert(seq![c] + s.skip(1) =~= s);
        } else {
            let v = c as u32 as int;
            lemma_hex_digit_round_trip(v / 16);
            lemma_hex_digit_round_trip(v % 16);
            lemma_fundamental_div_mod(v, 16);
            assert(e[0] == '%');
            assert(e[1] == hex_byte_chars(v)[0]);
            assert(e[2] == hex_byte_chars(v)[1]);
            assert(e.len() >= 3);
            assert(hex_digit_val(e[1]) * 16 + hex_digit_val(e[2]) == v);
            assert(e.skip(3) =~= rest);
            assert(((v as u8) as char) as u32 == c as u32);
            lemma_char_injective((v as u8) as char, c);
            assert(seq![c] + s.skip(1) =~= s);
        }
    }
}

/// The encoder's output never contains the path separator, and is empty
/// only for the empty input: an encoded value travels safely as one path
/// segment.
pub proof fn lemma_encode_no_slash(s: Seq<char>)
    ensures
        forall|k: int|
            0 <= k < spec_percent_encode(s).len() ==> (#[trigger] spec_percent_encode(s)[k])
                != '/',
        spec_percent_encode(s).len() >= s.len(),
    decreases s.len(),
{
    if s.len() > 0 {
        lemma_encode_no_slash(s.skip(1));
        let c = s[0];
        let ec = spec_encode_char(c);
        assert(forall|k: int| 0 <= k < ec.len() ==> (#[trigger] ec[k]) != '/') by {
            if is_unreserved(c) || (c as u32) >= 256 {
                assert(ec =~= seq![c]);
                assert(c as u32 != 47);
                lemma_char_injective_contra(c);
            } else {
                let v = c as u32 as int;
                lemma_hex_digit_round_trip(v / 16);
                lemma_hex_digit_round_trip(v % 16);
                assert(ec[0] == '%');
                assert(ec[1] == hex_byte_chars(v)[0]);
                assert(ec[2] == hex_byte_chars(v)[1]);
                assert(is_hex_digit(ec[1]));
                assert(is_hex_digit(ec[2]));
                assert(('%') as u32 == 37);
                lemma_char_injective_contra(ec[0]);
                lemma_char_injective_contra(ec[1]);
                lemma_char_injective_contra(ec[2]);
            }
        }
        assert(forall|k: int|
            0 <= k < spec_percent_encode(s).len() ==> (#[trigger] spec_percent_encode(s)[k])
                != '/') by {
            assert(forall|k: int|
                ec.len() <= k < spec_percent_encode(s).len() ==> spec_percent_encode(s)[k]
                    == spec_percent_encode(s.skip(1))[k - ec.len()]);
        }
    }
}

proof fn lemma_char_injective_contra(c: char)
    requires
        c as u32 != 47,
    ensures
        c != '/',
{
    assert('/' as u32 == 47);
}

fn encode_char_exec(c: char, out: &mut Vec<char>)
    ensures
        final(out)@ == old(out)@ + spec_encode_char(c),
{
    let cu = c as u32;
    let unreserved = (48 <= cu && cu <= 57) || (65 <= cu && cu <= 90) || (97 <= cu && cu <= 122)
        || c == '-' || c == '.' || c == '_' || c == '~';
    if unreserved || cu >= 256 {
        out.push(c);
        proof {
            assert(out@ =~= old(out)@ + spec_encode_char(c));
        }
    } else {
        let (hi, lo) = hex_byte_exec(cu);
        out.push('%');
        out.push(hi);
        out.push(lo);
        proof {
            assert(out@ =~= old(out)@ + spec_encode_char(c));
        }
    }
}

/// Percent-encodes a path segment value.
pub fn percent_encode(s: &str) -> (r: String)
    ensures
        r@ == spec_percent_encode(s@),
{
    let cs = str_chars(s);
    let n: usize = cs.len();
    let mut out: Vec<char> = Vec::new();
    let mut i: usize = 0;
    while i < n
        invariant
            i <= n,
            n == cs@.len(),
            cs@ == s@,
            out@ == spec_percent_encode(s@.subrange(0, i as int)),
        decreases n - i,
    {
        let ghost pre = s@.subrange(0, i as int);
        let ghost pre1 = s@.subrange(0, i + 1);
        encode_char_exec(cs[i], &mut out);
        proof {
            assert(pre1 =~= pre + seq![s@[i as int]]);
            lemma_encode_append(pre, seq![s@[i as int]]);
            assert(seq![s@[i as int]].skip(1) =~= Seq::<char>::empty());
            assert(spec_percent_encode(Seq::<char>::empty()) =~= Seq::<char>::empty());
            assert(spec_percent_encode(seq![s@[i as int]]) =~= spec_encode_char(s@[i as int]));
        }
        i = i + 1;
    }
    proof {
        assert(s@.subrange(0, n as int) =~= s@);
    }
    chars_to_string(&out)
}

/// Percent-decodes a path segment value; fails on a `%` that is not followed
/// by two hex digits.
pub fn percent_decode(s: &str) -> (r: Result<String, Error>)
    ensures
        ({
            match r {
                Ok(v) => spec_percent_decode(s@) == Some(v@),
                Err(e) => e.kind == ErrorKind::Invalid && spec_percent_decode(s@) is None,
            }
        }),
{
    let cs = str_chars(s);
    let n: usize = cs.len();
    let mut out: Vec<char> = Vec::new();
    let mut i: usize = 0;
    proof {
        assert(s@.skip(0) =~= s@);
        assert(forall|t: Seq<char>| #[trigger] (Seq::<char>::empty() + t) =~= t);
    }
    while i < n
        invariant
            i <= n,
            n == cs@.len(),
            cs@ == s@,
            spec_percent_decode(s@) == (match spec_percent_decode(s@.skip(i as int)) {
                Some(t) => Some(out@ + t),
                None => None::<Seq<char>>,
            }),
        decreases n - i,
    {
        let ghost tail = s@.skip(i as int);
        let c = cs[i];
        if c == '%' {
            if n - i < 3 {
                proof {
                    assert(tail[0] == '%');
                    assert(tail.len() < 3);
                }
                return Err(Error::invalid());
            }
            let hi = cs[i + 1];
            let lo = cs[i + 2];
            match hex_val_pair_exec(hi, lo) {
                Some(v) => {
                    let ghost out0 = out@;
                    out.push((v as u8) as char);
                    proof {
                        assert(tail[0] == '%');
                        assert(tail[1] == hi);
                        assert(tail[2] == lo);
                        assert(tail.skip(3) =~= s@.skip(i + 3));
                        assert(forall|t: Seq<char>|
                            #[trigger] (out@ + t) =~= out0 + (seq![(v as u8) as char] + t));
                    }
                    i = i + 3;
                },
                None => {
                    proof {
                        assert(tail[0] == '%');
                        assert(tail[1] == hi);
                        assert(tail[2] == lo);
                    }
                    return Err(Error::invalid());
                },
            }
        } else {
            let ghost out0 = out@;
            out.push(c);
            proof {
                assert(tail[0] == c);
                assert(tail.skip(1) =~= s@.skip(i + 1));
                assert(forall|t: Seq<char>| #[trigger] (out@ + t) =~= out0 + (seq![c] + t));
            }
            i = i + 1;
        }
    }
    proof {
        assert(s@.skip(n as int) =~= Seq::<char>::empty());
        assert(out@ + Seq::<char>::empty() =~= out@);
    }
    Ok(chars_to_string(&out))
}

} // verus!
