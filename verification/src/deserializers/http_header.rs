//! Reading HTTP headers: field names compare case-insensitively, and when a
//! name repeats on the wire the first occurrence wins (a deliberate,
//! documented choice).
use vstd::prelude::*;
use crate::error::{Error, ErrorKind};
use crate::procedure::{parse_scalar_chars, spec_parse_scalar, Scalar, ScalarKind, ScalarVal};
use crate::strutil::{chars_eq_ignore_case, lower_chars, str_chars, utf8_to_string};
use vstd::utf8::{decode_utf8, valid_utf8};

verus! {

/// What a header decoder reads next: a field name or its value.
#[derive(Debug, PartialEq, Eq, Structural, Clone, Copy)]
pub enum Phase {
    /// The next read yields a field name.
    Key,

    /// The next read yields a field value.
    Value,
}

impl Phase {
    /// Whether the next read yields a field name.
    pub fn is_key(&self) -> (r: bool)
        ensures
            r == (*self is Key),
    {
        *self == Phase::Key
    }

    /// Moves to the other phase.
    pub fn next(&mut self)
        ensures
            *final(self) is Key <==> !(*old(self) is Key),
    {
        if self.is_key() {
            *self = Phase::Value;
        } else {
            *self = Phase::Key;
        }
    }
}

/// The value under the first header whose name matches case-insensitively,
/// if any.
pub open spec fn spec_header_lookup(
    headers: Seq<(Seq<char>, Seq<char>)>,
    name: Seq<char>,
) -> Option<Seq<char>>
    decreases headers.len(),
{
    if headers.len() == 0 {
        None
    } else if lower_chars(headers[0].0) == lower_chars(name) {
        Some(headers[0].1)
    } else {
        spec_header_lookup(headers.skip(1), name)
    }
}

/// Finds the first header with the given name, comparing names
/// case-insensitively.
pub fn header_get(headers: &Vec<(String, String)>, name: &str) -> (r: Option<String>)
    ensures
        ({
            match r {
                Some(v) => spec_header_lookup(headers.deep_view(), name@) == Some(v@),
                None => spec_header_lookup(headers.deep_view(), name@) is None,
            }
        }),
{
    let ghost hv = headers.deep_view();
    let nc = str_chars(name);
    let n: usize = headers.len();
    let mut i: usize = 0;
    proof {
        assert(hv.skip(0) =~= hv);
    }
    while i < n
        invariant
            i <= n,
            n == hv.len(),
            hv == headers.deep_view(),
            nc@ == name@,
            spec_header_lookup(hv, name@) == spec_header_lookup(hv.skip(i as int), name@),
        decreases n - i,
    {
        let ghost tail = hv.skip(i as int);
        proof {
            assert(tail[0] == hv[i as int]);
            assert(tail.skip(1) =~= hv.skip(i + 1));
        }
        let kc = str_chars(headers[i].0.as_str());
        if chars_eq_ignore_case(&kc, &nc) {
            return Some(headers[i].1.clone());
        }
        i = i + 1;
    }
    proof {
        assert(hv.skip(n as int) =~= Seq::<(Seq<char>, Seq<char>)>::empty());
    }
    None
}

/// What a byte string denotes as a scalar of the declared kind: it must be
/// valid UTF-8, and the decoded text must denote a value of the kind.
pub open spec fn spec_parse_slice(kind: ScalarKind, bytes: Seq<u8>) -> Option<ScalarVal> {
    if valid_utf8(bytes) {
        spec_parse_scalar(kind, decode_utf8(bytes))
    } else {
        None
    }
}

/// Parses a byte string as a scalar of the declared kind.
pub fn parse_slice(kind: ScalarKind, bytes: Vec<u8>) -> (r: Result<Scalar, Error>)
    ensures
        ({
            match r {
                Ok(v) => spec_parse_slice(kind, bytes@) == Some(v@),
                Err(e) => e.kind == ErrorKind::Invalid && spec_parse_slice(kind, bytes@) is None,
            }
        }),
{
    match utf8_to_string(bytes) {
        Ok(s) => {
            let cs = str_chars(s.as_str());
            parse_scalar_chars(kind, &cs)
        },
        Err(e) => Err(e),
    }
}

} // verus!
