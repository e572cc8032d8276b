//! Building a URL query string: `key=value` pairs in field order, each side
//! form-urlencoded, absent optional fields skipped.
use vstd::prelude::*;
use crate::procedure::{scalar_to_string, spec_scalar_chars, Scalar, ScalarVal};
use crate::strutil::{chars_to_string, hex_byte_chars, str_chars};

verus! {

/// The bytes the form serializer keeps verbatim: ASCII alphanumerics and
/// `*`, `-`, `.`, `_`.
pub open spec fn is_form_unchanged(b: u8) -> bool {
    ||| b == 42
    ||| b == 45
    ||| b == 46
    ||| 48 <= b <= 57
    ||| 65 <= b <= 90
    ||| b == 95
    ||| 97 <= b <= 122
}

/// How the form serializer writes one byte: itself, `+` for a space, or a
/// `%XX` escape.
pub open spec fn spec_form_byte(b: u8) -> Seq<char> {
    if is_form_unchanged(b) {
        seq![b as char]
    } else if b == 32 {
        seq!['+']
    } else {
        seq!['%'] + hex_byte_chars(b as int)
    }
}

/// The `application/x-www-form-urlencoded` serialization of a byte string.
pub open spec fn spec_form_bytes(bs: Seq<u8>) -> Seq<char>
    decreases bs.len(),
{
    if bs.len() == 0 {
        Seq::empty()
    } else {
        spec_form_byte(bs[0]) + spec_form_bytes(bs.skip(1))
    }
}

/// The `application/x-www-form-urlencoded` serialization of a string: its
/// UTF-8 bytes, serialized byte by byte.
pub open spec fn form_encoded(s: Seq<char>) -> Seq<char> {
    spec_form_bytes(vstd::utf8::encode_utf8(s))
}

/// Relies on `form_urlencoded::byte_serialize`: the WHATWG form-urlencoded
/// byte serializer, a pure function of its input bytes that keeps
/// alphanumerics and `*-._`, writes space as `+`, and escapes every other
/// byte as upper-case `%XX`.
#[verifier::external_body]
pub(crate) fn form_encode_component(s: &str) -> (r: String)
    ensures
        r@ == form_encoded(s@),
{
    url::form_urlencoded::byte_serialize(s.as_bytes()).collect()
}

/// The `key=value` parts a query value list yields, in order, one per
/// present field.
pub open spec fn spec_query_parts(args: Seq<(Seq<char>, Option<ScalarVal>)>) -> Seq<Seq<char>>
    decreases args.len(),
{
    if args.len() == 0 {
        Seq::empty()
    } else {
        spec_query_parts(args.drop_last()) + (match args.last().1 {
            Some(v) => seq![
                form_encoded(args.last().0) + seq!['='] + form_encoded(spec_scalar_chars(v)),
            ],
            None => Seq::empty(),
        })
    }
}

/// Parts joined with `&`.
pub open spec fn spec_join_amp(parts: Seq<Seq<char>>) -> Seq<char>
    decreases parts.len(),
{
    if parts.len() == 0 {
        Seq::empty()
    } else if parts.len() == 1 {
        parts[0]
    } else {
        spec_join_amp(parts.drop_last()) + seq!['&'] + parts.last()
    }
}

/// The query string of a value list.
pub open spec fn spec_encode_query(args: Seq<(Seq<char>, Option<ScalarVal>)>) -> Seq<char> {
    spec_join_amp(spec_query_parts(args))
}

/// Encodes the named query values as a query string, in field order; absent
/// optional values are skipped.
pub fn encode_query(args: &Vec<(String, Option<Scalar>)>) -> (r: String)
    ensures
        r@ == spec_encode_query(args.deep_view()),
{
    let ghost av = args.deep_view();
    let n: usize = args.len();
    let mut out: Vec<char> = Vec::new();
    let mut first: bool = true;
    let mut i: usize = 0;
    proof {
        assert(av.subrange(0, 0) =~= Seq::<(Seq<char>, Option<ScalarVal>)>::empty());
    }
    while i < n
        invariant
            i <= n,
            n == av.len(),
            av == args.deep_view(),
            out@ == spec_join_amp(spec_query_parts(av.subrange(0, i as int))),
            first == (spec_query_parts(av.subrange(0, i as int)).len() == 0),
        decreases n - i,
    {
        let ghost pre = av.subrange(0, i as int);
        let ghost pre1 = av.subrange(0, i + 1);
        proof {
            assert(pre1.drop_last() =~= pre);
            assert(pre1.last() == av[i as int]);
        }
        match &args[i].1 {
            Some(v) => {
                let ghost part = form_encoded(av[i as int].0) + seq!['='] + form_encoded(
                    spec_scalar_chars(av[i as int].1.unwrap()),
                );
                if !first {
                    out.push('&');
                }
                let k = form_encode_component(args[i].0.as_str());
                let mut kc = str_chars(k.as_str());
                out.append(&mut kc);
                out.push('=');
                let vs = scalar_to_string(v);
                let e = form_encode_component(vs.as_str());
                let mut ec = str_chars(e.as_str());
                out.append(&mut ec);
                proof {
                    let parts0 = spec_query_parts(pre);
                    let parts1 = spec_query_parts(pre1);
                    assert(parts1 =~= parts0.push(part));
                    if parts0.len() == 0 {
                        assert(parts1.len() == 1);
                        assert(parts1[0] == part);
                        assert(out@ =~= spec_join_amp(parts1));
                    } else {
                        assert(parts1.drop_last() =~= parts0);
                        assert(parts1.last() == part);
                        assert(out@ =~= spec_join_amp(parts0) + seq!['&'] + part);
                    }
                }
                first = false;
            },
            None => {
                proof {
                    assert(spec_query_parts(pre1) =~= spec_query_parts(pre));
                }
            },
        }
        i = i + 1;
    }
    proof {
        assert(av.subrange(0, n as int) =~= av);
    }
    chars_to_string(&out)
}

} // verus!
