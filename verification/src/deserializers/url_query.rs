//! Decoding a URL query string against declared fields: an absent key
//! decodes to the missing state of an optional field, a present but
//! unparsable value is invalid.
use vstd::prelude::*;
use crate::error::{Error, ErrorKind};
use crate::procedure::{
    parse_scalar_chars, spec_parse_scalar, QueryField, Scalar, ScalarKind, ScalarVal,
};
use crate::strutil::{str_chars, str_eq};

verus! {

/// What a decoder is about to read next: a key, or the value saved with it.
pub enum Phase {
    /// The next read yields a key.
    Key,

    /// The next read yields this saved value.
    Value(String),
}

impl Phase {
    /// Takes the current phase out, leaving `Key`.
    pub fn take(&mut self) -> (r: Phase)
        ensures
            r == *old(self),
            *final(self) is Key,
    {
        let mut other = Phase::Key;
        core::mem::swap(self, &mut other);
        other
    }
}

/// The name/value pairs of a query string, as `form_urlencoded::parse`
/// yields them: split on `&` and the first `=`, both sides percent-decoded
/// with `+` as space.
pub uninterp spec fn query_pairs_of(q: Seq<char>) -> Seq<(Seq<char>, Seq<char>)>;

/// Relies on `form_urlencoded::parse`: the WHATWG form-urlencoded parser, a
/// pure function of its input bytes; an empty input yields no pairs.
#[verifier::external_body]
pub(crate) fn parse_query_pairs(q: &str) -> (r: Vec<(String, String)>)
    ensures
        r.deep_view() == query_pairs_of(q@),
        q@.len() == 0 ==> r.deep_view().len() == 0,
{
    url::form_urlencoded::parse(q.as_bytes()).into_owned().collect()
}

/// The value under the first occurrence of a key, if any.
pub open spec fn spec_lookup_pair(pairs: Seq<(Seq<char>, Seq<char>)>, name: Seq<char>) -> Option<
    Seq<char>,
>
    decreases pairs.len(),
{
    if pairs.len() == 0 {
        None
    } else if pairs[0].0 == name {
        Some(pairs[0].1)
    } else {
        spec_lookup_pair(pairs.skip(1), name)
    }
}

/// Finds the first value under a key.
pub fn lookup_pair(pairs: &Vec<(String, String)>, name: &str) -> (r: Option<String>)
    ensures
        ({
            match r {
                Some(v) => spec_lookup_pair(pairs.deep_view(), name@) == Some(v@),
                None => spec_lookup_pair(pairs.deep_view(), name@) is None,
            }
        }),
{
    let ghost pv = pairs.deep_view();
    let n: usize = pairs.len();
    let mut i: usize = 0;
    proof {
        assert(pv.skip(0) =~= pv);
    }
    while i < n
        invariant
            i <= n,
            n == pv.len(),
            pv == pairs.deep_view(),
            spec_lookup_pair(pv, name@) == spec_lookup_pair(pv.skip(i as int), name@),
        decreases n - i,
    {
        let ghost tail = pv.skip(i as int);
        proof {
            assert(tail[0] == pv[i as int]);
            assert(tail.skip(1) =~= pv.skip(i + 1));
        }
        if str_eq(pairs[i].0.as_str(), name) {
            return Some(pairs[i].1.clone());
        }
        i = i + 1;
    }
    proof {
        assert(pv.skip(n as int) =~= Seq::<(Seq<char>, Seq<char>)>::empty());
    }
    None
}

/// The declared name, kind and presence requirement of a query field.
pub open spec fn qf_view(f: QueryField) -> (Seq<char>, ScalarKind, bool) {
    (f.name@, f.kind, f.required)
}

/// The declared shapes of a field list.
pub open spec fn qf_views(fields: Seq<QueryField>) -> Seq<(Seq<char>, ScalarKind, bool)> {
    fields.map_values(|f: QueryField| qf_view(f))
}

/// What the pairs of a query string denote under declared fields: field by
/// field, a missing optional key is the missing state, a missing required
/// key or an unparsable value is nothing.
pub open spec fn spec_decode_query(
    fields: Seq<(Seq<char>, ScalarKind, bool)>,
    pairs: Seq<(Seq<char>, Seq<char>)>,
) -> Option<Seq<Option<ScalarVal>>>
    decreases fields.len(),
{
    if fields.len() == 0 {
        Some(Seq::empty())
    } else {
        let head = (match spec_lookup_pair(pairs, fields[0].0) {
            Some(raw) => match spec_parse_scalar(fields[0].1, raw) {
                Some(v) => Some(Some(v)),
                None => None,
            },
            None => if fields[0].2 {
                None
            } else {
                Some(None)
            },
        });
        match head {
            Some(h) => match spec_decode_query(fields.skip(1), pairs) {
                Some(r) => Some(seq![h] + r),
                None => None,
            },
            None => None,
        }
    }
}

/// Decodes the query pairs against the declared fields, in field order.
pub fn decode_query(fields: &Vec<QueryField>, pairs: &Vec<(String, String)>) -> (r: Result<
    Vec<Option<Scalar>>,
    Error,
>)
    ensures
        ({
            match r {
                Ok(out) => spec_decode_query(qf_views(fields@), pairs.deep_view()) == Some(
                    out.deep_view(),
                ),
                Err(e) => e.kind == ErrorKind::Invalid && spec_decode_query(
                    qf_views(fields@),
                    pairs.deep_view(),
                ) is None,
            }
        }),
{
    let ghost fv = qf_views(fields@);
    let ghost pv = pairs.deep_view();
    let n: usize = fields.len();
    let mut out: Vec<Option<Scalar>> = Vec::new();
    let mut i: usize = 0;
    proof {
        assert(fv.skip(0) =~= fv);
        assert(forall|t: Seq<Option<ScalarVal>>|
            #[trigger] (Seq::<Option<ScalarVal>>::empty() + t) =~= t);
    }
    while i < n
        invariant
            i <= n,
            n == fv.len(),
            fv == qf_views(fields@),
            pv == pairs.deep_view(),
            spec_decode_query(fv, pv) == (match spec_decode_query(fv.skip(i as int), pv) {
                Some(t) => Some(out.deep_view() + t),
                None => None::<Seq<Option<ScalarVal>>>,
            }),
        decreases n - i,
    {
        let ghost ftail = fv.skip(i as int);
        let ghost out0 = out.deep_view();
        proof {
            assert(ftail[0] == fv[i as int]);
            assert(ftail.skip(1) =~= fv.skip(i + 1));
        }
        let f = &fields[i];
        match lookup_pair(pairs, f.name) {
            Some(raw) => {
                let cs = str_chars(raw.as_str());
                match parse_scalar_chars(f.kind, &cs) {
                    Ok(v) => {
                        let ghost vv = v@;
                        out.push(Some(v));
                        proof {
                            assert(out.deep_view() =~= out0.push(Some(vv)));
                            assert(forall|t: Seq<Option<ScalarVal>>|
                                #[trigger] (out0.push(Some(vv)) + t) =~= out0 + (seq![
                                    Some(vv),
                                ] + t));
                        }
                    },
                    Err(_) => {
                        return Err(Error::invalid());
                    },
                }
            },
            None => {
                if f.required {
                    return Err(Error::invalid());
                }
                out.push(None);
                proof {
                    assert(out.deep_view() =~= out0.push(None::<ScalarVal>));
                    assert(forall|t: Seq<Option<ScalarVal>>|
                        #[trigger] (out0.push(None::<ScalarVal>) + t) =~= out0 + (seq![
                            None::<ScalarVal>,
                        ] + t));
                }
            },
        }
        i = i + 1;
    }
    proof {
        assert(fv.skip(n as int) =~= Seq::<(Seq<char>, ScalarKind, bool)>::empty());
        assert(out.deep_view() + Seq::<Option<ScalarVal>>::empty() =~= out.deep_view());
    }
    Ok(out)
}

} // verus!
