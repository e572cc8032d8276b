//! Encoding an RPC request onto the wire: the path filled from the entry
//! point, the query string, the headers with `Content-Length` injected, and
//! the body bytes, assembled into one request head.
use vstd::prelude::*;
use crate::error::{Error, ErrorKind};
use crate::path_template::spec_var_count;
use crate::procedure::{scalar_to_string, spec_scalar_chars, EntryPoint, Scalar, ScalarVal};
use crate::serializers::url_path::{fill_path, spec_fill};
use crate::serializers::url_query::{encode_query, spec_encode_query};
use crate::strutil::{chars_to_string, spec_u64_digits, str_chars};
use crate::types::HttpMethod;

verus! {

/// A fully encoded request head: what is written before the body.
pub struct RequestHead {
    /// The request method.
    pub method: HttpMethod,

    /// The request target: the path, and the query string if any.
    pub target: String,

    /// The header fields, in order.
    pub headers: Vec<(String, String)>,
}

/// Path segments joined with a leading `/` before each; the empty list is
/// the root path `/`.
pub open spec fn spec_join_rest(segs: Seq<Seq<char>>) -> Seq<char>
    decreases segs.len(),
{
    if segs.len() == 0 {
        Seq::empty()
    } else {
        seq!['/'] + segs[0] + spec_join_rest(segs.skip(1))
    }
}

/// The path string of a segment list.
pub open spec fn spec_join_path(segs: Seq<Seq<char>>) -> Seq<char> {
    if segs.len() == 0 {
        seq!['/']
    } else {
        spec_join_rest(segs)
    }
}

/// The request target: the path, then `?` and the query string if the query
/// is non-empty.
pub open spec fn spec_target(segs: Seq<Seq<char>>, query: Seq<char>) -> Seq<char> {
    if query.len() == 0 {
        spec_join_path(segs)
    } else {
        spec_join_path(segs) + seq!['?'] + query
    }
}

/// Joins path segments into a path string.
pub fn join_path(segments: &Vec<String>) -> (r: String)
    ensures
        r@ == spec_join_path(segments.deep_view()),
{
    let ghost sv = segments.deep_view();
    let n: usize = segments.len();
    if n == 0 {
        let mut out: Vec<char> = Vec::new();
        out.push('/');
        proof {
            assert(out@ =~= seq!['/']);
        }
        return chars_to_string(&out);
    }
    let mut out: Vec<char> = Vec::new();
    let mut i: usize = 0;
    proof {
        assert(sv.skip(0) =~= sv);
        assert(forall|t: Seq<char>| #[trigger] (Seq::<char>::empty() + t) =~= t);
    }
    while i < n
        invariant
            i <= n,
            n == sv.len(),
            sv == segments.deep_view(),
            spec_join_rest(sv) == out@ + spec_join_rest(sv.skip(i as int)),
        decreases n - i,
    {
        let ghost tail = sv.skip(i as int);
        let ghost out0 = out@;
        proof {
            assert(tail[0] == sv[i as int]);
            assert(tail.skip(1) =~= sv.skip(i + 1));
        }
        out.push('/');
        let mut sc = str_chars(segments[i].as_str());
        out.append(&mut sc);
        proof {
            assert(out@ =~= out0 + (seq!['/'] + sv[i as int]));
            assert(forall|t: Seq<char>|
                #[trigger] ((out0 + (seq!['/'] + sv[i as int])) + t) =~= out0 + ((seq![
                    '/',
                ] + sv[i as int]) + t));
        }
        i = i + 1;
    }
    proof {
        assert(sv.skip(n as int) =~= Seq::<Seq<char>>::empty());
        assert(out@ + Seq::<char>::empty() =~= out@);
    }
    chars_to_string(&out)
}

/// `Serializer` for RPC requests: collects the path, query and headers, and
/// finishes into a request head.
pub struct RpcRequestSerializer {
    /// The request method.
    pub method: HttpMethod,

    /// The entry point whose template the path is filled from.
    pub entry_point: EntryPoint,

    /// The filled path segments, once the path values have been bound.
    pub path: Option<Vec<String>>,

    /// The encoded query string.
    pub query: String,

    /// The header fields set so far.
    pub headers: Vec<(String, String)>,
}

impl RpcRequestSerializer {
    /// Makes a new `RpcRequestSerializer` instance.
    pub fn new(method: HttpMethod, entry_point: EntryPoint) -> (r: RpcRequestSerializer)
        ensures
            r.method == method,
            r.entry_point@ == entry_point@,
            r.path is None,
            r.query@ == Seq::<char>::empty(),
            r.headers.deep_view() == Seq::<(Seq<char>, Seq<char>)>::empty(),
    {
        let r = RpcRequestSerializer {
            method,
            entry_point,
            path: None,
            query: String::new(),
            headers: Vec::new(),
        };
        proof {
            assert(r.headers.deep_view() =~= Seq::<(Seq<char>, Seq<char>)>::empty());
        }
        r
    }

    /// Binds the path values, in declared order, one per variable; fails
    /// exactly when the count differs from the variable count.
    pub fn serialize_path(&mut self, values: &Vec<Scalar>) -> (r: Result<(), Error>)
        ensures
            ({
                let texts = values.deep_view().map_values(|v: ScalarVal| spec_scalar_chars(v));
                match r {
                    Ok(_) => values@.len() == spec_var_count(old(self).entry_point@) && (
                    final(self).path matches Some(p) && p.deep_view() == spec_fill(
                        old(self).entry_point@,
                        texts,
                    )) && *final(self) == (RpcRequestSerializer {
                        path: final(self).path,
                        ..*old(self)
                    }),
                    Err(e) => e.kind == ErrorKind::Invalid && values@.len() != spec_var_count(
                        old(self).entry_point@,
                    ) && *final(self) == *old(self),
                }
            }),
    {
        let ghost texts = values.deep_view().map_values(|v: ScalarVal| spec_scalar_chars(v));
        let n: usize = values.len();
        let mut strs: Vec<String> = Vec::new();
        let mut i: usize = 0;
        while i < n
            invariant
                i <= n,
                n == values@.len(),
                texts == values.deep_view().map_values(|v: ScalarVal| spec_scalar_chars(v)),
                strs.deep_view() == texts.subrange(0, i as int),
            decreases n - i,
        {
            let s = scalar_to_string(&values[i]);
            let ghost sv = s@;
            let ghost dv0 = strs.deep_view();
            let ghost strs0 = strs@;
            strs.push(s);
            proof {
                assert(values.deep_view()[i as int] == values@[i as int]@);
                assert(texts[i as int] == spec_scalar_chars(values@[i as int]@));
                assert(sv == texts[i as int]);
                assert(dv0.len() == i);
                assert(strs0.len() == dv0.len());
                assert forall|j: int| 0 <= j <= i implies #[trigger] strs.deep_view()[j]
                    == texts[j] by {
                    if j < i {
                        assert(strs@[j] == strs0[j]);
                        assert(dv0[j] == strs0[j].deep_view());
                        assert(dv0[j] == texts[j]);
                    } else {
                        assert(strs@[j].deep_view() == sv);
                    }
                }
                assert(strs.deep_view() =~= texts.subrange(0, i + 1));
            }
            i = i + 1;
        }
        proof {
            assert(strs.deep_view() =~~= texts);
        }
        match fill_path(self.entry_point.segments(), &strs) {
            Ok(filled) => {
                self.path = Some(filled);
                Ok(())
            },
            Err(e) => Err(e),
        }
    }

    /// Encodes the named query values, in field order.
    pub fn serialize_query(&mut self, args: &Vec<(String, Option<Scalar>)>)
        ensures
            final(self).query@ == spec_encode_query(args.deep_view()),
            *final(self) == (RpcRequestSerializer { query: final(self).query, ..*old(self) }),
    {
        self.query = encode_query(args);
    }

    /// Sets one header field; `Content-Length` is injected automatically at
    /// the end and must not be set here.
    pub fn serialize_header(&mut self, name: &str, value: &str)
        ensures
            final(self).headers.deep_view() == old(self).headers.deep_view().push(
                (name@, value@),
            ),
            *final(self) == (RpcRequestSerializer { headers: final(self).headers, ..*old(self) }),
    {
        let ghost before = self.headers.deep_view();
        self.headers.push((name.to_owned(), value.to_owned()));
        proof {
            assert(self.headers.deep_view() =~= before.push((name@, value@)));
        }
    }

    /// Finishes the serialization into the request head, injecting
    /// `Content-Length` from the body length.  A request whose path was
    /// never bound is only valid for a template without variables.
    pub fn finish(self, body_len: u64) -> (r: Result<RequestHead, Error>)
        ensures
            ({
                match r {
                    Ok(h) => {
                        &&& (self.path is None ==> spec_var_count(self.entry_point@) == 0)
                        &&& h.method == self.method
                        &&& h.target@ == spec_target(
                            (match self.path {
                                Some(p) => p.deep_view(),
                                None => spec_fill(self.entry_point@, Seq::empty()),
                            }),
                            self.query@,
                        )
                        &&& h.headers.deep_view() == self.headers.deep_view().push(
                            (("content-length")@, spec_u64_digits(body_len as nat)),
                        )
                    },
                    Err(e) => e.kind == ErrorKind::Invalid && self.path is None && spec_var_count(
                        self.entry_point@,
                    ) != 0,
                }
            }),
    {
        let filled: Vec<String> = match self.path {
            Some(p) => p,
            None => {
                let none_vals: Vec<String> = Vec::new();
                match fill_path(self.entry_point.segments(), &none_vals) {
                    Ok(f) => {
                        proof {
                            assert(none_vals.deep_view() =~= Seq::<Seq<char>>::empty());
                        }
                        f
                    },
                    Err(e) => {
                        return Err(e);
                    },
                }
            },
        };
        let path_str = join_path(&filled);
        let mut target_chars = str_chars(path_str.as_str());
        if !self.query.as_str().is_empty() {
            target_chars.push('?');
            let mut qc = str_chars(self.query.as_str());
            target_chars.append(&mut qc);
        }
        proof {
            assert(target_chars@ =~= spec_target(filled.deep_view(), self.query@));
        }
        let target = chars_to_string(&target_chars);
        let headers = crate::serializers::http_header::headers_with_content_length(
            &self.headers,
            body_len,
        );
        Ok(RequestHead { method: self.method, target, headers })
    }
}

} // verus!
