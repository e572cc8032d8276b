//! Building HTTP headers: named string fields in order, with
//! `Content-Length` computed from the encoded body and injected
//! automatically at the end.
use vstd::prelude::*;
use crate::strutil::{chars_to_string, spec_u64_digits, u64_to_dec_chars};

verus! {

/// `Serializer` for HTTP headers: collects name/value pairs in order.
pub struct HttpHeaderSerializer {
    headers: Vec<(String, String)>,
}

impl View for HttpHeaderSerializer {
    type V = Seq<(Seq<char>, Seq<char>)>;

    closed spec fn view(&self) -> Seq<(Seq<char>, Seq<char>)> {
        self.headers.deep_view()
    }
}

impl HttpHeaderSerializer {
    /// Makes a new `HttpHeaderSerializer` instance with no headers yet.
    pub fn new() -> (r: HttpHeaderSerializer)
        ensures
            r@ == Seq::<(Seq<char>, Seq<char>)>::empty(),
    {
        let r = HttpHeaderSerializer { headers: Vec::new() };
        proof {
            assert(r@ =~= Seq::<(Seq<char>, Seq<char>)>::empty());
        }
        r
    }

    /// Appends one header field.
    pub fn append(&mut self, name: &str, value: &str)
        ensures
            final(self)@ == old(self)@.push((name@, value@)),
    {
        let ghost before = self@;
        self.headers.push((name.to_owned(), value.to_owned()));
        proof {
            assert(self@ =~= before.push((name@, value@)));
        }
    }

    /// Finishes the headers, injecting `Content-Length` from the encoded
    /// body's length; callers must not set that header themselves.
    pub fn finish(self, body_len: u64) -> (r: Vec<(String, String)>)
        ensures
            r.deep_view() == self@.push((("content-length")@, spec_u64_digits(body_len as nat))),
    {
        let ghost before = self@;
        let mut headers = self.headers;
        let digits = u64_to_dec_chars(body_len);
        let value = chars_to_string(&digits);
        headers.push((("content-length").to_owned(), value));
        proof {
            assert(headers.deep_view() =~= before.push(
                (("content-length")@, spec_u64_digits(body_len as nat)),
            ));
        }
        headers
    }
}

/// Copies header fields and injects `Content-Length` from the encoded
/// body's length.
pub fn headers_with_content_length(headers: &Vec<(String, String)>, body_len: u64) -> (r: Vec<
    (String, String),
>)
    ensures
        r.deep_view() == headers.deep_view().push(
            (("content-length")@, spec_u64_digits(body_len as nat)),
        ),
{
    let mut hs = HttpHeaderSerializer::new();
    let n: usize = headers.len();
    let mut i: usize = 0;
    proof {
        assert(Seq::<(Seq<char>, Seq<char>)>::empty() =~= headers.deep_view().subrange(0, 0));
    }
    while i < n
        invariant
            i <= n,
            n == headers.deep_view().len(),
            hs@ == headers.deep_view().subrange(0, i as int),
        decreases n - i,
    {
        hs.append(headers[i].0.as_str(), headers[i].1.as_str());
        proof {
            assert(headers.deep_view().subrange(0, i as int).push(
                (headers.deep_view()[i as int].0, headers.deep_view()[i as int].1),
            ) =~= headers.deep_view().subrange(0, i + 1));
            assert((headers.deep_view()[i as int].0, headers.deep_view()[i as int].1)
                == headers.deep_view()[i as int]);
        }
        i = i + 1;
    }
    proof {
        assert(headers.deep_view().subrange(0, n as int) =~= headers.deep_view());
    }
    hs.finish(body_len)
}

} // verus!
