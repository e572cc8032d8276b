//! Encoding an RPC response onto the wire: the outcome becomes the status
//! line's code and reason, the headers get `Content-Length` injected, and
//! the body bytes follow.
use vstd::prelude::*;
use crate::error::Error;
use crate::procedure::RpcResponseData;
use crate::serializers::http_header::headers_with_content_length;
use crate::strutil::spec_u64_digits;
use crate::types::HttpStatus;

verus! {

/// A fully encoded response head: what is written before the body.
pub struct ResponseHead {
    /// The status code.
    pub code: u16,

    /// The canonical reason phrase of the status.
    pub reason: &'static str,

    /// The header fields, in order.
    pub headers: Vec<(String, String)>,
}

/// `Serializer` for RPC responses.
pub struct RpcResponseSerializer {
    /// The outcome, once set.
    pub status: Option<HttpStatus>,

    /// The header fields set so far.
    pub headers: Vec<(String, String)>,
}

impl RpcResponseSerializer {
    /// Makes a new `RpcResponseSerializer` instance.
    pub fn new() -> (r: RpcResponseSerializer)
        ensures
            r.status is None,
            r.headers.deep_view() == Seq::<(Seq<char>, Seq<char>)>::empty(),
    {
        let r = RpcResponseSerializer { status: None, headers: Vec::new() };
        proof {
            assert(r.headers.deep_view() =~= Seq::<(Seq<char>, Seq<char>)>::empty());
        }
        r
    }

    /// Finishes the serialization into the response head, injecting
    /// `Content-Length` from the body length; the outcome must have been
    /// set.
    pub fn finish(self, body_len: u64) -> (r: Result<ResponseHead, Error>)
        ensures
            ({
                match r {
                    Ok(h) => self.status matches Some(s) && h.code == s.spec_code() && h.reason@
                        == s.spec_reason() && h.headers.deep_view() == self.headers.deep_view().push(
                        (("content-length")@, spec_u64_digits(body_len as nat)),
                    ),
                    Err(e) => e.kind == crate::error::ErrorKind::Invalid && self.status is None,
                }
            }),
    {
        match self.status {
            Some(s) => {
                let headers = headers_with_content_length(&self.headers, body_len);
                Ok(ResponseHead { code: s.code(), reason: s.reason_phrase(), headers })
            },
            None => Err(Error::invalid()),
        }
    }

    /// Serializes a whole RPC response into its head and body.
    pub fn serialize(response: RpcResponseData) -> (r: (ResponseHead, Vec<u8>))
        ensures
            r.0.code == response.status.spec_code(),
            r.0.reason@ == response.status.spec_reason(),
            r.0.headers.deep_view() == response.headers.deep_view().push(
                (("content-length")@, spec_u64_digits(response.body@.len() as nat)),
            ),
            r.1 == response.body,
    {
        let headers = headers_with_content_length(&response.headers, response.body.len() as u64);
        let head = ResponseHead {
            code: response.status.code(),
            reason: response.status.reason_phrase(),
            headers,
        };
        (head, response.body)
    }
}

/// Reads an outcome from its wire name; any name outside the table is a
/// construction error, never a runtime fallback.
pub fn status_from_str(s: &str) -> (r: Result<HttpStatus, Error>)
    ensures
        ({
            match r {
                Ok(v) => v.spec_name() == s@,
                Err(e) => e.kind == crate::error::ErrorKind::Invalid && forall|v: HttpStatus|
                    v.spec_name() != s@,
            }
        }),
{
    HttpStatus::from_name(s)
}

} // verus!
