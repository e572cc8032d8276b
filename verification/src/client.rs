//! The client side of a call: encode the request, and decode what comes
//! back, phase by phase.
//!
//! The network lives in the embedding program: it connects (directly or
//! through the pool), writes the encoded head and body, reads the response
//! head, reads the response body (skipped for a `HEAD` call), and feeds the
//! pieces back in.  A failure at any phase aborts the call; a connect
//! failure against a pooled address is reported to the pool as
//! `AddToBlacklist`.
use vstd::prelude::*;
use crate::deserializers::rpc_response::RpcResponseDeserializer;
use crate::error::{Error, ErrorKind};
use crate::procedure::{EntryPoint, RpcResponseData, Scalar, ScalarVal, spec_scalar_chars};
use crate::path_template::spec_var_count;
use crate::serializers::rpc_request::{spec_target, RequestHead, RpcRequestSerializer};
use crate::serializers::url_path::spec_fill;
use crate::serializers::url_query::spec_encode_query;
use crate::strutil::spec_u64_digits;
use crate::types::{HttpMethod, HttpStatus};

verus! {

/// One RPC invocation: the encoded message to send, and the method that
/// decides whether a response body is read.
pub struct Call {
    /// The method of the call.
    pub method: HttpMethod,

    /// The encoded request head.
    pub head: RequestHead,

    /// The encoded request body.
    pub body: Vec<u8>,
}

/// RPC Client: remembers which remote endpoint calls are issued against.
pub struct RpcClient {
    /// The remote endpoint.
    pub server: crate::pool::RemoteAddr,
}

impl RpcClient {
    /// Makes an RPC client which will communicate with the `server`.
    pub fn new(server: crate::pool::RemoteAddr) -> (r: RpcClient)
        ensures
            r.server == server,
    {
        RpcClient { server }
    }
}

/// Starts a call: encodes the request into the message the connection will
/// carry.  Fails exactly when the path value count differs from the entry
/// point's variable count.
pub fn call_start(
    method: HttpMethod,
    entry_point: EntryPoint,
    path_values: &Vec<Scalar>,
    query_args: &Vec<(String, Option<Scalar>)>,
    headers: &Vec<(String, String)>,
    body: Vec<u8>,
) -> (r: Result<Call, Error>)
    ensures
        ({
            let texts = path_values.deep_view().map_values(|v: ScalarVal| spec_scalar_chars(v));
            match r {
                Ok(c) => {
                    &&& path_values@.len() == spec_var_count(entry_point@)
                    &&& c.method == method
                    &&& c.head.method == method
                    &&& c.head.target@ == spec_target(
                        spec_fill(entry_point@, texts),
                        spec_encode_query(query_args.deep_view()),
                    )
                    &&& c.head.headers.deep_view() == headers.deep_view().push(
                        (("content-length")@, spec_u64_digits(body@.len() as nat)),
                    )
                    &&& c.body == body
                },
                Err(e) => e.kind == ErrorKind::Invalid && path_values@.len() != spec_var_count(
                    entry_point@,
                ),
            }
        }),
{
    let mut ser = RpcRequestSerializer::new(method, entry_point);
    match ser.serialize_path(path_values) {
        Ok(_) => {
        },
        Err(e) => {
            return Err(e);
        },
    }
    ser.serialize_query(query_args);
    let n: usize = headers.len();
    let mut i: usize = 0;
    proof {
        assert(ser.headers.deep_view() =~= headers.deep_view().subrange(0, 0));
    }
    while i < n
        invariant
            i <= n,
            n == headers.deep_view().len(),
            ser.headers.deep_view() == headers.deep_view().subrange(0, i as int),
            ser.method == method,
            ser.entry_point@ == entry_point@,
            ser.query@ == spec_encode_query(query_args.deep_view()),
            ser.path matches Some(p) && p.deep_view() == spec_fill(
                entry_point@,
                path_values.deep_view().map_values(|v: ScalarVal| spec_scalar_chars(v)),
            ),
        decreases n - i,
    {
        ser.serialize_header(headers[i].0.as_str(), headers[i].1.as_str());
        proof {
            assert(headers.deep_view().subrange(0, i as int).push(
                (headers.deep_view()[i as int].0, headers.deep_view()[i as int].1),
            ) =~= headers.deep_view().subrange(0, i + 1));
            assert((headers.deep_view()[i as int].0, headers.deep_view()[i as int].1)
                == headers.deep_view()[i as int]);
        }
        i = i + 1;
    }
    proof {
        assert(headers.deep_view().subrange(0, n as int) =~= headers.deep_view());
    }
    let body_len = body.len() as u64;
    match ser.finish(body_len) {
        Ok(head) => Ok(Call { method, head, body }),
        Err(e) => Err(e),
    }
}

/// What the call does once the response head has arrived.
pub enum CallStep {
    /// Read the response body in full, then finish the call.
    NeedBody {
        /// The status code from the response line.
        code: u16,
        /// The response headers.
        headers: Vec<(String, String)>,
    },
    /// The call is finished: a `HEAD` call reads no body.
    Finished(RpcResponseData),
}

/// Advances a call on the response head: a `HEAD` call decodes immediately
/// with an empty body, every other call reads the body first.  Fails
/// exactly when the status code is outside the recognized table.
pub fn call_on_response_head(
    method: HttpMethod,
    code: u16,
    headers: Vec<(String, String)>,
) -> (r: Result<CallStep, Error>)
    ensures
        ({
            match r {
                Ok(step) => match step {
                    CallStep::Finished(out) => method == HttpMethod::Head
                        && HttpStatus::spec_from_code(code) == Some(out.status) && out.headers
                        == headers && out.body@.len() == 0,
                    CallStep::NeedBody { code: c, headers: h } => method != HttpMethod::Head && c
                        == code && h == headers,
                },
                Err(e) => e.kind == ErrorKind::Invalid && method == HttpMethod::Head
                    && HttpStatus::spec_from_code(code) is None,
            }
        }),
{
    if method == HttpMethod::Head {
        let empty: Vec<u8> = Vec::new();
        match RpcResponseDeserializer::new(code, headers, empty).deserialize() {
            Ok(out) => Ok(CallStep::Finished(out)),
            Err(e) => Err(e),
        }
    } else {
        Ok(CallStep::NeedBody { code, headers })
    }
}

/// Finishes a call on the response body: decodes the response.  Fails
/// exactly when the status code is outside the recognized table.
pub fn call_on_response_body(code: u16, headers: Vec<(String, String)>, body: Vec<u8>) -> (r:
    Result<RpcResponseData, Error>)
    ensures
        ({
            match r {
                Ok(out) => HttpStatus::spec_from_code(code) == Some(out.status) && out.headers
                    == headers && out.body == body,
                Err(e) => e.kind == ErrorKind::Invalid && HttpStatus::spec_from_code(code) is None,
            }
        }),
{
    RpcResponseDeserializer::new(code, headers, body).deserialize()
}

} // verus!
