//! Decoding an incoming HTTP request into a typed RPC request: the path is
//! matched against the entry point and its values parsed under the declared
//! kinds, the query fields are decoded, and headers and body pass through.
use vstd::prelude::*;
use crate::deserializers::url_path::{
    decode_path_values, match_path, spec_match, spec_parse_path_values,
};
use crate::deserializers::url_query::{decode_query, qf_views, spec_decode_query};
use crate::error::{Error, ErrorKind};
use crate::path_template::PathSegment;
use crate::procedure::{RequestDescriptor, Scalar, ScalarKind, ScalarVal};

verus! {

/// A request decoded against a procedure's descriptor.
pub struct DecodedRequest {
    /// The path variable values, in declared order.
    pub path: Vec<Scalar>,

    /// The query field values, one per declared field, in field order;
    /// `None` is the missing state of an optional field.
    pub query: Vec<Option<Scalar>>,

    /// The header fields as they came in.
    pub headers: Vec<(String, String)>,

    /// The raw body bytes.
    pub body: Vec<u8>,
}

/// What a request denotes under a descriptor: the path must match the
/// template and its values parse under the declared kinds, and the query
/// pairs must decode against the declared fields; any mismatch is nothing.
pub open spec fn spec_decode_request(
    template: Seq<PathSegment>,
    path_kinds: Seq<ScalarKind>,
    query_fields: Seq<(Seq<char>, ScalarKind, bool)>,
    segments: Seq<Seq<char>>,
    pairs: Seq<(Seq<char>, Seq<char>)>,
) -> Option<(Seq<ScalarVal>, Seq<Option<ScalarVal>>)> {
    match spec_match(template, segments) {
        Some(raws) => match spec_parse_path_values(path_kinds, raws) {
            Some(pv) => match spec_decode_query(query_fields, pairs) {
                Some(qv) => Some((pv, qv)),
                None => None,
            },
            None => None,
        },
        None => None,
    }
}

/// Decodes one request against a descriptor.  Every shape mismatch (wrong
/// path shape, unparsable scalar, missing required query field) is a local,
/// deterministic `Invalid` error.
pub fn decode_request(
    template: &Vec<PathSegment>,
    descriptor: &RequestDescriptor,
    segments: &Vec<String>,
    pairs: &Vec<(String, String)>,
    headers: Vec<(String, String)>,
    body: Vec<u8>,
) -> (r: Result<DecodedRequest, Error>)
    ensures
        ({
            let d = spec_decode_request(
                template@,
                descriptor.path_kinds@,
                qf_views(descriptor.query_fields@),
                segments.deep_view(),
                pairs.deep_view(),
            );
            match r {
                Ok(out) => d == Some((out.path.deep_view(), out.query.deep_view()))
                    && out.headers == headers && out.body == body,
                Err(e) => e.kind == ErrorKind::Invalid && d is None,
            }
        }),
{
    let raws = match match_path(template, segments) {
        Ok(raws) => raws,
        Err(e) => {
            return Err(e);
        },
    };
    let path = match decode_path_values(&descriptor.path_kinds, &raws) {
        Ok(path) => path,
        Err(e) => {
            return Err(e);
        },
    };
    let query = match decode_query(&descriptor.query_fields, pairs) {
        Ok(query) => query,
        Err(e) => {
            return Err(e);
        },
    };
    Ok(DecodedRequest { path, query, headers, body })
}

} // verus!
