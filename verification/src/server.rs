//! The server side of a call: parse the request target, route it, decode
//! the typed request, and shape the reaction.
//!
//! Network I/O lives in the embedding program, which reads one request per
//! round, calls `dispatch_request` and `decode_for_handler`, runs the
//! designated handler, encodes the handler's response (or the problem
//! response these steps decide), writes it, and loops on the same
//! connection: connections are persistent by this design's choice.  A peer
//! that closes before a request arrives is a clean end of the loop, not an
//! error.
use vstd::prelude::*;
use crate::deserializers::rpc_request::{decode_request, spec_decode_request, DecodedRequest};
use crate::deserializers::url_path::{spec_path_segments, split_path};
use crate::deserializers::url_query::{parse_query_pairs, qf_views, query_pairs_of};
use crate::error::Error;
use crate::misc::{parse_relative_url, url_split_of};
use crate::path_template::PathSegment;
use crate::procedure::{Procedure, RequestDescriptor};
use crate::router::{has_route, inserted_rel, spec_route, Router, RouterBuilder};
use crate::types::{HttpMethod, HttpStatus};

verus! {

/// What routing one request decides.
pub enum RouteOutcome {
    /// The request cannot be dispatched; answer with a problem response of
    /// this status, and keep the connection alive.
    Problem {
        /// The status of the problem response.
        status: HttpStatus,
    },
    /// The request resolves to a registered handler.
    Found {
        /// The handler the route table designates.
        handler: u64,
        /// The (still percent-encoded) path segments.
        segments: Vec<String>,
        /// The decoded query pairs, in wire order.
        query_pairs: Vec<(String, String)>,
    },
}

/// Routes one request: a malformed target is a `BadRequest` problem, an
/// unknown path is `NotFound`, a known path without the method is
/// `MethodNotAllowed`, and otherwise the registered handler is designated.
pub fn dispatch_request(router: &Router, method: HttpMethod, target: &str) -> (r: RouteOutcome)
    ensures
        ({
            match url_split_of(target@) {
                None => r matches RouteOutcome::Problem { status } && status
                    == HttpStatus::BadRequest,
                Some((path, query)) => {
                    let segs = spec_path_segments(path);
                    match spec_route(router.trie.root, segs, 0, method) {
                        Ok(h) => r matches RouteOutcome::Found { handler, segments, query_pairs }
                            && handler == h && segments.deep_view() == segs
                            && query_pairs.deep_view() == query_pairs_of(query),
                        Err(st) => r matches RouteOutcome::Problem { status } && status == st,
                    }
                },
            }
        }),
{
    let (path, query) = match parse_relative_url(target) {
        Ok(pq) => pq,
        Err(_) => {
            return RouteOutcome::Problem { status: HttpStatus::BadRequest };
        },
    };
    let segments = split_path(path.as_str());
    match router.route(&segments, method) {
        Ok(handler) => {
            let query_pairs = parse_query_pairs(query.as_str());
            RouteOutcome::Found { handler, segments, query_pairs }
        },
        Err(status) => RouteOutcome::Problem { status },
    }
}

/// What decoding a routed request decides.
pub enum DecodeOutcome {
    /// The request does not conform to the procedure's shape; answer with a
    /// problem response of this status, and keep the connection alive.
    Problem {
        /// The status of the problem response: `BadRequest`.
        status: HttpStatus,
    },
    /// The decoded request, ready for the handler.
    Request(DecodedRequest),
}

/// Decodes a routed request against its procedure's descriptor; a decode
/// failure is a `BadRequest` problem and the connection stays usable for
/// the next request.
pub fn decode_for_handler(
    template: &Vec<PathSegment>,
    descriptor: &RequestDescriptor,
    segments: &Vec<String>,
    pairs: &Vec<(String, String)>,
    headers: Vec<(String, String)>,
    body: Vec<u8>,
) -> (r: DecodeOutcome)
    ensures
        ({
            let d = spec_decode_request(
                template@,
                descriptor.path_kinds@,
                qf_views(descriptor.query_fields@),
                segments.deep_view(),
                pairs.deep_view(),
            );
            match r {
                DecodeOutcome::Request(out) => d == Some(
                    (out.path.deep_view(), out.query.deep_view()),
                ) && out.headers == headers && out.body == body,
                DecodeOutcome::Problem { status } => status == HttpStatus::BadRequest && d is None,
            }
        }),
{
    match decode_request(template, descriptor, segments, pairs, headers, body) {
        Ok(out) => DecodeOutcome::Request(out),
        Err(_) => DecodeOutcome::Problem { status: HttpStatus::BadRequest },
    }
}

/// Dispatch for a freshly registered procedure: with its route registered
/// into an empty table, any request path that matches its entry point is
/// routed to its handler.  Together with the path round-trip laws (an
/// encoded path matches back to the values it was filled with) and the
/// exact contract of `decode_for_handler`, this carries an encoded call
/// through routing and decoding to the registered handler with the original
/// values; with further routes in the table, which handler a path reaches
/// is governed by `spec_route`'s literal-over-wildcard preference instead.
pub proof fn lemma_registered_procedure_dispatch(
    root0: crate::router::TrieNode,
    root1: crate::router::TrieNode,
    template: Seq<PathSegment>,
    m: HttpMethod,
    h: u64,
    segs: Seq<Seq<char>>,
)
    requires
        root0.children@.len() == 0,
        root0.leafs@.len() == 0,
        inserted_rel(root0, root1, crate::path_template::seg_views(template), 0, m, h),
        crate::deserializers::url_path::spec_match(template, segs) is Some,
    ensures
        spec_route(root1, segs, 0, m) == Ok::<u64, HttpStatus>(h),
{
    crate::deserializers::url_path::lemma_match_admits(template, segs);
    crate::router::lemma_fresh_route_dispatch(
        root0,
        root1,
        crate::path_template::seg_views(template),
        m,
        h,
        segs,
    );
}

/// The `RpcServer` builder: routes are registered here, then frozen.
pub struct RpcServerBuilder {
    /// The route table under construction.
    pub router: RouterBuilder,
}

impl RpcServerBuilder {
    /// Makes a new `RpcServerBuilder` instance.
    pub fn new() -> (r: RpcServerBuilder)
        ensures
            r.router.trie.root.children@.len() == 0,
            r.router.trie.root.leafs@.len() == 0,
    {
        RpcServerBuilder { router: RouterBuilder::new() }
    }

    /// Registers an RPC handler for a procedure; registering two handlers
    /// for one method and entry point fails at registration.  The procedure's
    /// method and entry point come from a trait the embedding program
    /// implements, so which route is taken cannot be promised here; whatever
    /// they are, success adds exactly one route that was free, and failure
    /// is a conflict that leaves the builder untouched.  The exact
    /// registration contract is `RouterBuilder::register_handler`.
    pub fn register<P: Procedure>(&mut self, handler: u64) -> (r: Result<(), Error>)
        ensures
            ({
                match r {
                    Ok(_) => exists|method: HttpMethod, keys: Seq<Option<Seq<char>>>|
                        !has_route(old(self).router.trie.root, keys, 0, method)
                            && #[trigger] inserted_rel(
                            old(self).router.trie.root,
                            final(self).router.trie.root,
                            keys,
                            0,
                            method,
                            handler,
                        ),
                    Err(e) => e.kind == crate::error::ErrorKind::Invalid && *final(self) == *old(
                        self,
                    ),
                }
            }),
    {
        let method = P::method();
        let entry_point = P::entry_point();
        let r = self.router.register_handler(method, &entry_point, handler);
        proof {
            if r is Ok {
                assert(inserted_rel(
                    old(self).router.trie.root,
                    self.router.trie.root,
                    crate::path_template::seg_views(entry_point@),
                    0,
                    method,
                    handler,
                ));
            }
        }
        r
    }

    /// Freezes the routes into the server.
    pub fn start(self) -> (r: RpcServer)
        ensures
            r.router.trie.root == self.router.trie.root,
    {
        RpcServer { router: self.router.finish() }
    }
}

/// An RPC server: the frozen, read-only route table the request loop
/// dispatches against.
pub struct RpcServer {
    /// The route table.
    pub router: Router,
}

} // verus!
