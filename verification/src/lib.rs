//! An HTTP based RPC library.
//!
//! A typed procedure (an HTTP method plus a path template, bound to a request
//! and a response shape) is invoked across a network by encoding the request
//! into an HTTP message (path, query string, headers, body) and decoding the
//! HTTP response back into a typed value.  Symmetrically, a server dispatches
//! incoming requests to handlers through a route table built from the path
//! templates.  Every encoding, decoding, routing and pooling decision lives
//! here as verified code; the network itself is driven by the embedding
//! program through the state machines of `client` and `server`.

pub mod client;
pub mod deserializers;
pub mod error;
pub mod misc;
pub mod path_template;
pub mod percent;
pub mod pool;
pub mod procedure;
pub mod rfc7807;
pub mod router;
pub mod serializers;
pub mod server;
pub mod strutil;
pub mod types;
