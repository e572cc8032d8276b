//! Encoders from typed request/response values onto the HTTP wire.
pub mod http_body;
pub mod http_header;
pub mod rpc_request;
pub mod rpc_response;
pub mod url_path;
pub mod url_query;
