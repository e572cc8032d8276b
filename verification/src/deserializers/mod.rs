//! Decoders from the HTTP wire back into typed request/response values.
pub mod http_body;
pub mod http_header;
pub mod rpc_request;
pub mod rpc_response;
pub mod url_path;
pub mod url_query;
