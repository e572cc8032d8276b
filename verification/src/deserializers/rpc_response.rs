//! Decoding an HTTP response back into a typed RPC response: the status
//! code selects an outcome from the closed table, and any code outside the
//! table fails as invalid; headers and body pass through.
use vstd::prelude::*;
use crate::error::{Error, ErrorKind};
use crate::procedure::RpcResponseData;
use crate::types::HttpStatus;

verus! {

/// `Deserializer` for RPC responses.
pub struct RpcResponseDeserializer {
    /// The status code from the response line.
    pub code: u16,

    /// The header fields as they came in.
    pub headers: Vec<(String, String)>,

    /// The raw body bytes.
    pub body: Vec<u8>,
}

impl RpcResponseDeserializer {
    /// Makes a new `RpcResponseDeserializer` instance.
    pub fn new(code: u16, headers: Vec<(String, String)>, body: Vec<u8>) -> (r:
        RpcResponseDeserializer)
        ensures
            r.code == code,
            r.headers == headers,
            r.body == body,
    {
        RpcResponseDeserializer { code, headers, body }
    }

    /// Decodes the response; fails exactly when the status code is outside
    /// the recognized table.
    pub fn deserialize(self) -> (r: Result<RpcResponseData, Error>)
        ensures
            ({
                match r {
                    Ok(out) => HttpStatus::spec_from_code(self.code) == Some(out.status)
                        && out.headers == self.headers && out.body == self.body,
                    Err(e) => e.kind == ErrorKind::Invalid && HttpStatus::spec_from_code(self.code)
                        is None,
                }
            }),
    {
        match HttpStatus::from_code(self.code) {
            Ok(status) => Ok(RpcResponseData { status, headers: self.headers, body: self.body }),
            Err(e) => Err(e),
        }
    }
}

/// Reads the wire name of the outcome a status code denotes; any code
/// outside the table is invalid.
pub fn status_code_to_str(code: u16) -> (r: Result<&'static str, Error>)
    ensures
        ({
            match r {
                Ok(t) => HttpStatus::spec_from_code(code) matches Some(s) && t@ == s.spec_name(),
                Err(e) => e.kind == ErrorKind::Invalid && HttpStatus::spec_from_code(code) is None,
            }
        }),
{
    match HttpStatus::from_code(code) {
        Ok(s) => Ok(s.name()),
        Err(e) => Err(e),
    }
}

} // verus!
