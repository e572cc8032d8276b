//! Reading an HTTP body: a scalar payload is parsed from the UTF-8 text of
//! the body bytes; raw bytes pass through untouched.
use vstd::prelude::*;
use crate::deserializers::http_header::{parse_slice, spec_parse_slice};
use crate::error::{Error, ErrorKind};
use crate::procedure::{Scalar, ScalarKind};

verus! {

/// `Deserializer` for HTTP bodies.
pub struct HttpBodyDeserializer {
    body: Vec<u8>,
}

impl View for HttpBodyDeserializer {
    type V = Seq<u8>;

    closed spec fn view(&self) -> Seq<u8> {
        self.body@
    }
}

impl HttpBodyDeserializer {
    /// Makes a new `HttpBodyDeserializer` instance.
    pub fn new(body: Vec<u8>) -> (r: HttpBodyDeserializer)
        ensures
            r@ == body@,
    {
        HttpBodyDeserializer { body }
    }

    /// Reads the body as a scalar of the declared kind.
    pub fn deserialize_scalar(self, kind: ScalarKind) -> (r: Result<Scalar, Error>)
        ensures
            ({
                match r {
                    Ok(v) => spec_parse_slice(kind, self@) == Some(v@),
                    Err(e) => e.kind == ErrorKind::Invalid && spec_parse_slice(kind, self@)
                        is None,
                }
            }),
    {
        parse_slice(kind, self.body)
    }

    /// Takes the raw body bytes.
    pub fn into_bytes(self) -> (r: Vec<u8>)
        ensures
            r@ == self@,
    {
        self.body
    }
}

} // verus!
