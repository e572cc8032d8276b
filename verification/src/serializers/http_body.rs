//! Writing an HTTP body: a scalar payload becomes the UTF-8 bytes of its
//! wire text; raw bytes pass through untouched.
use vstd::prelude::*;
use crate::procedure::{scalar_to_string, spec_scalar_chars, Scalar};
use crate::strutil::str_chars;
use vstd::string::{StrSliceExecFns, StringSliceAdditionalSpecFns};
use vstd::utf8::encode_utf8;

verus! {

/// `Serializer` for HTTP bodies.
pub struct HttpBodySerializer {

}

impl HttpBodySerializer {
    /// Writes a scalar as body bytes: the UTF-8 encoding of its wire text.
    pub fn serialize_scalar(v: &Scalar) -> (r: Vec<u8>)
        ensures
            r@ == encode_utf8(spec_scalar_chars(v@)),
    {
        let s = scalar_to_string(v);
        s.as_str().as_bytes_vec()
    }
}

} // verus!
