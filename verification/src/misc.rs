//! The boundary to the URL parser: splitting a relative request target into
//! its path and query parts.
use vstd::prelude::*;
use crate::error::{Error, ErrorKind};

verus! {

/// How the URL parser splits a relative request target: the (still
/// percent-encoded) path and the raw query string (empty when there is
/// none), or nothing when the target cannot be parsed.
pub uninterp spec fn url_split_of(s: Seq<char>) -> Option<(Seq<char>, Seq<char>)>;

/// Relies on `url::Url`'s parser, against a fixed dummy base: it resolves a
/// relative request target into a URL whose `path()` is the serialized,
/// still percent-encoded path and whose `query()` is the raw query string.
#[verifier::external_body]
pub fn parse_relative_url(s: &str) -> (r: Result<(String, String), Error>)
    ensures
        ({
            match r {
                Ok(pq) => url_split_of(s@) == Some((pq.0@, pq.1@)),
                Err(e) => e.kind == ErrorKind::Invalid && url_split_of(s@) is None,
            }
        }),
{
    let base = url::Url::parse("http://localhost/").expect("a fixed, valid base");
    match url::Url::options().base_url(Some(&base)).parse(s) {
        Ok(u) => {
            let path = u.path().to_string();
            let query = u.query().unwrap_or("").to_string();
            Ok((path, query))
        },
        Err(_) => Err(Error::invalid()),
    }
}

} // verus!
