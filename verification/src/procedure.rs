//! Procedure descriptors: the static binding of an HTTP method and an entry
//! point to the wire shape of a request and a response.
//!
//! Requests and responses are described structurally: a tuple of scalars
//! bound to the path variables, named (possibly optional) scalar query
//! fields, string headers, and a body.  One generic encode/decode routine in
//! `serializers` / `deserializers` interprets these descriptors.
use vstd::prelude::*;
use crate::error::{Error, ErrorKind};
use crate::path_template::{spec_var_count, PathSegment};
use crate::strutil::{
    all_dec_digits, bool_to_chars, chars_to_string, dec_value, i64_to_dec_chars, lemma_u64_digits,
    parse_bool_chars, parse_i64_chars, parse_u64_chars, spec_bool_chars, spec_i64_chars,
    spec_parse_bool, spec_parse_i64, spec_u64_digits, str_chars, u64_to_dec_chars,
};
use crate::types::HttpMethod;

verus! {

/// The entry point definition of a procedure: its path template.
#[derive(Debug, Clone)]
pub struct EntryPoint {
    segments: Vec<PathSegment>,
}

impl View for EntryPoint {
    type V = Seq<PathSegment>;

    closed spec fn view(&self) -> Seq<PathSegment> {
        self.segments@
    }
}

impl EntryPoint {
    /// Makes a new `EntryPoint` instance.
    pub fn new(segments: Vec<PathSegment>) -> (r: EntryPoint)
        ensures
            r@ == segments@,
    {
        EntryPoint { segments }
    }

    /// Returns the segments in this entry point.
    pub fn segments(&self) -> (r: &Vec<PathSegment>)
        ensures
            r@ == self@,
    {
        &self.segments
    }

    /// Counts variables in this entry point.
    pub fn var_count(&self) -> (r: usize)
        ensures
            r == spec_var_count(self@),
    {
        crate::path_template::count_vars(&self.segments)
    }
}

impl PartialEq for EntryPoint {
    fn eq(&self, other: &EntryPoint) -> (r: bool) {
        let n: usize = self.segments.len();
        if n != other.segments.len() {
            proof {
                assert(crate::path_template::seg_views(self@).len()
                    != crate::path_template::seg_views(other@).len());
            }
            return false;
        }
        let mut i: usize = 0;
        while i < n
            invariant
                i <= n,
                n == self@.len(),
                n == other@.len(),
                forall|j: int| 0 <= j < i ==> self@[j].spec_val() == other@[j].spec_val(),
            decreases n - i,
        {
            let a = self.segments[i];
            let b = other.segments[i];
            if !(a == b) {
                proof {
                    assert(crate::path_template::seg_views(self@)[i as int]
                        != crate::path_template::seg_views(other@)[i as int]);
                }
                return false;
            }
            i = i + 1;
        }
        proof {
            assert(crate::path_template::seg_views(self@)
                =~= crate::path_template::seg_views(other@));
        }
        true
    }
}

impl vstd::std_specs::cmp::PartialEqSpecImpl for EntryPoint {
    open spec fn obeys_eq_spec() -> bool {
        true
    }

    open spec fn eq_spec(&self, other: &EntryPoint) -> bool {
        crate::path_template::seg_views(self@) == crate::path_template::seg_views(other@)
    }
}

impl Eq for EntryPoint {

}

/// Procedure definition.
pub trait Procedure {
    /// The HTTP method which this procedure handles.
    fn method() -> HttpMethod;

    /// The entry point of this procedure.
    fn entry_point() -> EntryPoint;

    /// The wire shape of this procedure's requests.
    fn request_descriptor() -> RequestDescriptor;
}

/// A marker type used to indicate that a handler never fails.
pub struct NeverFail {
    _cannot_instantiate: (),
}

/// RPC Request: a typed request value that can hand the encoder its body
/// bytes.
pub trait RpcRequest {
    /// Takes the body of this request.
    fn body(&mut self) -> Vec<u8>;
}

/// RPC Response: a typed response value that can hand the encoder its body
/// bytes, and take the decoded bytes back.
pub trait RpcResponse {
    /// Takes the body of this response.
    fn body(&mut self) -> Vec<u8>;

    /// Sets the body of this response.
    fn set_body(&mut self, body: Vec<u8>);
}

/// The scalar kinds a path variable or query field can declare.
#[derive(Debug, Clone, Copy, PartialEq, Eq, Structural)]
pub enum ScalarKind {
    /// A boolean, written `true` or `false`.
    Bool,

    /// A signed decimal integer.
    Int,

    /// An unsigned decimal integer.
    Uint,

    /// Arbitrary text.
    Text,
}

/// A flat scalar value bound through the path, the query or the body.
#[derive(Debug, Clone)]
pub enum Scalar {
    /// A boolean.
    Bool(bool),

    /// A signed integer.
    Int(i64),

    /// An unsigned integer.
    Uint(u64),

    /// Text.
    Text(String),
}

/// The mathematical value of a scalar.
pub enum ScalarVal {
    /// A boolean.
    Bool(bool),

    /// A signed integer.
    Int(int),

    /// An unsigned integer.
    Uint(int),

    /// Text.
    Text(Seq<char>),
}

impl View for Scalar {
    type V = ScalarVal;

    open spec fn view(&self) -> ScalarVal {
        match self {
            Scalar::Bool(b) => ScalarVal::Bool(*b),
            Scalar::Int(i) => ScalarVal::Int(*i as int),
            Scalar::Uint(n) => ScalarVal::Uint(*n as int),
            Scalar::Text(s) => ScalarVal::Text(s@),
        }
    }
}

impl DeepView for Scalar {
    type V = ScalarVal;

    open spec fn deep_view(&self) -> ScalarVal {
        self.view()
    }
}

impl ScalarVal {
    /// The kind of this value.
    pub open spec fn kind(self) -> ScalarKind {
        match self {
            ScalarVal::Bool(_) => ScalarKind::Bool,
            ScalarVal::Int(_) => ScalarKind::Int,
            ScalarVal::Uint(_) => ScalarKind::Uint,
            ScalarVal::Text(_) => ScalarKind::Text,
        }
    }

    /// Whether this value fits its machine representation.
    pub open spec fn wf(self) -> bool {
        match self {
            ScalarVal::Bool(_) => true,
            ScalarVal::Int(i) => i64::MIN <= i <= i64::MAX,
            ScalarVal::Uint(n) => 0 <= n <= u64::MAX,
            ScalarVal::Text(_) => true,
        }
    }
}

/// The text a scalar is written as on the wire: decimal numbers,
/// `true`/`false` booleans, text verbatim.
pub open spec fn spec_scalar_chars(v: ScalarVal) -> Seq<char> {
    match v {
        ScalarVal::Bool(b) => spec_bool_chars(b),
        ScalarVal::Int(i) => spec_i64_chars(i),
        ScalarVal::Uint(n) => spec_u64_digits(n as nat),
        ScalarVal::Text(t) => t,
    }
}

/// What a wire string denotes under a declared kind, if anything.
pub open spec fn spec_parse_scalar(kind: ScalarKind, s: Seq<char>) -> Option<ScalarVal> {
    match kind {
        ScalarKind::Bool => match spec_parse_bool(s) {
            Some(b) => Some(ScalarVal::Bool(b)),
            None => None,
        },
        ScalarKind::Int => match spec_parse_i64(s) {
            Some(i) => Some(ScalarVal::Int(i)),
            None => None,
        },
        ScalarKind::Uint => if s.len() > 0 && all_dec_digits(s) && dec_value(s) <= u64::MAX {
            Some(ScalarVal::Uint(dec_value(s)))
        } else {
            None
        },
        ScalarKind::Text => Some(ScalarVal::Text(s)),
    }
}

/// Writes a scalar as its wire text.
pub fn scalar_to_chars(v: &Scalar) -> (r: Vec<char>)
    ensures
        r@ == spec_scalar_chars(v@),
{
    match v {
        Scalar::Bool(b) => bool_to_chars(*b),
        Scalar::Int(i) => i64_to_dec_chars(*i),
        Scalar::Uint(n) => u64_to_dec_chars(*n),
        Scalar::Text(s) => str_chars(s.as_str()),
    }
}

/// Writes a scalar as a wire string.
pub fn scalar_to_string(v: &Scalar) -> (r: String)
    ensures
        r@ == spec_scalar_chars(v@),
{
    let cs = scalar_to_chars(v);
    chars_to_string(&cs)
}

/// Reads a scalar of the declared kind back from its wire text; fails
/// exactly on text that does not denote a value of that kind.
pub fn parse_scalar_chars(kind: ScalarKind, s: &Vec<char>) -> (r: Result<Scalar, Error>)
    ensures
        ({
            match r {
                Ok(v) => spec_parse_scalar(kind, s@) == Some(v@),
                Err(e) => e.kind == ErrorKind::Invalid && spec_parse_scalar(kind, s@) is None,
            }
        }),
{
    match kind {
        ScalarKind::Bool => match parse_bool_chars(s) {
            Ok(b) => Ok(Scalar::Bool(b)),
            Err(e) => Err(e),
        },
        ScalarKind::Int => match parse_i64_chars(s) {
            Ok(i) => Ok(Scalar::Int(i)),
            Err(e) => Err(e),
        },
        ScalarKind::Uint => match parse_u64_chars(s, 0) {
            Ok(n) => {
                proof {
                    assert(s@.subrange(0, s@.len() as int) =~= s@);
                }
                Ok(Scalar::Uint(n))
            },
            Err(e) => {
                proof {
                    assert(s@.subrange(0, s@.len() as int) =~= s@);
                }
                Err(e)
            },
        },
        ScalarKind::Text => Ok(Scalar::Text(chars_to_string(s))),
    }
}

/// Writing a scalar and reading it back under its own kind returns the same
/// value.
pub proof fn lemma_scalar_round_trip(v: ScalarVal)
    requires
        v.wf(),
    ensures
        spec_parse_scalar(v.kind(), spec_scalar_chars(v)) == Some(v),
{
    match v {
        ScalarVal::Bool(b) => {
        },
        ScalarVal::Int(i) => {
            if i >= 0 {
                lemma_u64_digits(i as nat);
                let s = spec_u64_digits(i as nat);
                assert(48 <= s[0] as u32 <= 57);
                assert(s[0] != '-');
            } else {
                let m = (-i) as nat;
                lemma_u64_digits(m);
                let s = spec_i64_chars(i);
                let t = s.subrange(1, s.len() as int);
                assert(t =~= spec_u64_digits(m));
                assert(s[0] == '-');
            }
        },
        ScalarVal::Uint(n) => {
            lemma_u64_digits(n as nat);
        },
        ScalarVal::Text(t) => {
        },
    }
}

/// The wire-facing value of an RPC response: a named outcome, headers, and
/// the body bytes.
pub struct RpcResponseData {
    /// The response outcome.
    pub status: crate::types::HttpStatus,

    /// The header fields, in order; `Content-Length` is injected on encode
    /// and must not be set here.
    pub headers: Vec<(String, String)>,

    /// The raw body bytes.
    pub body: Vec<u8>,
}

/// One named query field of a request: its wire name, scalar kind, and
/// whether a request without it is rejected.
#[derive(Debug, Clone, Copy)]
pub struct QueryField {
    /// The key this field is written under in the query string.
    pub name: &'static str,

    /// The scalar kind of the field's value.
    pub kind: ScalarKind,

    /// Whether the field must be present.
    pub required: bool,
}

/// The wire shape of a request: the scalar kinds of the path variables, in
/// declaration order, and the named query fields.
#[derive(Debug, Clone)]
pub struct RequestDescriptor {
    /// The kind of each path variable, in order; the length must equal the
    /// entry point's variable count.
    pub path_kinds: Vec<ScalarKind>,

    /// The named query fields.
    pub query_fields: Vec<QueryField>,
}

} // verus!
