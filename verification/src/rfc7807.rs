//! "Problem Details for HTTP APIs (RFC 7807)" related components: the
//! structured payload a server answers with when a request cannot be
//! dispatched or decoded.
//!
//! The payload is framed here as JSON text by a verified emitter; reading a
//! problem body back into a structured value is left to the embedding
//! program.
use vstd::prelude::*;
use crate::error::Error;
use crate::procedure::RpcResponse;
use crate::strutil::{chars_to_string, spec_u64_digits, str_chars, u64_to_dec_chars};
use crate::types::HttpStatus;
use vstd::string::StrSliceExecFns;

verus! {

/// How one character is written inside a JSON string.
pub open spec fn spec_escape_char(c: char) -> Seq<char> {
    if c == '"' {
        seq!['\\', '"']
    } else if c == '\\' {
        seq!['\\', '\\']
    } else if c == '\n' {
        seq!['\\', 'n']
    } else if c == '\r' {
        seq!['\\', 'r']
    } else if c == '\t' {
        seq!['\\', 't']
    } else {
        seq![c]
    }
}

/// A string escaped for a JSON string literal.
pub open spec fn spec_json_escape(s: Seq<char>) -> Seq<char>
    decreases s.len(),
{
    if s.len() == 0 {
        Seq::empty()
    } else {
        spec_escape_char(s[0]) + spec_json_escape(s.skip(1))
    }
}

proof fn lemma_json_escape_append(s1: Seq<char>, s2: Seq<char>)
    ensures
        spec_json_escape(s1 + s2) == spec_json_escape(s1) + spec_json_escape(s2),
    decreases s1.len(),
{
    if s1.len() == 0 {
        assert(s1 + s2 =~= s2);
        assert(spec_json_escape(s1) + spec_json_escape(s2) =~= spec_json_escape(s2));
    } else {
        lemma_json_escape_append(s1.skip(1), s2);
        let t = s1 + s2;
        assert(t[0] == s1[0]);
        assert(t.skip(1) =~= s1.skip(1) + s2);
        assert(spec_escape_char(s1[0]) + (spec_json_escape(s1.skip(1)) + spec_json_escape(s2))
            =~= (spec_escape_char(s1[0]) + spec_json_escape(s1.skip(1))) + spec_json_escape(s2));
    }
}

fn push_escaped(c: char, out: &mut Vec<char>)
    ensures
        final(out)@ == old(out)@ + spec_escape_char(c),
{
    if c == '"' {
        out.push('\\');
        out.push('"');
    } else if c == '\\' {
        out.push('\\');
        out.push('\\');
    } else if c == '\n' {
        out.push('\\');
        out.push('n');
    } else if c == '\r' {
        out.push('\\');
        out.push('r');
    } else if c == '\t' {
        out.push('\\');
        out.push('t');
    } else {
        out.push(c);
    }
    proof {
        assert(out@ =~= old(out)@ + spec_escape_char(c));
    }
}

/// Appends a string escaped for a JSON string literal.
fn append_escaped(s: &str, out: &mut Vec<char>)
    ensures
        final(out)@ == old(out)@ + spec_json_escape(s@),
{
    let cs = str_chars(s);
    let n: usize = cs.len();
    let mut i: usize = 0;
    proof {
        assert(s@.subrange(0, 0) =~= Seq::<char>::empty());
        assert(spec_json_escape(Seq::<char>::empty()) =~= Seq::<char>::empty());
        assert(old(out)@ + Seq::<char>::empty() =~= old(out)@);
    }
    while i < n
        invariant
            i <= n,
            n == cs@.len(),
            cs@ == s@,
            out@ == old(out)@ + spec_json_escape(s@.subrange(0, i as int)),
        decreases n - i,
    {
        let ghost pre = s@.subrange(0, i as int);
        push_escaped(cs[i], out);
        proof {
            assert(s@.subrange(0, i + 1) =~= pre + seq![s@[i as int]]);
            lemma_json_escape_append(pre, seq![s@[i as int]]);
            assert(seq![s@[i as int]].skip(1) =~= Seq::<char>::empty());
            assert(spec_json_escape(Seq::<char>::empty()) =~= Seq::<char>::empty());
            assert(spec_json_escape(seq![s@[i as int]]) =~= spec_escape_char(s@[i as int]));
            assert((old(out)@ + spec_json_escape(pre)) + spec_escape_char(s@[i as int]) =~= old(
                out,
            )@ + (spec_json_escape(pre) + spec_escape_char(s@[i as int])));
        }
        i = i + 1;
    }
    proof {
        assert(s@.subrange(0, n as int) =~= s@);
    }
}

fn append_literal(s: &str, out: &mut Vec<char>)
    ensures
        final(out)@ == old(out)@ + s@,
{
    let mut cs = str_chars(s);
    out.append(&mut cs);
}

/// "about:blank" problem type: the status's own reason phrase as the title.
#[derive(Debug, Clone)]
pub struct AboutBlankProblem {
    /// The title of this problem.
    pub title: String,

    /// The status of this problem.
    pub status: u16,
}

impl AboutBlankProblem {
    /// Makes a new `AboutBlankProblem` instance.
    pub fn new(status: HttpStatus) -> (r: AboutBlankProblem)
        ensures
            r.title@ == status.spec_reason(),
            r.status == status.spec_code(),
    {
        AboutBlankProblem { title: status.reason_phrase().to_owned(), status: status.code() }
    }
}

/// A problem type which represents tracked errors of this crate.
#[derive(Debug, Clone)]
pub struct TrackableProblem {
    /// The title of this problem.
    pub title: String,

    /// The status of this problem.
    pub status: u16,

    /// The detail information of this problem.
    pub detail: Option<String>,

    /// The instance URI of this problem.
    pub instance: Option<String>,

    /// The tracking history of this problem.
    pub history: Option<Vec<String>>,
}

impl TrackableProblem {
    /// Makes a new `TrackableProblem` instance from one of this crate's
    /// errors.
    pub fn new(status: HttpStatus, error: Error) -> (r: TrackableProblem)
        ensures
            r.title@ == error.spec_describe(),
            r.status == status.spec_code(),
            r.detail is None,
            r.instance is None,
            r.history is None,
    {
        TrackableProblem {
            title: error.describe().to_owned(),
            status: status.code(),
            detail: None,
            instance: None,
            history: None,
        }
    }
}

/// Problem: the closed set of problem payload shapes.
#[derive(Debug, Clone)]
pub enum Problem {
    /// `type = "about:blank"`.
    AboutBlank(AboutBlankProblem),

    /// A tracked error of this crate.
    Trackable(TrackableProblem),
}

/// The JSON text of a problem payload.
pub open spec fn spec_problem_json(p: Problem) -> Seq<char> {
    match p {
        Problem::AboutBlank(a) => ("{\n  \"type\": \"about:blank\",\n  \"title\": \"")@
            + spec_json_escape(a.title@) + ("\",\n  \"status\": ")@ + spec_u64_digits(
            a.status as nat,
        ) + ("\n}")@,
        Problem::Trackable(t) => ("{\n  \"type\": \"urn:error\",\n  \"title\": \"")@
            + spec_json_escape(t.title@) + ("\",\n  \"status\": ")@ + spec_u64_digits(
            t.status as nat,
        ) + (match t.detail {
            Some(d) => (",\n  \"detail\": \"")@ + spec_json_escape(d@) + ("\"")@,
            None => Seq::<char>::empty(),
        }) + ("\n}")@,
    }
}

impl Problem {
    /// Makes a new `AboutBlankProblem` problem.
    pub fn about_blank(status: HttpStatus) -> (r: Problem)
        ensures
            r matches Problem::AboutBlank(a) && a.title@ == status.spec_reason() && a.status
                == status.spec_code(),
    {
        Problem::AboutBlank(AboutBlankProblem::new(status))
    }

    /// Makes a new `TrackableProblem` problem.
    pub fn trackable(status: HttpStatus, error: Error) -> (r: Problem)
        ensures
            r matches Problem::Trackable(t) && t.title@ == error.spec_describe() && t.status
                == status.spec_code() && t.detail is None,
    {
        Problem::Trackable(TrackableProblem::new(status, error))
    }

    /// The status code this problem carries.
    pub fn get_status_code(&self) -> (r: u16)
        ensures
            ({
                match self {
                    Problem::AboutBlank(a) => r == a.status,
                    Problem::Trackable(t) => r == t.status,
                }
            }),
    {
        match self {
            Problem::AboutBlank(a) => a.status,
            Problem::Trackable(t) => t.status,
        }
    }

    /// Writes this problem as JSON text.
    pub fn to_json(&self) -> (r: String)
        ensures
            r@ == spec_problem_json(*self),
    {
        let mut out: Vec<char> = Vec::new();
        match self {
            Problem::AboutBlank(a) => {
                append_literal("{\n  \"type\": \"about:blank\",\n  \"title\": \"", &mut out);
                append_escaped(a.title.as_str(), &mut out);
                append_literal("\",\n  \"status\": ", &mut out);
                let mut digits = u64_to_dec_chars(a.status as u64);
                out.append(&mut digits);
                append_literal("\n}", &mut out);
                proof {
                    assert(out@ =~= spec_problem_json(*self));
                }
            },
            Problem::Trackable(t) => {
                append_literal("{\n  \"type\": \"urn:error\",\n  \"title\": \"", &mut out);
                append_escaped(t.title.as_str(), &mut out);
                append_literal("\",\n  \"status\": ", &mut out);
                let mut digits = u64_to_dec_chars(t.status as u64);
                out.append(&mut digits);
                match &t.detail {
                    Some(d) => {
                        append_literal(",\n  \"detail\": \"", &mut out);
                        append_escaped(d.as_str(), &mut out);
                        append_literal("\"", &mut out);
                    },
                    None => {
                    },
                }
                append_literal("\n}", &mut out);
                proof {
                    assert(out@ =~= spec_problem_json(*self));
                }
            },
        }
        chars_to_string(&out)
    }

    /// Converts into `ProblemResponse`.
    pub fn into_response(self) -> (r: ProblemResponse)
        ensures
            ({
                match self {
                    Problem::AboutBlank(a) => r.status == Some(a.status),
                    Problem::Trackable(t) => r.status == Some(t.status),
                }
            }),
            r.body == self,
            r.header.content_type@ == ("application/problem+json")@,
    {
        ProblemResponse::new(self)
    }
}

impl Default for Problem {
    /// The fallback problem: an internal server error.
    fn default() -> (r: Problem)
        ensures
            r matches Problem::AboutBlank(a) && a.status
                == HttpStatus::InternalServerError.spec_code(),
    {
        Problem::about_blank(HttpStatus::InternalServerError)
    }
}

/// The fixed header of a problem response.
#[derive(Debug, Clone)]
pub struct ProblemHeader {
    /// The content type of a problem payload.
    pub content_type: &'static str,
}

impl ProblemHeader {
    /// Makes a new `ProblemHeader` instance.
    pub fn new() -> (r: ProblemHeader)
        ensures
            r.content_type@ == ("application/problem+json")@,
    {
        ProblemHeader { content_type: "application/problem+json" }
    }
}

/// An RPC response that conforms to the problem-details payload shape.
///
/// This is created by calling the `Problem::into_response` method.
#[derive(Debug, Clone)]
pub struct ProblemResponse {
    /// The status code, as the wire codec reads it.
    pub status: Option<u16>,

    /// The fixed content-type header.
    pub header: ProblemHeader,

    /// The problem payload.
    pub body: Problem,
}

impl ProblemResponse {
    fn new(body: Problem) -> (r: ProblemResponse)
        ensures
            ({
                match body {
                    Problem::AboutBlank(a) => r.status == Some(a.status),
                    Problem::Trackable(t) => r.status == Some(t.status),
                }
            }),
            r.body == body,
            r.header.content_type@ == ("application/problem+json")@,
    {
        let code = body.get_status_code();
        ProblemResponse { status: Some(code), header: ProblemHeader::new(), body }
    }

    /// Returns the `Problem` instance of this response.
    pub fn problem(&self) -> (r: &Problem)
        ensures
            *r == self.body,
    {
        &self.body
    }

    /// Sets the `Problem` instance of this response.
    pub fn set_problem(&mut self, problem: Problem)
        ensures
            final(self).body == problem,
            final(self).status == old(self).status,
            final(self).header == old(self).header,
    {
        self.body = problem;
    }
}

impl RpcResponse for ProblemResponse {
    /// The JSON bytes of the problem payload: the UTF-8 encoding of its
    /// JSON text, leaving the response itself untouched.
    fn body(&mut self) -> (r: Vec<u8>)
        ensures
            r@ == vstd::utf8::encode_utf8(spec_problem_json(old(self).body)),
            *final(self) == *old(self),
    {
        let json = self.body.to_json();
        json.as_str().as_bytes_vec()
    }

    /// Reading a problem payload back into a structured value is left to
    /// the embedding program; the bytes are dropped and the response is
    /// untouched.
    fn set_body(&mut self, body: Vec<u8>)
        ensures
            *final(self) == *old(self),
    {
        let _ = body;
    }
}

} // verus!
