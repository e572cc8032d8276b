//! Matching an actual path against a template: literal positions require
//! exact text equality, each variable position consumes exactly one actual
//! segment as a bound value (percent-decoded), and nothing may be left over.
use vstd::prelude::*;
use crate::error::{Error, ErrorKind};
use crate::path_template::{spec_var_count, PathSegment};
use crate::percent::{
    lemma_percent_round_trip, percent_decode, spec_percent_decode, spec_percent_encode,
};
use crate::procedure::{parse_scalar_chars, spec_parse_scalar, EntryPoint, Scalar, ScalarKind, ScalarVal};
use crate::serializers::url_path::spec_fill;
use crate::strutil::{chars_to_string, str_chars, str_eq};

verus! {

/// The values a template binds on an actual segment list, walked together:
/// literals must match exactly, each variable consumes one segment and
/// percent-decodes it, and both lists must end together.
pub open spec fn spec_match(segs: Seq<PathSegment>, actual: Seq<Seq<char>>) -> Option<
    Seq<Seq<char>>,
>
    decreases segs.len(),
{
    if segs.len() == 0 {
        if actual.len() == 0 {
            Some(Seq::empty())
        } else {
            None
        }
    } else if actual.len() == 0 {
        None
    } else {
        match segs[0] {
            PathSegment::Val(s) => if actual[0] == s@ {
                spec_match(segs.skip(1), actual.skip(1))
            } else {
                None
            },
            PathSegment::Var => match spec_percent_decode(actual[0]) {
                Some(v) => match spec_match(segs.skip(1), actual.skip(1)) {
                    Some(r) => Some(seq![v] + r),
                    None => None,
                },
                None => None,
            },
        }
    }
}

/// Matches an actual segment list against the template and returns the
/// decoded values bound at the variable slots, in declared order.
pub fn match_path(segments: &Vec<PathSegment>, actual: &Vec<String>) -> (r: Result<
    Vec<String>,
    Error,
>)
    ensures
        ({
            match r {
                Ok(out) => spec_match(segments@, actual.deep_view()) == Some(out.deep_view()),
                Err(e) => e.kind == ErrorKind::Invalid && spec_match(
                    segments@,
                    actual.deep_view(),
                ) is None,
            }
        }),
{
    let ghost av = actual.deep_view();
    let n: usize = segments.len();
    let na: usize = actual.len();
    let mut out: Vec<String> = Vec::new();
    let mut i: usize = 0;
    proof {
        assert(segments@.skip(0) =~= segments@);
        assert(av.skip(0) =~= av);
        assert(forall|t: Seq<Seq<char>>| #[trigger] (Seq::<Seq<char>>::empty() + t) =~= t);
    }
    while i < n
        invariant
            i <= n,
            i <= na,
            n == segments@.len(),
            na == av.len(),
            av == actual.deep_view(),
            spec_match(segments@, av) == (match spec_match(
                segments@.skip(i as int),
                av.skip(i as int),
            ) {
                Some(t) => Some(out.deep_view() + t),
                None => None::<Seq<Seq<char>>>,
            }),
        decreases n - i,
    {
        let ghost tail = segments@.skip(i as int);
        let ghost atail = av.skip(i as int);
        let ghost out0 = out.deep_view();
        proof {
            assert(tail[0] == segments@[i as int]);
            assert(tail.skip(1) =~= segments@.skip(i + 1));
        }
        if i == na {
            proof {
                assert(atail.len() == 0);
            }
            return Err(Error::invalid());
        }
        proof {
            assert(atail[0] == av[i as int]);
            assert(atail.skip(1) =~= av.skip(i + 1));
        }
        match segments[i] {
            PathSegment::Val(s) => {
                if !str_eq(actual[i].as_str(), s) {
                    return Err(Error::invalid());
                }
            },
            PathSegment::Var => {
                match percent_decode(actual[i].as_str()) {
                    Ok(v) => {
                        out.push(v);
                        proof {
                            let dv = spec_percent_decode(av[i as int]).unwrap();
                            assert(out.deep_view() =~= out0.push(dv));
                            assert(forall|t: Seq<Seq<char>>|
                                #[trigger] (out0.push(dv) + t) =~= out0 + (seq![dv] + t));
                        }
                    },
                    Err(_) => {
                        return Err(Error::invalid());
                    },
                }
            },
        }
        i = i + 1;
    }
    if i < na {
        proof {
            assert(segments@.skip(n as int) =~= Seq::<PathSegment>::empty());
            assert(av.skip(i as int).len() > 0);
        }
        return Err(Error::invalid());
    }
    proof {
        assert(segments@.skip(n as int) =~= Seq::<PathSegment>::empty());
        assert(av.skip(n as int) =~= Seq::<Seq<char>>::empty());
        assert(out.deep_view() + Seq::<Seq<char>>::empty() =~= out.deep_view());
    }
    Ok(out)
}

/// Path round-trip: filling any template with the right number of values
/// and matching the result back yields exactly the original values.
pub proof fn lemma_path_round_trip(segs: Seq<PathSegment>, vals: Seq<Seq<char>>)
    requires
        vals.len() == spec_var_count(segs),
    ensures
        spec_match(segs, spec_fill(segs, vals)) == Some(vals),
    decreases segs.len(),
{
    crate::path_template::lemma_var_count_bounds(segs);
    if segs.len() == 0 {
        assert(vals =~= Seq::<Seq<char>>::empty());
    } else {
        let tail = segs.skip(1);
        crate::path_template::lemma_var_count_bounds(tail);
        match segs[0] {
            PathSegment::Val(s) => {
                lemma_path_round_trip(tail, vals);
                let filled = spec_fill(segs, vals);
                assert(filled == seq![s@] + spec_fill(tail, vals));
                assert(filled[0] == s@);
                assert(filled.skip(1) =~= spec_fill(tail, vals));
            },
            PathSegment::Var => {
                lemma_path_round_trip(tail, vals.skip(1));
                lemma_percent_round_trip(vals[0]);
                let filled = spec_fill(segs, vals);
                assert(filled == seq![spec_percent_encode(vals[0])] + spec_fill(
                    tail,
                    vals.skip(1),
                ));
                assert(filled[0] == spec_percent_encode(vals[0]));
                assert(filled.skip(1) =~= spec_fill(tail, vals.skip(1)));
                assert(seq![vals[0]] + vals.skip(1) =~= vals);
            },
        }
    }
}

/// What a successful match certifies to the router: the matched segment
/// list is admitted by the template's key path (same length, literals
/// pinned, wildcards free).
pub proof fn lemma_match_admits(template: Seq<PathSegment>, segs: Seq<Seq<char>>)
    requires
        spec_match(template, segs) is Some,
    ensures
        crate::router::keys_admit(crate::path_template::seg_views(template), segs),
    decreases template.len(),
{
    let keys = crate::path_template::seg_views(template);
    if template.len() == 0 {
        assert(segs.len() == 0);
    } else {
        lemma_match_admits(template.skip(1), segs.skip(1));
        let tkeys = crate::path_template::seg_views(template.skip(1));
        assert(tkeys =~= keys.skip(1));
        assert(segs.len() == keys.len());
        assert forall|j: int| 0 <= j < keys.len() implies ((#[trigger] keys[j]) matches Some(t)
            ==> segs[j] == t) by {
            if j == 0 {
                assert(keys[0] == template[0].spec_val());
            } else {
                assert(keys[j] == tkeys[j - 1]);
                assert(segs[j] == segs.skip(1)[j - 1]);
            }
        }
    }
}

proof fn lemma_join_rest_len(segs: Seq<Seq<char>>)
    ensures
        crate::serializers::rpc_request::spec_join_rest(segs).len() >= segs.len(),
        segs.len() > 0 ==> crate::serializers::rpc_request::spec_join_rest(segs).len() >= 1
            + segs[0].len() + segs.len() - 1,
    decreases segs.len(),
{
    if segs.len() > 0 {
        lemma_join_rest_len(segs.skip(1));
    }
}

proof fn lemma_split_slash_join(segs: Seq<Seq<char>>)
    requires
        segs.len() > 0,
        forall|i: int, j: int|
            0 <= i < segs.len() && 0 <= j < segs[i].len() ==> (#[trigger] segs[i][j]) != '/',
    ensures
        spec_split_slash(
            crate::serializers::rpc_request::spec_join_rest(segs).skip(1),
        ) == segs,
    decreases segs.len(),
{
    let joined = crate::serializers::rpc_request::spec_join_rest(segs);
    let t = joined.skip(1);
    let head = segs[0];
    let rest = crate::serializers::rpc_request::spec_join_rest(segs.skip(1));
    assert(t =~= head + rest);
    lemma_slash_idx(t);
    if segs.len() == 1 {
        assert(rest =~= Seq::<char>::empty());
        assert(t =~= head);
        assert(slash_idx(t) == -1) by {
            if slash_idx(t) >= 0 {
                assert(t[slash_idx(t)] == '/');
                assert(segs[0][slash_idx(t)] == '/');
            }
        }
        assert(spec_split_slash(t) =~= seq![head]);
        assert(seq![head] =~= segs);
    } else {
        lemma_split_slash_join(segs.skip(1));
        assert(rest[0] == '/');
        assert(t[head.len() as int] == '/');
        assert(forall|k: int| 0 <= k < head.len() ==> t[k] == segs[0][k]);
        assert(slash_idx(t) == head.len()) by {
            if slash_idx(t) < head.len() {
                assert(t[slash_idx(t)] == '/');
                assert(segs[0][slash_idx(t)] == '/');
            }
        }
        assert(t.subrange(0, head.len() as int) =~= head);
        assert(t.subrange(head.len() + 1int, t.len() as int) =~= rest.skip(1));
        assert(seq![head] + segs.skip(1) =~= segs);
    }
}

/// Transport round-trip for paths: joining non-empty, separator-free
/// segments into one path string and splitting that string reads the same
/// segments back.  (The root path `/` stands for no segments, so the single
/// empty segment is the one list this cannot hold of.)
pub proof fn lemma_split_join_path(segs: Seq<Seq<char>>)
    requires
        forall|i: int, j: int|
            0 <= i < segs.len() && 0 <= j < segs[i].len() ==> (#[trigger] segs[i][j]) != '/',
        segs != seq![Seq::<char>::empty()],
    ensures
        spec_path_segments(crate::serializers::rpc_request::spec_join_path(segs)) == segs,
{
    let path = crate::serializers::rpc_request::spec_join_path(segs);
    if segs.len() == 0 {
        assert(path == seq!['/']);
        assert(spec_path_segments(path) =~= Seq::<Seq<char>>::empty());
        assert(spec_path_segments(path) =~= segs);
    } else {
        lemma_join_rest_len(segs);
        let joined = crate::serializers::rpc_request::spec_join_rest(segs);
        assert(path == joined);
        assert(path[0] == '/');
        assert(path != seq!['/']) by {
            if path == seq!['/'] {
                assert(joined.len() == 1);
                assert(segs[0].len() == 0 && segs.len() == 1);
                assert(segs =~~= seq![Seq::<char>::empty()]);
            }
        }
        lemma_split_slash_join(segs);
        assert(spec_path_segments(path) == spec_split_slash(path.skip(1)));
    }
}

proof fn lemma_fill_len(segs: Seq<PathSegment>, vals: Seq<Seq<char>>)
    ensures
        spec_fill(segs, vals).len() == segs.len(),
    decreases segs.len(),
{
    if segs.len() > 0 {
        match segs[0] {
            PathSegment::Val(_) => {
                lemma_fill_len(segs.skip(1), vals);
            },
            PathSegment::Var => {
                lemma_fill_len(segs.skip(1), vals.skip(1));
            },
        }
    }
}

proof fn lemma_fill_no_slash(segs: Seq<PathSegment>, vals: Seq<Seq<char>>)
    requires
        crate::path_template::wf_literals(segs),
    ensures
        forall|i: int, j: int|
            0 <= i < spec_fill(segs, vals).len() && 0 <= j < spec_fill(segs, vals)[i].len() ==> (
            #[trigger] spec_fill(segs, vals)[i][j]) != '/',
    decreases segs.len(),
{
    if segs.len() > 0 {
        let filled = spec_fill(segs, vals);
        assert(crate::path_template::seg_ok(segs[0]));
        assert(crate::path_template::wf_literals(segs.skip(1))) by {
            assert(forall|i: int|
                0 <= i < segs.skip(1).len() ==> (#[trigger] segs.skip(1)[i]) == segs[i + 1]);
        }
        let tailvals = (match segs[0] {
            PathSegment::Val(_) => vals,
            PathSegment::Var => vals.skip(1),
        });
        let tailfill = spec_fill(segs.skip(1), tailvals);
        match segs[0] {
            PathSegment::Val(_) => {
                lemma_fill_no_slash(segs.skip(1), vals);
            },
            PathSegment::Var => {
                lemma_fill_no_slash(segs.skip(1), vals.skip(1));
                crate::percent::lemma_encode_no_slash(vals[0]);
            },
        }
        assert forall|i: int, j: int|
            0 <= i < filled.len() && 0 <= j < filled[i].len() implies (#[trigger] filled[i][j])
            != '/' by {
            if i == 0 {
                match segs[0] {
                    PathSegment::Val(s) => {
                        assert(filled[0] == s@);
                    },
                    PathSegment::Var => {
                        assert(filled[0] == crate::percent::spec_percent_encode(vals[0]));
                    },
                }
            } else {
                assert(filled[i] == tailfill[i - 1]);
                assert(tailfill[i - 1][j] != '/');
            }
        }
    }
}

/// Wire-level path round-trip: filling a well-formed template with the
/// right number of values, joining the segments into one path string,
/// splitting that string back and matching it against the same template
/// returns exactly the original values.  The one shape left out is a
/// template of a single variable bound to the empty value, whose path would
/// be the root path `/`.
pub proof fn lemma_wire_path_round_trip(segs: Seq<PathSegment>, vals: Seq<Seq<char>>)
    requires
        crate::path_template::wf_literals(segs),
        vals.len() == spec_var_count(segs),
        !(segs.len() == 1 && segs[0] is Var && vals[0].len() == 0),
    ensures
        spec_match(
            segs,
            spec_path_segments(
                crate::serializers::rpc_request::spec_join_path(spec_fill(segs, vals)),
            ),
        ) == Some(vals),
{
    let filled = spec_fill(segs, vals);
    lemma_fill_len(segs, vals);
    lemma_fill_no_slash(segs, vals);
    assert(filled != seq![Seq::<char>::empty()]) by {
        if filled == seq![Seq::<char>::empty()] {
            assert(segs.len() == 1);
            crate::path_template::lemma_var_count_bounds(segs);
            match segs[0] {
                PathSegment::Val(s) => {
                    assert(crate::path_template::seg_ok(segs[0]));
                    assert(filled[0] == s@);
                },
                PathSegment::Var => {
                    assert(filled[0] == crate::percent::spec_percent_encode(vals[0]));
                    crate::percent::lemma_encode_no_slash(vals[0]);
                    assert(vals[0].len() == 0);
                },
            }
        }
    }
    lemma_split_join_path(filled);
    lemma_path_round_trip(segs, vals);
}

/// Typed path round-trip: filling a template with any tuple of scalars, one
/// per variable, then matching the result back and parsing each bound value
/// under its own kind, returns exactly the original tuple.
pub proof fn lemma_typed_path_round_trip(segs: Seq<PathSegment>, vals: Seq<ScalarVal>)
    requires
        vals.len() == spec_var_count(segs),
        forall|i: int| 0 <= i < vals.len() ==> (#[trigger] vals[i]).wf(),
    ensures
        ({
            let texts = vals.map_values(|v: ScalarVal| crate::procedure::spec_scalar_chars(v));
            let kinds = vals.map_values(|v: ScalarVal| v.kind());
            &&& spec_match(segs, spec_fill(segs, texts)) == Some(texts)
            &&& spec_parse_path_values(kinds, texts) == Some(vals)
        }),
{
    let texts = vals.map_values(|v: ScalarVal| crate::procedure::spec_scalar_chars(v));
    let kinds = vals.map_values(|v: ScalarVal| v.kind());
    lemma_path_round_trip(segs, texts);
    lemma_parse_scalar_values(vals);
}

proof fn lemma_parse_scalar_values(vals: Seq<ScalarVal>)
    requires
        forall|i: int| 0 <= i < vals.len() ==> (#[trigger] vals[i]).wf(),
    ensures
        spec_parse_path_values(
            vals.map_values(|v: ScalarVal| v.kind()),
            vals.map_values(|v: ScalarVal| crate::procedure::spec_scalar_chars(v)),
        ) == Some(vals),
    decreases vals.len(),
{
    let texts = vals.map_values(|v: ScalarVal| crate::procedure::spec_scalar_chars(v));
    let kinds = vals.map_values(|v: ScalarVal| v.kind());
    if vals.len() == 0 {
        assert(vals =~= Seq::<ScalarVal>::empty());
    } else {
        crate::procedure::lemma_scalar_round_trip(vals[0]);
        lemma_parse_scalar_values(vals.skip(1));
        let vtail = vals.skip(1);
        assert(vtail.map_values(|v: ScalarVal| v.kind()) =~= kinds.skip(1));
        assert(vtail.map_values(|v: ScalarVal| crate::procedure::spec_scalar_chars(v)) =~= texts.skip(
            1,
        ));
        assert(spec_parse_scalar(kinds[0], texts[0]) == Some(vals[0]));
        assert(seq![vals[0]] + vals.skip(1) =~= vals);
    }
}

/// `Deserializer` for URL paths: matches the actual segments against the
/// entry point at construction, then hands the bound values out in declared
/// order.
pub struct UrlPathDeserializer {
    /// The decoded values bound at the variable slots.
    pub values: Vec<String>,

    /// How many values have been handed out.
    pub index: usize,
}

impl UrlPathDeserializer {
    /// Makes a new `UrlPathDeserializer` instance; fails exactly when the
    /// segments do not match the entry point.
    pub fn new(entry_point: &EntryPoint, segments: &Vec<String>) -> (r: Result<
        UrlPathDeserializer,
        Error,
    >)
        ensures
            ({
                match r {
                    Ok(d) => spec_match(entry_point@, segments.deep_view()) == Some(
                        d.values.deep_view(),
                    ) && d.index == 0,
                    Err(e) => e.kind == ErrorKind::Invalid && spec_match(
                        entry_point@,
                        segments.deep_view(),
                    ) is None,
                }
            }),
    {
        match match_path(entry_point.segments(), segments) {
            Ok(values) => Ok(UrlPathDeserializer { values, index: 0 }),
            Err(e) => Err(e),
        }
    }

    /// Whether every bound value has been handed out.
    pub fn is_end_of_segment(&self) -> (r: bool)
        ensures
            r == (self.index >= self.values@.len()),
    {
        self.index >= self.values.len()
    }

    /// Hands out the next bound value, in declared order.
    pub fn next_value(&mut self) -> (r: Result<String, Error>)
        ensures
            ({
                match r {
                    Ok(v) => old(self).index < old(self).values@.len() && v@ == old(
                        self,
                    ).values.deep_view()[old(self).index as int] && final(self).index == old(
                        self,
                    ).index + 1 && final(self).values == old(self).values,
                    Err(e) => e.kind == ErrorKind::Invalid && old(self).index >= old(
                        self,
                    ).values@.len() && *final(self) == *old(self),
                }
            }),
    {
        if self.index < self.values.len() {
            let v = self.values[self.index].clone();
            self.index = self.index + 1;
            Ok(v)
        } else {
            Err(Error::invalid())
        }
    }

    /// Checks that nothing bound is left over.
    pub fn finish(&self) -> (r: Result<(), Error>)
        ensures
            ({
                match r {
                    Ok(_) => self.index >= self.values@.len(),
                    Err(e) => e.kind == ErrorKind::Invalid && self.index < self.values@.len(),
                }
            }),
    {
        if self.index >= self.values.len() {
            Ok(())
        } else {
            Err(Error::invalid())
        }
    }
}

/// The index of the first `/` in a string, or `-1`.
pub open spec fn slash_idx(s: Seq<char>) -> int
    decreases s.len(),
{
    if s.len() == 0 {
        -1
    } else if s[0] == '/' {
        0
    } else {
        let r = slash_idx(s.skip(1));
        if r == -1 {
            -1
        } else {
            r + 1
        }
    }
}

/// The found index is in range, holds a `/`, and is the first one.
pub proof fn lemma_slash_idx(s: Seq<char>)
    ensures
        ({
            let j = slash_idx(s);
            &&& -1 <= j < s.len()
            &&& j >= 0 ==> s[j] == '/'
            &&& forall|k: int| 0 <= k < s.len() && s[k] == '/' ==> j >= 0 && j <= k
        }),
    decreases s.len(),
{
    if s.len() > 0 {
        lemma_slash_idx(s.skip(1));
        assert(forall|k: int| 1 <= k < s.len() ==> s.skip(1)[k - 1] == s[k]);
    }
}

/// A string split at every `/`; a string without one is a single segment.
pub open spec fn spec_split_slash(s: Seq<char>) -> Seq<Seq<char>>
    decreases s.len(),
{
    let j = slash_idx(s);
    if j < 0 || j >= s.len() {
        seq![s]
    } else {
        seq![s.subrange(0, j)] + spec_split_slash(s.subrange(j + 1, s.len() as int))
    }
}

/// The segments of a path string: what follows the leading `/`, split at
/// every further `/`; the root path `/` has no segments.
pub open spec fn spec_path_segments(path: Seq<char>) -> Seq<Seq<char>> {
    if path == seq!['/'] {
        Seq::empty()
    } else if path.len() > 0 && path[0] == '/' {
        spec_split_slash(path.skip(1))
    } else {
        spec_split_slash(path)
    }
}

/// Splits a path string into its segments.
pub fn split_path(path: &str) -> (r: Vec<String>)
    ensures
        r.deep_view() == spec_path_segments(path@),
{
    let cs = str_chars(path);
    let n: usize = cs.len();
    let mut out: Vec<String> = Vec::new();
    if n == 1 && cs[0] == '/' {
        proof {
            assert(path@ =~= seq!['/']);
            assert(out.deep_view() =~= Seq::<Seq<char>>::empty());
        }
        return out;
    }
    let start: usize = if n > 0 && cs[0] == '/' {
        1
    } else {
        0
    };
    let ghost whole = path@.skip(start as int);
    let mut st: usize = start;
    let mut cur: Vec<char> = Vec::new();
    let mut i: usize = start;
    proof {
        assert(path@.skip(start as int) =~= whole);
        assert(forall|t: Seq<Seq<char>>| #[trigger] (Seq::<Seq<char>>::empty() + t) =~= t);
    }
    while i < n
        invariant
            start <= st <= i <= n,
            n == cs@.len(),
            cs@ == path@,
            whole == path@.skip(start as int),
            cur@ == path@.subrange(st as int, i as int),
            forall|k: int| st <= k < i ==> path@[k] != '/',
            spec_split_slash(whole) == (out.deep_view() + spec_split_slash(
                path@.skip(st as int),
            )),
        decreases n - i,
    {
        let ghost tail = path@.skip(st as int);
        let c = cs[i];
        if c == '/' {
            let ghost out0 = out.deep_view();
            let seg = chars_to_string(&cur);
            out.push(seg);
            cur = Vec::new();
            proof {
                assert(forall|k: int| 0 <= k < i - st ==> tail[k] == path@[st + k]);
                assert(tail[i - st] == '/');
                lemma_slash_idx(tail);
                assert(slash_idx(tail) == i - st) by {
                    if slash_idx(tail) < i - st {
                        assert(tail[slash_idx(tail)] == '/');
                    }
                }
                assert(tail.subrange(0, i - st) =~= path@.subrange(st as int, i as int));
                assert(tail.subrange(i - st + 1, tail.len() as int) =~= path@.skip(i + 1));
                assert(out.deep_view() =~= out0.push(path@.subrange(st as int, i as int)));
                assert(forall|t: Seq<Seq<char>>|
                    #[trigger] (out0.push(path@.subrange(st as int, i as int)) + t) =~= out0 + (
                    seq![path@.subrange(st as int, i as int)] + t));
                assert(cur@ =~= path@.subrange(i + 1, i + 1));
            }
            st = i + 1;
        } else {
            cur.push(c);
            proof {
                assert(cur@ =~= path@.subrange(st as int, i + 1));
            }
        }
        i = i + 1;
    }
    let ghost tail = path@.skip(st as int);
    let ghost out0 = out.deep_view();
    let seg = chars_to_string(&cur);
    out.push(seg);
    proof {
        assert(forall|k: int| 0 <= k < tail.len() ==> tail[k] == path@[st + k]);
        lemma_slash_idx(tail);
        assert(slash_idx(tail) == -1) by {
            if slash_idx(tail) >= 0 {
                assert(tail[slash_idx(tail)] == '/');
            }
        }
        assert(tail =~= path@.subrange(st as int, n as int));
        assert(spec_split_slash(tail) =~= seq![tail]);
        assert(out.deep_view() =~= out0.push(tail));
        assert(out0.push(tail) =~= out0 + seq![tail]);
        assert(out.deep_view() =~= spec_split_slash(whole));
        if n == 0 {
            assert(path@ =~= Seq::<char>::empty());
            assert(!(path@ == seq!['/']));
            assert(spec_path_segments(path@) == spec_split_slash(path@));
            assert(whole =~= path@);
        } else if path@[0] == '/' {
            assert(path@.len() != 1);
            assert(path@ != seq!['/']) by {
                if path@ == seq!['/'] {
                    assert(path@.len() == 1);
                }
            }
            assert(spec_path_segments(path@) == spec_split_slash(path@.skip(1)));
        } else {
            assert(path@[0] != '/');
            assert(path@ != seq!['/']) by {
                if path@ == seq!['/'] {
                    assert(path@[0] == '/');
                }
            }
            assert(whole =~= path@);
            assert(spec_path_segments(path@) == spec_split_slash(path@));
        }
    }
    out
}

/// What an escaped wire string denotes under a declared kind: it must
/// percent-decode, and the decoded text must denote a value of the kind.
pub open spec fn spec_parse_escaped(kind: ScalarKind, s: Seq<char>) -> Option<ScalarVal> {
    match spec_percent_decode(s) {
        Some(d) => spec_parse_scalar(kind, d),
        None => None,
    }
}

/// Percent-decodes a wire string and parses it as a scalar of the declared
/// kind.
pub fn parse_escaped_str(kind: ScalarKind, s: &str) -> (r: Result<Scalar, Error>)
    ensures
        ({
            match r {
                Ok(v) => spec_parse_escaped(kind, s@) == Some(v@),
                Err(e) => e.kind == ErrorKind::Invalid && spec_parse_escaped(kind, s@) is None,
            }
        }),
{
    match percent_decode(s) {
        Ok(d) => {
            let cs = str_chars(d.as_str());
            parse_scalar_chars(kind, &cs)
        },
        Err(e) => Err(e),
    }
}

/// What a list of decoded path values denotes under the declared kinds:
/// value by value, in order, all of them or nothing.
pub open spec fn spec_parse_path_values(kinds: Seq<ScalarKind>, raws: Seq<Seq<char>>) -> Option<
    Seq<ScalarVal>,
>
    decreases kinds.len(),
{
    if kinds.len() != raws.len() {
        None
    } else if kinds.len() == 0 {
        Some(Seq::empty())
    } else {
        match spec_parse_scalar(kinds[0], raws[0]) {
            Some(v) => match spec_parse_path_values(kinds.skip(1), raws.skip(1)) {
                Some(r) => Some(seq![v] + r),
                None => None,
            },
            None => None,
        }
    }
}

/// Parses the decoded path values under the declared kinds.
pub fn decode_path_values(kinds: &Vec<ScalarKind>, raws: &Vec<String>) -> (r: Result<
    Vec<Scalar>,
    Error,
>)
    ensures
        ({
            match r {
                Ok(out) => spec_parse_path_values(kinds@, raws.deep_view()) == Some(
                    out.deep_view(),
                ),
                Err(e) => e.kind == ErrorKind::Invalid && spec_parse_path_values(
                    kinds@,
                    raws.deep_view(),
                ) is None,
            }
        }),
{
    let ghost rv = raws.deep_view();
    let n: usize = kinds.len();
    if n != raws.len() {
        return Err(Error::invalid());
    }
    let mut out: Vec<Scalar> = Vec::new();
    let mut i: usize = 0;
    proof {
        assert(kinds@.skip(0) =~= kinds@);
        assert(rv.skip(0) =~= rv);
        assert(forall|t: Seq<ScalarVal>| #[trigger] (Seq::<ScalarVal>::empty() + t) =~= t);
    }
    while i < n
        invariant
            i <= n,
            n == kinds@.len(),
            n == rv.len(),
            rv == raws.deep_view(),
            spec_parse_path_values(kinds@, rv) == (match spec_parse_path_values(
                kinds@.skip(i as int),
                rv.skip(i as int),
            ) {
                Some(t) => Some(out.deep_view() + t),
                None => None::<Seq<ScalarVal>>,
            }),
        decreases n - i,
    {
        let ghost ktail = kinds@.skip(i as int);
        let ghost rtail = rv.skip(i as int);
        let ghost out0 = out.deep_view();
        proof {
            assert(ktail[0] == kinds@[i as int]);
            assert(ktail.skip(1) =~= kinds@.skip(i + 1));
            assert(rtail[0] == rv[i as int]);
            assert(rtail.skip(1) =~= rv.skip(i + 1));
        }
        let cs = str_chars(raws[i].as_str());
        match parse_scalar_chars(kinds[i], &cs) {
            Ok(v) => {
                let ghost vv = v@;
                out.push(v);
                proof {
                    assert(out.deep_view() =~= out0.push(vv));
                    assert(forall|t: Seq<ScalarVal>|
                        #[trigger] (out0.push(vv) + t) =~= out0 + (seq![vv] + t));
                }
            },
            Err(_) => {
                return Err(Error::invalid());
            },
        }
        i = i + 1;
    }
    proof {
        assert(kinds@.skip(n as int) =~= Seq::<ScalarKind>::empty());
        assert(rv.skip(n as int) =~= Seq::<Seq<char>>::empty());
        assert(out.deep_view() + Seq::<ScalarVal>::empty() =~= out.deep_view());
    }
    Ok(out)
}

} // verus!
