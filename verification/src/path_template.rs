//! Path templates: the ordered segment shape of one route, each segment
//! either a literal or a variable.
use vstd::prelude::*;
use crate::strutil::str_eq;

verus! {

/// Path segment which is used for constructing path templates.
#[derive(Debug, Clone, Copy, Hash)]
pub enum PathSegment {
    /// Value (i.e., constant) segment.
    Val(&'static str),

    /// Variable (i.e., wildcard) segment.
    Var,
}

impl PathSegment {
    /// The literal text of this segment, or nothing for a variable.
    pub open spec fn spec_val(self) -> Option<Seq<char>> {
        match self {
            PathSegment::Val(s) => Some(s@),
            PathSegment::Var => None,
        }
    }

    /// Converts to `Option`.
    pub fn as_option(&self) -> (r: Option<&'static str>)
        ensures
            ({
                match r {
                    Some(s) => self.spec_val() == Some(s@),
                    None => self.spec_val() is None,
                }
            }),
    {
        if let PathSegment::Val(s) = *self {
            Some(s)
        } else {
            None
        }
    }
}

impl PartialEq for PathSegment {
    fn eq(&self, other: &PathSegment) -> (r: bool) {
        match (self, other) {
            (PathSegment::Val(a), PathSegment::Val(b)) => str_eq(a, b),
            (PathSegment::Var, PathSegment::Var) => true,
            _ => false,
        }
    }
}

impl vstd::std_specs::cmp::PartialEqSpecImpl for PathSegment {
    open spec fn obeys_eq_spec() -> bool {
        true
    }

    open spec fn eq_spec(&self, other: &PathSegment) -> bool {
        self.spec_val() == other.spec_val()
    }
}

impl Eq for PathSegment {

}

/// Whether one segment can stand in a path: a literal must be non-empty
/// and free of the path separator; a variable always can (its values are
/// escaped).
pub open spec fn seg_ok(s: PathSegment) -> bool {
    match s {
        PathSegment::Val(t) => t@.len() > 0 && forall|j: int| 0 <= j < t@.len() ==> t@[j] != '/',
        PathSegment::Var => true,
    }
}

/// Whether every literal of a template can stand in a path.
pub open spec fn wf_literals(segs: Seq<PathSegment>) -> bool {
    forall|i: int| 0 <= i < segs.len() ==> seg_ok(#[trigger] segs[i])
}

/// The abstract shape of a segment sequence: each literal as its text, each
/// variable as nothing.
pub open spec fn seg_views(segs: Seq<PathSegment>) -> Seq<Option<Seq<char>>> {
    segs.map_values(|s: PathSegment| s.spec_val())
}

/// How many variables a segment sequence declares.
pub open spec fn spec_var_count(segs: Seq<PathSegment>) -> int
    decreases segs.len(),
{
    if segs.len() == 0 {
        0
    } else {
        (if segs[0] is Var {
            1int
        } else {
            0int
        }) + spec_var_count(segs.skip(1))
    }
}

/// The variable count never exceeds the segment count, and is never
/// negative.
pub proof fn lemma_var_count_bounds(segs: Seq<PathSegment>)
    ensures
        0 <= spec_var_count(segs) <= segs.len(),
    decreases segs.len(),
{
    if segs.len() > 0 {
        lemma_var_count_bounds(segs.skip(1));
    }
}

/// Counts the variables among a vector of segments.
pub fn count_vars(segments: &Vec<PathSegment>) -> (r: usize)
    ensures
        r == spec_var_count(segments@),
{
    let n: usize = segments.len();
    let mut count: usize = 0;
    let mut i: usize = 0;
    proof {
        lemma_var_count_bounds(segments@);
        assert(segments@.skip(0) =~= segments@);
    }
    while i < n
        invariant
            i <= n,
            n == segments@.len(),
            count <= i,
            count + spec_var_count(segments@.skip(i as int)) == spec_var_count(segments@),
        decreases n - i,
    {
        let ghost tail = segments@.skip(i as int);
        proof {
            assert(tail[0] == segments@[i as int]);
            assert(tail.skip(1) =~= segments@.skip(i + 1));
        }
        if let PathSegment::Var = segments[i] {
            count = count + 1;
        }
        i = i + 1;
    }
    proof {
        assert(segments@.skip(n as int) =~= Seq::<PathSegment>::empty());
    }
    count
}

/// A path template: an immutable ordered sequence of literal and variable
/// segments.
#[derive(Debug, Clone)]
pub struct PathTemplate {
    segments: Vec<PathSegment>,
}

impl View for PathTemplate {
    type V = Seq<PathSegment>;

    closed spec fn view(&self) -> Seq<PathSegment> {
        self.segments@
    }
}

impl PathTemplate {
    /// Makes a new `PathTemplate` instance.
    pub fn new(segments: Vec<PathSegment>) -> (r: PathTemplate)
        ensures
            r@ == segments@,
    {
        PathTemplate { segments }
    }

    /// Counts variables in this template.
    pub fn var_count(&self) -> (r: usize)
        ensures
            r == spec_var_count(self@),
    {
        count_vars(&self.segments)
    }

    /// The number of segments in this template.
    pub fn len(&self) -> (r: usize)
        ensures
            r == self@.len(),
    {
        self.segments.len()
    }

    /// Whether any variable remains at or after position `i`.
    pub fn is_var_remaning(&self, i: usize) -> (r: bool)
        requires
            i <= self@.len(),
        ensures
            r == exists|j: int| i <= j < self@.len() && self@[j] is Var,
    {
        let n: usize = self.segments.len();
        let mut k: usize = i;
        while k < n
            invariant
                i <= k <= n,
                n == self@.len(),
                forall|j: int| i <= j < k ==> !(self@[j] is Var),
            decreases n - k,
        {
            if let PathSegment::Var = self.segments[k] {
                return true;
            }
            k = k + 1;
        }
        false
    }

    /// The literal text at position `i`, or nothing if that position is a
    /// variable.
    pub fn get_val(&self, i: usize) -> (r: Option<&'static str>)
        requires
            i < self@.len(),
        ensures
            ({
                match r {
                    Some(s) => self@[i as int].spec_val() == Some(s@),
                    None => self@[i as int].spec_val() is None,
                }
            }),
    {
        if let PathSegment::Val(s) = self.segments[i] {
            Some(s)
        } else {
            None
        }
    }

    /// Returns the segments in this template.
    pub fn segments(&self) -> (r: &Vec<PathSegment>)
        ensures
            r@ == self@,
    {
        &self.segments
    }
}

impl PartialEq for PathTemplate {
    fn eq(&self, other: &PathTemplate) -> (r: bool) {
        let n: usize = self.segments.len();
        if n != other.segments.len() {
            proof {
                assert(seg_views(self@).len() != seg_views(other@).len());
            }
            return false;
        }
        let mut i: usize = 0;
        while i < n
            invariant
                i <= n,
                n == self@.len(),
                n == other@.len(),
                forall|j: int| 0 <= j < i ==> self@[j].spec_val() == other@[j].spec_val(),
            decreases n - i,
        {
            let a = self.segments[i];
            let b = other.segments[i];
            if !(a == b) {
                proof {
                    assert(seg_views(self@)[i as int] != seg_views(other@)[i as int]);
                }
                return false;
            }
            i = i + 1;
        }
        proof {
            assert(seg_views(self@) =~= seg_views(other@));
        }
        true
    }
}

impl vstd::std_specs::cmp::PartialEqSpecImpl for PathTemplate {
    open spec fn obeys_eq_spec() -> bool {
        true
    }

    open spec fn eq_spec(&self, other: &PathTemplate) -> bool {
        seg_views(self@) == seg_views(other@)
    }
}

impl Eq for PathTemplate {

}

} // verus!
