//! Filling a path template with values: literals are pushed verbatim, each
//! supplied value is percent-encoded at its variable slot, and supplying the
//! wrong number of values is an error.
use vstd::prelude::*;
use crate::error::{Error, ErrorKind};
use crate::path_template::{spec_var_count, PathSegment};
use crate::percent::{percent_encode, spec_percent_encode};

verus! {

/// The segments of a template's path once values stand at its variable
/// slots: each literal verbatim, each value percent-encoded, in order.
pub open spec fn spec_fill(segs: Seq<PathSegment>, vals: Seq<Seq<char>>) -> Seq<Seq<char>>
    decreases segs.len(),
{
    if segs.len() == 0 {
        Seq::empty()
    } else {
        match segs[0] {
            PathSegment::Val(s) => seq![s@] + spec_fill(segs.skip(1), vals),
            PathSegment::Var => seq![spec_percent_encode(vals[0])] + spec_fill(
                segs.skip(1),
                vals.skip(1),
            ),
        }
    }
}

/// Fills the template with the given values, one per variable in declared
/// order; fails exactly when the value count differs from the variable
/// count.
pub fn fill_path(segments: &Vec<PathSegment>, values: &Vec<String>) -> (r: Result<
    Vec<String>,
    Error,
>)
    ensures
        ({
            match r {
                Ok(out) => values@.len() == spec_var_count(segments@) && out.deep_view()
                    == spec_fill(segments@, values.deep_view()),
                Err(e) => e.kind == ErrorKind::Invalid && values@.len() != spec_var_count(
                    segments@,
                ),
            }
        }),
{
    let ghost vv = values.deep_view();
    let n: usize = segments.len();
    let nv: usize = values.len();
    let mut out: Vec<String> = Vec::new();
    let mut i: usize = 0;
    let mut k: usize = 0;
    proof {
        assert(segments@.skip(0) =~= segments@);
        assert(vv.skip(0) =~= vv);
        assert(vv.len() == values@.len());
        assert(forall|t: Seq<Seq<char>>| #[trigger] (Seq::<Seq<char>>::empty() + t) =~= t);
        crate::path_template::lemma_var_count_bounds(segments@);
    }
    while i < n
        invariant
            i <= n,
            k <= nv,
            n == segments@.len(),
            nv == vv.len(),
            vv == values.deep_view(),
            k + spec_var_count(segments@.skip(i as int)) == spec_var_count(segments@),
            spec_fill(segments@, vv) == out.deep_view() + spec_fill(
                segments@.skip(i as int),
                vv.skip(k as int),
            ),
        decreases n - i,
    {
        let ghost tail = segments@.skip(i as int);
        let ghost vtail = vv.skip(k as int);
        let ghost out0 = out.deep_view();
        proof {
            assert(tail[0] == segments@[i as int]);
            assert(tail.skip(1) =~= segments@.skip(i + 1));
            crate::path_template::lemma_var_count_bounds(tail.skip(1));
        }
        match segments[i] {
            PathSegment::Val(s) => {
                out.push(s.to_owned());
                proof {
                    assert(out.deep_view() =~= out0.push(s@));
                    assert(spec_fill(tail, vtail) == seq![s@] + spec_fill(tail.skip(1), vtail));
                    assert(out0.push(s@) + spec_fill(tail.skip(1), vtail) =~= out0 + (seq![s@]
                        + spec_fill(tail.skip(1), vtail)));
                }
            },
            PathSegment::Var => {
                if k == nv {
                    proof {
                        assert(spec_var_count(tail) >= 1);
                    }
                    return Err(Error::invalid());
                }
                let enc = percent_encode(values[k].as_str());
                out.push(enc);
                proof {
                    assert(vtail[0] == vv[k as int]);
                    assert(vtail.skip(1) =~= vv.skip(k + 1));
                    assert(out.deep_view() =~= out0.push(spec_percent_encode(vv[k as int])));
                    assert(out0.push(spec_percent_encode(vv[k as int])) + spec_fill(
                        tail.skip(1),
                        vtail.skip(1),
                    ) =~= out0 + (seq![spec_percent_encode(vtail[0])] + spec_fill(
                        tail.skip(1),
                        vtail.skip(1),
                    )));
                }
                k = k + 1;
            },
        }
        i = i + 1;
    }
    if k != nv {
        proof {
            assert(segments@.skip(n as int) =~= Seq::<PathSegment>::empty());
        }
        return Err(Error::invalid());
    }
    proof {
        assert(segments@.skip(n as int) =~= Seq::<PathSegment>::empty());
        assert(out.deep_view() + Seq::<Seq<char>>::empty() =~= out.deep_view());
    }
    Ok(out)
}

} // verus!
