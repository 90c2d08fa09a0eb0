use vstd::prelude::*;
use crate::geometry::{hit_distance, ray_hits, Point3, Ray, Triangle};
use crate::grid::{bounds_of, lemma_bounds_hold};

verus! {

/// Heights at which an upward ray from `o` crosses the candidate triangles,
/// in candidate order: the origin's height plus the distance to each hit.
pub open spec fn crossings(tris: Seq<Triangle>, cands: Seq<usize>, o: Point3) -> Seq<i64>
    decreases cands.len(),
{
    if cands.len() == 0 {
        Seq::empty()
    } else {
        let prev = crossings(tris, cands.drop_last(), o);
        let t = tris[cands.last() as int];
        if ray_hits(t.v0, t.v1, t.v2, o) {
            prev.push((o.z + hit_distance(t.v0, t.v1, t.v2, o)) as i64)
        } else {
            prev
        }
    }
}

pub open spec fn is_sorted(h: Seq<i64>) -> bool {
    forall|i: int, j: int| 0 <= i <= j < h.len() ==> h[i] <= h[j]
}

/// Consecutive crossings paired greedily: `(h[0], h[1]), (h[2], h[3]), ...`;
/// an unpaired last crossing is dropped.
pub open spec fn pairs(h: Seq<i64>) -> Seq<(i64, i64)> {
    Seq::new(h.len() / 2, |k: int| (h[2 * k], h[2 * k + 1]))
}

/// Each span is entered before it is left, and the spans are in ascending
/// order without overlap.
pub open spec fn spans_ordered(s: Seq<(i64, i64)>) -> bool {
    &&& forall|k: int| 0 <= k < s.len() ==> s[k].0 <= #[trigger] s[k].1
    &&& forall|k: int| 0 <= k < s.len() - 1 ==> #[trigger] s[k].1 <= s[k + 1].0
}

/// The spans of a column: the crossings put in ascending order and paired.
pub open spec fn is_column_spans(r: Seq<(i64, i64)>, xs: Seq<i64>) -> bool {
    exists|h: Seq<i64>| is_sorted(h) && h.to_multiset() == xs.to_multiset() && r == pairs(h)
}

pub open spec fn all_wf(tris: Seq<Triangle>) -> bool {
    forall|i: int| 0 <= i < tris.len() ==> (#[trigger] tris[i]).wf()
}

pub open spec fn valid_candidates(tris: Seq<Triangle>, cands: Seq<usize>) -> bool {
    forall|k: int| 0 <= k < cands.len() ==> #[trigger] cands[k] < tris.len()
}

/// Every height in `xs` lies within `[lo, hi]`.
pub open spec fn heights_within(xs: Seq<i64>, lo: int, hi: int) -> bool {
    forall|i: int| 0 <= i < xs.len() ==> lo <= #[trigger] xs[i] <= hi
}

/// Every span lies within `[lo, hi]`.
pub open spec fn spans_within(s: Seq<(i64, i64)>, lo: int, hi: int) -> bool {
    forall|k: int| 0 <= k < s.len() ==> lo <= (#[trigger] s[k]).0 && s[k].1 <= hi
}

/// Pairing sorted crossings gives ordered spans.
pub proof fn lemma_pairs_ordered(h: Seq<i64>)
    requires
        is_sorted(h),
    ensures
        spans_ordered(pairs(h)),
{
    let s = pairs(h);
    assert forall|k: int| 0 <= k < s.len() implies s[k].0 <= #[trigger] s[k].1 by {
        assert(h[2 * k] <= h[2 * k + 1]);
    }
    assert forall|k: int| 0 <= k < s.len() - 1 implies #[trigger] s[k].1 <= s[k + 1].0 by {
        assert(h[2 * k + 1] <= h[2 * (k + 1)]);
    }
}

/// Relies on `slice::sort_unstable`: the same elements, in ascending order.
#[verifier::external_body]
fn sort_heights(v: &mut Vec<i64>)
    ensures
        is_sorted(final(v)@),
        final(v)@.to_multiset() == old(v)@.to_multiset(),
{
    v.sort_unstable();
}

/// The heights at which the ray crosses the candidate triangles.
pub fn column_crossings(tris: &Vec<Triangle>, cands: &Vec<usize>, ray: &Ray) -> (r: Vec<i64>)
    requires
        all_wf(tris@),
        valid_candidates(tris@, cands@),
        ray.origin.wf(),
    ensures
        r@ == crossings(tris@, cands@, ray.origin),
        tris@.len() > 0 ==> heights_within(
            r@,
            bounds_of(tris@).min.z as int,
            bounds_of(tris@).max.z as int,
        ),
{
    let mut hits: Vec<i64> = Vec::new();
    let mut k: usize = 0;
    while k < cands.len()
        invariant
            k <= cands.len(),
            all_wf(tris@),
            valid_candidates(tris@, cands@),
            ray.origin.wf(),
            hits@ == crossings(tris@, cands@.take(k as int), ray.origin),
            tris@.len() > 0 ==> heights_within(
                hits@,
                bounds_of(tris@).min.z as int,
                bounds_of(tris@).max.z as int,
            ),
        decreases cands.len() - k,
    {
        let ghost prefix = cands@.take(k as int + 1);
        assert(prefix.drop_last() == cands@.take(k as int));
        let tri = &tris[cands[k]];
        proof {
            lemma_bounds_hold(tris@, cands@[k as int] as int);
        }
        match tri.intersect(ray) {
            Some(t) => {
                hits.push(ray.origin.z + t);
            },
            None => {},
        }
        k += 1;
    }
    assert(cands@.take(cands.len() as int) == cands@);
    hits
}

/// Greedy pairing of consecutive crossings into `(enter, exit)` spans.
pub fn pair_spans(hits: &Vec<i64>) -> (r: Vec<(i64, i64)>)
    ensures
        r@ == pairs(hits@),
{
    let mut out: Vec<(i64, i64)> = Vec::new();
    let n = hits.len() / 2;
    let mut k: usize = 0;
    while k < n
        invariant
            k <= n,
            n == hits.len() / 2,
            out@.len() == k,
            forall|j: int| 0 <= j < k ==> out@[j] == (hits@[2 * j], hits@[2 * j + 1]),
        decreases n - k,
    {
        out.push((hits[2 * k], hits[2 * k + 1]));
        k += 1;
    }
    assert(out@ == pairs(hits@));
    out
}

/// The inside-intervals of the column above the ray's origin: every
/// crossing with a candidate triangle, sorted and paired.
pub fn column_spans(tris: &Vec<Triangle>, cands: &Vec<usize>, ray: &Ray) -> (r: Vec<(i64, i64)>)
    requires
        all_wf(tris@),
        valid_candidates(tris@, cands@),
        ray.origin.wf(),
    ensures
        is_column_spans(r@, crossings(tris@, cands@, ray.origin)),
        spans_ordered(r@),
        tris@.len() > 0 ==> spans_within(
            r@,
            bounds_of(tris@).min.z as int,
            bounds_of(tris@).max.z as int,
        ),
{
    let mut hits = column_crossings(tris, cands, ray);
    let ghost raw = hits@;
    sort_heights(&mut hits);
    proof {
        if tris@.len() > 0 {
            let lo = bounds_of(tris@).min.z as int;
            let hi = bounds_of(tris@).max.z as int;
            assert forall|i: int| 0 <= i < hits@.len() implies lo <= #[trigger] hits@[i] <= hi by {
                raw.to_multiset_ensures();
                hits@.to_multiset_ensures();
                assert(hits@.contains(hits@[i]));
                assert(hits@.to_multiset().count(hits@[i]) > 0);
                assert(raw.to_multiset().count(hits@[i]) > 0);
                assert(raw.contains(hits@[i]));
                let j = choose|j: int| 0 <= j < raw.len() && raw[j] == hits@[i];
                assert(lo <= raw[j] <= hi);
            }
        }
    }
    let r = pair_spans(&hits);
    proof {
        lemma_pairs_ordered(hits@);
        if tris@.len() > 0 {
            assert forall|k: int| 0 <= k < r@.len() implies bounds_of(tris@).min.z <= (
            #[trigger] r@[k]).0 && r@[k].1 <= bounds_of(tris@).max.z by {
                assert(r@[k] == (hits@[2 * k], hits@[2 * k + 1]));
            }
        }
    }
    r
}

} // verus!
