//! Outlines: equal neighbours are cut down to one, and the ring is closed.

use crate::geometry::Pt;
use vstd::prelude::*;

verus! {

/// The points with each run of equal neighbours cut down to its first.
pub open spec fn deduped(pts: Seq<Pt>) -> Seq<Pt>
    decreases pts.len(),
{
    if pts.len() == 0 {
        pts
    } else {
        let before = deduped(pts.drop_last());
        if before.len() > 0 && before.last() == pts.last() {
            before
        } else {
            before.push(pts.last())
        }
    }
}

/// The points as a closed ring: the first point comes once more at the end.
pub open spec fn closed(pts: Seq<Pt>) -> Seq<Pt>
    recommends
        pts.len() > 0,
{
    pts.push(pts[0])
}

/// Whether the points make a closed ring: there are at least two, and the
/// last is the first again.
pub open spec fn is_ring(pts: Seq<Pt>) -> bool {
    pts.len() >= 2 && pts.last() == pts[0]
}

/// Whether no point is equal to the one that follows it.
pub open spec fn no_repeat(pts: Seq<Pt>) -> bool {
    forall|k: int| 0 <= k < pts.len() - 1 ==> #[trigger] pts[k] != pts[k + 1]
}

/// After the cut no two neighbours are equal, nothing has been added, and
/// what was not empty still starts and ends with the same points.
pub proof fn dedup_leaves_no_repeat(pts: Seq<Pt>)
    ensures
        deduped(pts).len() <= pts.len(),
        no_repeat(deduped(pts)),
        forall|k: int| 0 <= k < deduped(pts).len() ==> pts.contains(#[trigger] deduped(pts)[k]),
        pts.len() > 0 ==> deduped(pts).len() > 0 && deduped(pts)[0] == pts[0] && deduped(
            pts,
        ).last() == pts.last(),
    decreases pts.len(),
{
    if pts.len() > 0 {
        let shorter = pts.drop_last();
        dedup_leaves_no_repeat(shorter);
        assert forall|k: int| 0 <= k < deduped(pts).len() implies pts.contains(
            #[trigger] deduped(pts)[k],
        ) by {
            if k < deduped(shorter).len() {
                let p = deduped(shorter)[k];
                assert(shorter.contains(p));
                let j = choose|j: int| 0 <= j < shorter.len() && shorter[j] == p;
                assert(pts[j] == p);
            } else {
                assert(pts[pts.len() - 1] == deduped(pts)[k]);
            }
        }
        if shorter.len() > 0 {
            assert(shorter[0] == pts[0]);
        }
    }
}

/// Points among which no two neighbours are equal are left as they are.
pub proof fn dedup_keeps_what_is_clean(pts: Seq<Pt>)
    requires
        no_repeat(pts),
    ensures
        deduped(pts) == pts,
    decreases pts.len(),
{
    if pts.len() > 0 {
        let shorter = pts.drop_last();
        assert forall|k: int| 0 <= k < shorter.len() - 1 implies #[trigger] shorter[k]
            != shorter[k + 1] by {
            assert(pts[k] != pts[k + 1]);
        }
        dedup_keeps_what_is_clean(shorter);
        if shorter.len() > 0 {
            assert(pts[pts.len() - 2] != pts[pts.len() - 2 + 1]);
        }
        assert(shorter.push(pts.last()) == pts);
    }
}

/// To cut a second time changes nothing.
pub proof fn dedup_twice_is_dedup(pts: Seq<Pt>)
    ensures
        deduped(deduped(pts)) == deduped(pts),
{
    dedup_leaves_no_repeat(pts);
    dedup_keeps_what_is_clean(deduped(pts));
}

/// A ring closed from at least one point is a ring, one point longer than
/// what it was closed from.
pub proof fn closed_is_ring(pts: Seq<Pt>)
    requires
        pts.len() > 0,
    ensures
        is_ring(closed(pts)),
        closed(pts).len() == pts.len() + 1,
        closed(pts).drop_last() == pts,
{
}

/// Cuts each run of equal neighbours down to its first point.
pub fn dedup(points: &Vec<Pt>) -> (r: Vec<Pt>)
    ensures
        r@ == deduped(points@),
{
    let mut kept: Vec<Pt> = Vec::new();
    let mut k: usize = 0;
    proof {
        assert(deduped(points@.take(0)) == Seq::<Pt>::empty());
    }
    while k < points.len()
        invariant
            k <= points.len(),
            kept@ == deduped(points@.take(k as int)),
        decreases points.len() - k,
    {
        proof {
            assert(points@.take(k + 1).drop_last() == points@.take(k as int));
        }
        let p: Pt = points[k];
        let n: usize = kept.len();
        if n == 0 || kept[n - 1] != p {
            kept.push(p);
        }
        k = k + 1;
    }
    proof {
        assert(points@.take(k as int) == points@);
    }
    kept
}

/// Closes the ring: the first point is added once more at the end.
pub fn close_ring(points: Vec<Pt>) -> (r: Vec<Pt>)
    requires
        points@.len() > 0,
    ensures
        r@ == closed(points@),
{
    let mut ring = points;
    let first: Pt = ring[0];
    ring.push(first);
    ring
}

} // verus!
