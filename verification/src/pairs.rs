//! Intersections of three roads or more, pair by pair: the cruder way,
//! taken where some road has no corner with either neighbour.

use crate::borders::Approach;
use crate::geometry::{plain_difference, spec_plain_difference, Angle, PolylineId, Pt, DEGREE};
use crate::network::{Diagnostic, IntersectionId};
use crate::resolution::{resolved, Resolution, ResolutionView};
use crate::runs::{
    gather, gather_agrees, gather_one_more, gather_reads_from_the_start, gather_stays_stopped,
    joined, joined_is_long, joined_is_short,
};
use crate::survey::{
    angle_of, extends, maybe_hit_of, maybe_point_of, point_of, Answer, Query, Survey,
};
use crate::wraparound::{wrap, wraparound_get};
use vstd::prelude::*;

verus! {

/// The difference in direction, in degrees, above which two borders that
/// face each other are crossed directly.
pub const CLOSE_DEGREES: u32 = 15;

/// What one pair of neighbouring roads gives to the outline: one point or
/// two, and a report where a border's end had to stand in.
#[derive(Clone, Debug, PartialEq, Eq)]
pub struct PairCorner {
    pub points: Vec<Pt>,
    pub note: Option<Diagnostic>,
}

/// A pair's corner as plain sequences.
pub struct PairCornerView {
    pub points: Seq<Pt>,
    pub note: Option<Diagnostic>,
}

impl View for PairCorner {
    type V = PairCornerView;

    open spec fn view(&self) -> PairCornerView {
        PairCornerView { points: self.points@, note: self.note }
    }
}

/// Whether two borders that face each other run at directions far enough
/// apart to be crossed directly: the opposite of the first direction and
/// the second differ by more than the close angle.
pub open spec fn spec_far_apart(first: Angle, second: Angle) -> bool {
    spec_plain_difference(first.spec_opposite(), second) > CLOSE_DEGREES * DEGREE
}

/// Whether two borders that face each other run at directions far enough
/// apart to be crossed directly.
pub fn far_apart(first: Angle, second: Angle) -> (b: bool)
    ensures
        b == spec_far_apart(first, second),
{
    plain_difference(first.opposite(), second) > 15_000
}

/// Where the two borders cross, if their directions are far enough apart
/// and they do cross.
pub open spec fn direct_of(m: Map<Query, Answer>, first: PolylineId, second: PolylineId) -> Result<
    Option<Pt>,
    Query,
> {
    match angle_of(m, Query::LastAngle { of: first }) {
        Err(q) => Err(q),
        Ok(angle1) => match angle_of(m, Query::LastAngle { of: second }) {
            Err(q) => Err(q),
            Ok(angle2) => if spec_far_apart(angle1, angle2) {
                match maybe_hit_of(m, Query::Intersection { a: first, b: second }) {
                    Err(q) => Err(q),
                    Ok(None) => Ok(None),
                    Ok(Some(hit)) => Ok(Some(hit.at)),
                }
            } else {
                Ok(None)
            },
        },
    }
}

/// Where the border meets the endless line along the last segment of
/// `far`, and that it does; or else the end of the border, and that it
/// does not.
pub open spec fn hit_or_end_of(m: Map<Query, Answer>, border: PolylineId, far: PolylineId) -> Result<
    (Pt, bool),
    Query,
> {
    match maybe_point_of(m, Query::ExtensionHit { of: border, other: far }) {
        Err(q) => Err(q),
        Ok(Some(hit)) => Ok((hit, true)),
        Ok(None) => match point_of(m, Query::LastPt { of: border }) {
            Err(q) => Err(q),
            Ok(end) => Ok((end, false)),
        },
    }
}

/// What the pair gives from its two borders taken one by one: the two
/// points, and a report where either is only a border's end.
pub open spec fn apart_outline(
    i: IntersectionId,
    first: Approach,
    second: Approach,
    degree: usize,
    pt1: (Pt, bool),
    pt2: (Pt, bool),
) -> PairCornerView {
    PairCornerView {
        points: seq![pt1.0, pt2.0],
        note: if pt1.1 && pt2.1 {
            None
        } else {
            Some(
                Diagnostic::NoCorner {
                    intersection: i,
                    first: first.road,
                    second: second.road,
                    degree,
                },
            )
        },
    }
}

/// What the road at place `k` of the ring and the road after it give to
/// the outline. The reverse border of the first faces the normal border of
/// the second. Where they cross directly, that point is the corner. Where
/// not, each of the two borders is met with the line along the border of
/// the road beyond it: the reverse border of the road before the first,
/// the normal border of the road after the second.
pub open spec fn pair_of(m: Map<Query, Answer>, i: IntersectionId, lines: Seq<Approach>, k: int) -> Result<
    PairCornerView,
    Query,
> {
    let n = lines.len() as int;
    let first = lines[wrap(k, n)];
    let second = lines[wrap(k + 1, n)];
    let before = lines[wrap(k - 1, n)];
    let after = lines[wrap(k + 2, n)];
    match direct_of(m, first.reverse, second.normal) {
        Err(q) => Err(q),
        Ok(Some(hit)) => Ok(PairCornerView { points: seq![hit], note: None }),
        Ok(None) => match hit_or_end_of(m, first.reverse, before.reverse) {
            Err(q) => Err(q),
            Ok(pt1) => match hit_or_end_of(m, second.normal, after.normal) {
                Err(q) => Err(q),
                Ok(pt2) => Ok(apart_outline(i, first, second, lines.len() as usize, pt1, pt2)),
            },
        },
    }
}

/// The pairs of neighbours round the ring, step by step.
pub open spec fn pair_steps(m: Map<Query, Answer>, i: IntersectionId, lines: Seq<Approach>) -> Seq<
    Result<PairCornerView, Query>,
> {
    Seq::new(lines.len(), |k: int| pair_of(m, i, lines, k))
}

/// The points of the pairs, one pair after the other.
pub open spec fn pair_points_of(pairs: Seq<PairCornerView>) -> Seq<Pt> {
    joined(pairs.map_values(|p: PairCornerView| p.points))
}

/// The report of a pair as a list: empty or of one.
pub open spec fn note_list(note: Option<Diagnostic>) -> Seq<Diagnostic> {
    match note {
        Some(d) => seq![d],
        None => Seq::empty(),
    }
}

/// The reports of the pairs, one pair after the other.
pub open spec fn pair_notes_of(pairs: Seq<PairCornerView>) -> Seq<Diagnostic> {
    joined(pairs.map_values(|p: PairCornerView| note_list(p.note)))
}

/// The outline made pair by pair round the ring. No road is cut back.
pub open spec fn pairwise_of(m: Map<Query, Answer>, i: IntersectionId, lines: Seq<Approach>) -> Result<
    ResolutionView,
    Query,
> {
    let run = gather(pair_steps(m, i, lines));
    match run.1 {
        Some(q) => Err(q),
        None => Ok(
            ResolutionView {
                points: pair_points_of(run.0),
                trims: Seq::empty(),
                notes: pair_notes_of(run.0),
            },
        ),
    }
}

/// An outline that is made pair by pair from what `m` holds is made in the
/// same way from what a survey holds that extends `m`.
pub proof fn pairwise_stays(
    m: Map<Query, Answer>,
    more: Map<Query, Answer>,
    i: IntersectionId,
    lines: Seq<Approach>,
)
    requires
        extends(more, m),
        pairwise_of(m, i, lines) is Ok,
    ensures
        pairwise_of(more, i, lines) == pairwise_of(m, i, lines),
{
    let steps = pair_steps(m, i, lines);
    let steps_more = pair_steps(more, i, lines);
    gather_reads_from_the_start(steps);
    assert forall|k: int| 0 <= k < steps.len() implies #[trigger] steps_more[k] == steps[k] by {
        assert(steps[k] is Ok);
        assert(steps[k] == pair_of(m, i, lines, k));
    }
    gather_agrees(steps, steps_more);
}

/// An outline made pair by pair has at least one point for each road of
/// the ring and at most two, and at most one report for each.
pub proof fn pairwise_has_points(m: Map<Query, Answer>, i: IntersectionId, lines: Seq<Approach>)
    requires
        pairwise_of(m, i, lines) is Ok,
    ensures
        lines.len() <= pairwise_of(m, i, lines)->Ok_0.points.len() <= 2 * lines.len(),
        pairwise_of(m, i, lines)->Ok_0.notes.len() <= lines.len(),
        pairwise_of(m, i, lines)->Ok_0.trims.len() == 0,
{
    let steps = pair_steps(m, i, lines);
    gather_reads_from_the_start(steps);
    let pairs = gather(steps).0;
    let parts = pairs.map_values(|p: PairCornerView| p.points);
    let reports = pairs.map_values(|p: PairCornerView| note_list(p.note));
    assert forall|k: int| 0 <= k < parts.len() implies 1 <= (#[trigger] parts[k]).len() <= 2 by {
        assert(steps[k] == pair_of(m, i, lines, k));
    }
    assert forall|k: int| 0 <= k < reports.len() implies (#[trigger] reports[k]).len() <= 1 by {
        assert(reports[k] == note_list(pairs[k].note));
    }
    joined_is_long(parts, 1);
    joined_is_short(parts, 2);
    joined_is_short(reports, 1);
    assert(parts.len() * 1 == parts.len() && parts.len() * 2 == 2 * parts.len()) by (nonlinear_arith);
}

/// Where the two borders cross, if their directions are far enough apart
/// and they do cross.
pub fn direct(survey: &Survey, first: PolylineId, second: PolylineId) -> (r: Result<Option<Pt>, Query>)
    ensures
        r == direct_of(survey@, first, second),
{
    let angle1 = survey.angle(Query::LastAngle { of: first })?;
    let angle2 = survey.angle(Query::LastAngle { of: second })?;
    if far_apart(angle1, angle2) {
        match survey.maybe_hit(Query::Intersection { a: first, b: second })? {
            Some(hit) => Ok(Some(hit.at)),
            None => Ok(None),
        }
    } else {
        Ok(None)
    }
}

/// Where the border meets the endless line along the last segment of
/// `far`, or else the end of the border.
pub fn hit_or_end(survey: &Survey, border: PolylineId, far: PolylineId) -> (r: Result<
    (Pt, bool),
    Query,
>)
    ensures
        r == hit_or_end_of(survey@, border, far),
{
    match survey.maybe_point(Query::ExtensionHit { of: border, other: far })? {
        Some(hit) => Ok((hit, true)),
        None => {
            let end = survey.point(Query::LastPt { of: border })?;
            Ok((end, false))
        },
    }
}

/// What a pair gives from its two borders taken one by one.
pub fn apart_corner(
    i: IntersectionId,
    first: &Approach,
    second: &Approach,
    degree: usize,
    pt1: (Pt, bool),
    pt2: (Pt, bool),
) -> (c: PairCorner)
    ensures
        c@ == apart_outline(i, *first, *second, degree, pt1, pt2),
        c.note is None <==> pt1.1 && pt2.1,
{
    let mut points: Vec<Pt> = Vec::new();
    points.push(pt1.0);
    points.push(pt2.0);
    assert(points@ == seq![pt1.0, pt2.0]);
    let note = if pt1.1 && pt2.1 {
        None
    } else {
        Some(
            Diagnostic::NoCorner { intersection: i, first: first.road, second: second.road, degree },
        )
    };
    PairCorner { points, note }
}

/// What the road at place `k` of the ring and the road after it give to
/// the outline.
pub fn pair(survey: &Survey, i: IntersectionId, lines: &Vec<Approach>, k: usize) -> (r: Result<
    PairCorner,
    Query,
>)
    requires
        0 < lines@.len() <= isize::MAX - 2,
        k < lines@.len(),
    ensures
        match r {
            Ok(c) => pair_of(survey@, i, lines@, k as int) == Ok::<PairCornerView, Query>(c@)
                && c@.points.len() >= 1,
            Err(q) => pair_of(survey@, i, lines@, k as int) == Err::<PairCornerView, Query>(q),
        },
{
    let idx1: isize = k as isize;
    let idx2: isize = idx1 + 1;
    let first: &Approach = wraparound_get(lines, idx1);
    let second: &Approach = wraparound_get(lines, idx2);
    if let Some(hit) = direct(survey, first.reverse, second.normal)? {
        let mut points: Vec<Pt> = Vec::new();
        points.push(hit);
        assert(points@ == seq![hit]);
        return Ok(PairCorner { points, note: None });
    }
    let before: &Approach = wraparound_get(lines, idx1 - 1);
    let pt1 = hit_or_end(survey, first.reverse, before.reverse)?;
    let after: &Approach = wraparound_get(lines, idx2 + 1);
    let pt2 = hit_or_end(survey, second.normal, after.normal)?;
    Ok(apart_corner(i, first, second, lines.len(), pt1, pt2))
}

/// Makes the outline pair by pair round the ring.
pub fn pairwise(survey: &Survey, i: IntersectionId, lines: &Vec<Approach>) -> (r: Result<
    Resolution,
    Query,
>)
    requires
        0 < lines@.len() <= isize::MAX - 2,
    ensures
        resolved(r, pairwise_of(survey@, i, lines@)),
        r is Ok ==> r->Ok_0@.points.len() > 0,
{
    let ghost steps = pair_steps(survey@, i, lines@);
    let ghost mut pairs: Seq<PairCornerView> = Seq::empty();
    let mut endpoints: Vec<Pt> = Vec::new();
    let mut notes: Vec<Diagnostic> = Vec::new();
    let mut k: usize = 0;
    proof {
        assert(gather(steps.take(0)) == (Seq::<PairCornerView>::empty(), None::<Query>));
        assert(pairs.map_values(|p: PairCornerView| p.points) == Seq::<Seq<Pt>>::empty());
        assert(pairs.map_values(|p: PairCornerView| note_list(p.note)) == Seq::<
            Seq<Diagnostic>,
        >::empty());
    }
    while k < lines.len()
        invariant
            k <= lines.len(),
            0 < lines@.len() <= isize::MAX - 2,
            steps == pair_steps(survey@, i, lines@),
            gather(steps.take(k as int)) == (pairs, None::<Query>),
            endpoints@ == pair_points_of(pairs),
            notes@ == pair_notes_of(pairs),
            k > 0 ==> endpoints@.len() > 0,
        decreases lines.len() - k,
    {
        proof {
            gather_one_more(steps, k as int);
        }
        match pair(survey, i, lines, k) {
            Err(q) => {
                proof {
                    gather_stays_stopped(steps, k + 1);
                }
                return Err(q);
            },
            Ok(c) => {
                proof {
                    let longer = pairs.push(c@);
                    assert(longer.map_values(|p: PairCornerView| p.points) == pairs.map_values(
                        |p: PairCornerView| p.points,
                    ).push(c@.points));
                    assert(longer.map_values(|p: PairCornerView| p.points).drop_last()
                        == pairs.map_values(|p: PairCornerView| p.points));
                    assert(longer.map_values(|p: PairCornerView| note_list(p.note))
                        == pairs.map_values(|p: PairCornerView| note_list(p.note)).push(
                        note_list(c@.note),
                    ));
                    assert(longer.map_values(|p: PairCornerView| note_list(p.note)).drop_last()
                        == pairs.map_values(|p: PairCornerView| note_list(p.note)));
                    pairs = longer;
                }
                let mut points = c.points;
                endpoints.append(&mut points);
                if let Some(d) = c.note {
                    notes.push(d);
                }
            },
        }
        k = k + 1;
    }
    proof {
        assert(steps.take(k as int) == steps);
    }
    Ok(Resolution { points: endpoints, trims: Vec::new(), notes })
}

} // verus!
