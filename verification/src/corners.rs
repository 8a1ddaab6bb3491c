//! Intersections of three roads or more, corner by corner. Each road is
//! crossed with its two neighbours round the ring, cut back to the nearer
//! of the two corners, and gives its part of the outline.

use crate::borders::{border_pair, borders, toward, toward_line, Approach};
use crate::geometry::{PolylineId, Pt};
use crate::network::{Dimensions, IntersectionId, Road, Trim};
use crate::ring::{dedup, dedup_leaves_no_repeat, deduped, no_repeat};
use crate::runs::{
    gather, gather_agrees, gather_one_more, gather_reads_from_the_start, gather_stays_stopped,
    joined, joined_is_long, joined_is_short,
};
use crate::survey::{
    extends, length_of, maybe_hit_of, maybe_point_of, point_of, polyline_of, Answer, Query, Survey,
};
use crate::wraparound::{wrap, wrap_is_a_place, wraparound_get};
use vstd::prelude::*;

verus! {

/// A corner that a road may be cut back to: where one of its borders
/// crosses the border of a neighbour that faces it, and the centerline cut
/// at the foot of the perpendicular from there.
#[derive(Clone, Copy, Debug, PartialEq, Eq, Hash, Structural)]
pub struct Candidate {
    pub hit: Pt,
    pub center: PolylineId,
}

/// The part of the outline that one road gives, with its new centerline.
#[derive(Clone, Debug, PartialEq, Eq)]
pub struct Corner {
    pub points: Vec<Pt>,
    pub trim: Trim,
}

/// A corner as plain sequences.
pub struct CornerView {
    pub points: Seq<Pt>,
    pub trim: Trim,
}

impl View for Corner {
    type V = CornerView;

    open spec fn view(&self) -> CornerView {
        CornerView { points: self.points@, trim: self.trim }
    }
}

/// Why a road gives no part of the outline.
#[derive(Clone, Copy, Debug, PartialEq, Eq, Hash, Structural)]
pub enum Stop {
    /// A measurement is still to be taken.
    Ask(Query),
    /// Neither border of the road crosses the border that faces it.
    Unsolved,
}

/// What a pass over all roads gives where every road has a corner: the
/// outline, and the new centerline of every road.
#[derive(Clone, Debug, PartialEq, Eq)]
pub struct Pass {
    pub points: Vec<Pt>,
    pub trims: Vec<Trim>,
}

/// A pass as plain sequences.
pub struct PassView {
    pub points: Seq<Pt>,
    pub trims: Seq<Trim>,
}

impl View for Pass {
    type V = PassView;

    open spec fn view(&self) -> PassView {
        PassView { points: self.points@, trims: self.trims@ }
    }
}

/// The corner of `border` with the border `facing` it: where the two
/// cross, a perpendicular to the crossing is laid through that point, and
/// `center` is cut where the perpendicular meets it. There is none where
/// the borders do not cross or the perpendicular misses the centerline.
pub open spec fn candidate_of(
    m: Map<Query, Answer>,
    border: PolylineId,
    facing: PolylineId,
    center: PolylineId,
) -> Result<Option<Candidate>, Query> {
    match maybe_hit_of(m, Query::Intersection { a: border, b: facing }) {
        Err(q) => Err(q),
        Ok(None) => Ok(None),
        Ok(Some(hit)) => match maybe_point_of(
            m,
            Query::InfiniteHit {
                of: center,
                through: hit.at,
                heading: hit.angle.spec_rotate_degs(90),
            },
        ) {
            Err(q) => Err(q),
            Ok(None) => Ok(None),
            Ok(Some(foot)) => match polyline_of(m, Query::TrimmedTo { of: center, at: foot }) {
                Err(q) => Err(q),
                Ok(trimmed) => Ok(Some(Candidate { hit: hit.at, center: trimmed })),
            },
        },
    }
}

/// Of two centerlines the one that is not longer; the first where they
/// are equally long.
pub open spec fn shorter_center(c1: PolylineId, l1: u64, c2: PolylineId, l2: u64) -> PolylineId {
    if l1 <= l2 {
        c1
    } else {
        c2
    }
}

/// The centerline that the road is cut back to: the shorter where both
/// corners are there, the one that is there where only one is, none where
/// neither is.
pub open spec fn chosen_of(m: Map<Query, Answer>, fwd: Option<Candidate>, back: Option<Candidate>) -> Result<
    Option<PolylineId>,
    Query,
> {
    match (fwd, back) {
        (Some(c1), Some(c2)) => match length_of(m, Query::Length { of: c1.center }) {
            Err(q) => Err(q),
            Ok(l1) => match length_of(m, Query::Length { of: c2.center }) {
                Err(q) => Err(q),
                Ok(l2) => Ok(Some(shorter_center(c1.center, l1, c2.center, l2))),
            },
        },
        (Some(c1), None) => Ok(Some(c1.center)),
        (None, Some(c2)) => Ok(Some(c2.center)),
        (None, None) => Ok(None),
    }
}

/// The points that one road gives to the outline: the forward corner if
/// there is one, the ends of the new normal and reverse borders, and the
/// backward corner if there is one.
pub open spec fn corner_outline(
    fwd: Option<Candidate>,
    end_normal: Pt,
    end_reverse: Pt,
    back: Option<Candidate>,
) -> Seq<Pt> {
    let head = if fwd is Some {
        seq![fwd->Some_0.hit]
    } else {
        Seq::empty()
    };
    let tail = if back is Some {
        seq![back->Some_0.hit]
    } else {
        Seq::empty()
    };
    head + seq![end_normal, end_reverse] + tail
}

/// The centerline that runs toward `i`, as the road will hold it: turned
/// round where the road starts at `i`.
pub open spec fn stored_center_of(
    m: Map<Query, Answer>,
    road: Road,
    i: IntersectionId,
    center: PolylineId,
) -> Result<PolylineId, Query> {
    if road.src_i == i {
        polyline_of(m, Query::Reversed { of: center })
    } else {
        Ok(center)
    }
}

/// The part of the outline that the road gives once it is cut back to
/// `center`: its borders are made anew from the shorter centerline, and
/// their ends stand between the corners.
pub open spec fn rebuilt_of(
    m: Map<Query, Answer>,
    i: IntersectionId,
    a: Approach,
    road: Road,
    dims: Dimensions,
    fwd: Option<Candidate>,
    back: Option<Candidate>,
    center: PolylineId,
) -> Result<CornerView, Query> {
    match stored_center_of(m, road, i, center) {
        Err(q) => Err(q),
        Ok(stored) => match border_pair(
            m,
            center,
            road.spec_normal_width(i, dims) as u64,
            road.spec_reverse_width(i, dims) as u64,
        ) {
            Err(q) => Err(q),
            Ok(pair) => match point_of(m, Query::LastPt { of: pair.0 }) {
                Err(q) => Err(q),
                Ok(end_normal) => match point_of(m, Query::LastPt { of: pair.1 }) {
                    Err(q) => Err(q),
                    Ok(end_reverse) => Ok(
                        CornerView {
                            points: corner_outline(fwd, end_normal, end_reverse, back),
                            trim: Trim { road: a.road, center_pts: stored },
                        },
                    ),
                },
            },
        },
    }
}

/// The part of the outline that the road at place `k` of the ring gives.
/// Its normal border is crossed with the reverse border of the road
/// before it, its reverse border with the normal border of the road after
/// it. With neither corner the road gives nothing.
pub open spec fn corner_of(
    m: Map<Query, Answer>,
    i: IntersectionId,
    lines: Seq<Approach>,
    roads: Seq<Road>,
    dims: Dimensions,
    k: int,
) -> Result<Option<CornerView>, Query> {
    let n = lines.len() as int;
    let a = lines[k];
    let before = lines[wrap(k - 1, n)];
    let after = lines[wrap(k + 1, n)];
    let road = roads[a.road.0 as int];
    match toward_line(m, road, i) {
        Err(q) => Err(q),
        Ok(center) => match candidate_of(m, a.normal, before.reverse, center) {
            Err(q) => Err(q),
            Ok(fwd) => match candidate_of(m, a.reverse, after.normal, center) {
                Err(q) => Err(q),
                Ok(back) => match chosen_of(m, fwd, back) {
                    Err(q) => Err(q),
                    Ok(None) => Ok(None),
                    Ok(Some(shorter)) => match rebuilt_of(m, i, a, road, dims, fwd, back, shorter) {
                        Err(q) => Err(q),
                        Ok(c) => Ok(Some(c)),
                    },
                },
            },
        },
    }
}

/// One road's part as a step of the pass: a corner, or why there is none.
pub open spec fn as_step(c: Result<Option<CornerView>, Query>) -> Result<CornerView, Stop> {
    match c {
        Err(q) => Err(Stop::Ask(q)),
        Ok(None) => Err(Stop::Unsolved),
        Ok(Some(c)) => Ok(c),
    }
}

/// The pass over the roads of the ring, step by step.
pub open spec fn corner_steps(
    m: Map<Query, Answer>,
    i: IntersectionId,
    lines: Seq<Approach>,
    roads: Seq<Road>,
    dims: Dimensions,
) -> Seq<Result<CornerView, Stop>> {
    Seq::new(lines.len(), |k: int| as_step(corner_of(m, i, lines, roads, dims, k)))
}

/// The points of the corners, one corner after the other.
pub open spec fn corner_points_of(corners: Seq<CornerView>) -> Seq<Pt> {
    joined(corners.map_values(|c: CornerView| c.points))
}

/// The new centerlines of the corners.
pub open spec fn corner_trims_of(corners: Seq<CornerView>) -> Seq<Trim> {
    corners.map_values(|c: CornerView| c.trim)
}

/// The pass over all roads of the ring, in order. Where every road has a
/// corner, the outline is made of their points, equal neighbours cut down
/// to one, and every road is cut back. Where some road has none, the pass
/// gives nothing: no outline, and no road is cut back.
pub open spec fn corner_pass_of(
    m: Map<Query, Answer>,
    i: IntersectionId,
    lines: Seq<Approach>,
    roads: Seq<Road>,
    dims: Dimensions,
) -> Result<Option<PassView>, Query> {
    let run = gather(corner_steps(m, i, lines, roads, dims));
    match run.1 {
        Some(Stop::Ask(q)) => Err(q),
        Some(Stop::Unsolved) => Ok(None),
        None => Ok(
            Some(
                PassView {
                    points: deduped(corner_points_of(run.0)),
                    trims: corner_trims_of(run.0),
                },
            ),
        ),
    }
}

/// What a road gives by what `m` holds, a corner or none, it gives in the
/// same way by what a survey holds that extends `m`.
pub proof fn corner_stays(
    m: Map<Query, Answer>,
    more: Map<Query, Answer>,
    i: IntersectionId,
    lines: Seq<Approach>,
    roads: Seq<Road>,
    dims: Dimensions,
    k: int,
)
    requires
        extends(more, m),
        corner_of(m, i, lines, roads, dims, k) is Ok,
    ensures
        corner_of(more, i, lines, roads, dims, k) == corner_of(m, i, lines, roads, dims, k),
{
}

/// A pass that comes to its end by what `m` holds, with an outline or
/// without, comes to the same end by what a survey holds that extends `m`.
pub proof fn corner_pass_stays(
    m: Map<Query, Answer>,
    more: Map<Query, Answer>,
    i: IntersectionId,
    lines: Seq<Approach>,
    roads: Seq<Road>,
    dims: Dimensions,
)
    requires
        extends(more, m),
        corner_pass_of(m, i, lines, roads, dims) is Ok,
    ensures
        corner_pass_of(more, i, lines, roads, dims) == corner_pass_of(m, i, lines, roads, dims),
{
    let steps = corner_steps(m, i, lines, roads, dims);
    let steps_more = corner_steps(more, i, lines, roads, dims);
    gather_reads_from_the_start(steps);
    assert forall|k: int|
        0 <= k < steps.len() && k <= gather(steps).0.len() implies #[trigger] steps_more[k]
        == steps[k] by {
        assert(steps[k] == as_step(corner_of(m, i, lines, roads, dims, k)));
        corner_stays(m, more, i, lines, roads, dims, k);
    }
    gather_agrees(steps, steps_more);
}

/// A pass over a ring of roads that gives an outline gives one with at
/// least one point and at most four for each road, no two neighbours
/// among them equal, and cuts every road of the ring back, in order.
pub proof fn corner_pass_has_points(
    m: Map<Query, Answer>,
    i: IntersectionId,
    lines: Seq<Approach>,
    roads: Seq<Road>,
    dims: Dimensions,
)
    requires
        lines.len() > 0,
        corner_pass_of(m, i, lines, roads, dims) matches Ok(Some(_)),
    ensures
        ({
            let pass = corner_pass_of(m, i, lines, roads, dims)->Ok_0->Some_0;
            &&& 0 < pass.points.len() <= 4 * lines.len()
            &&& no_repeat(pass.points)
            &&& pass.trims.len() == lines.len()
            &&& forall|k: int| 0 <= k < lines.len() ==> (#[trigger] pass.trims[k]).road == lines[k].road
        }),
{
    let steps = corner_steps(m, i, lines, roads, dims);
    gather_reads_from_the_start(steps);
    let corners = gather(steps).0;
    assert forall|k: int| 0 <= k < corners.len() implies 2 <= (#[trigger] corners[k]).points.len()
        <= 4 && corners[k].trim.road == lines[k].road by {
        assert(steps[k] == as_step(corner_of(m, i, lines, roads, dims, k)));
    }
    let parts = corners.map_values(|c: CornerView| c.points);
    assert forall|k: int| 0 <= k < parts.len() implies 2 <= (#[trigger] parts[k]).len() <= 4 by {
        assert(parts[k] == corners[k].points);
    }
    joined_is_long(parts, 2);
    joined_is_short(parts, 4);
    assert(parts.len() * 4 == 4 * lines.len()) by (nonlinear_arith)
        requires
            parts.len() == lines.len(),
    ;
    assert(parts.len() * 2 > 0) by (nonlinear_arith)
        requires
            parts.len() > 0,
    ;
    dedup_leaves_no_repeat(corner_points_of(corners));
}

/// Whether each road of the ring is in the list of roads, and the ring is
/// no longer than signed indices can count round it.
pub open spec fn ring_of(lines: Seq<Approach>, roads: Seq<Road>) -> bool {
    &&& 0 < lines.len() <= isize::MAX - 2
    &&& forall|k: int| 0 <= k < lines.len() ==> (#[trigger] lines[k]).road.0 < roads.len()
}

/// The corner of `border` with the border `facing` it.
pub fn candidate(survey: &Survey, border: PolylineId, facing: PolylineId, center: PolylineId) -> (r:
    Result<Option<Candidate>, Query>)
    ensures
        r == candidate_of(survey@, border, facing, center),
{
    let hit = match survey.maybe_hit(Query::Intersection { a: border, b: facing })? {
        Some(hit) => hit,
        None => {
            return Ok(None);
        },
    };
    let heading = hit.angle.rotate_degs(90);
    let foot = match survey.maybe_point(
        Query::InfiniteHit { of: center, through: hit.at, heading },
    )? {
        Some(foot) => foot,
        None => {
            return Ok(None);
        },
    };
    let trimmed = survey.polyline(Query::TrimmedTo { of: center, at: foot })?;
    Ok(Some(Candidate { hit: hit.at, center: trimmed }))
}

/// Of two centerlines with their lengths, the one that is not longer; the
/// first where they are equally long.
pub fn pick_shorter(c1: PolylineId, l1: u64, c2: PolylineId, l2: u64) -> (c: PolylineId)
    ensures
        c == shorter_center(c1, l1, c2, l2),
        c == c1 || c == c2,
{
    if l1 <= l2 {
        c1
    } else {
        c2
    }
}

/// The centerline that the road is cut back to, if it has a corner.
pub fn chosen(survey: &Survey, fwd: Option<Candidate>, back: Option<Candidate>) -> (r: Result<
    Option<PolylineId>,
    Query,
>)
    ensures
        r == chosen_of(survey@, fwd, back),
{
    match (fwd, back) {
        (Some(c1), Some(c2)) => {
            let l1 = survey.length(Query::Length { of: c1.center })?;
            let l2 = survey.length(Query::Length { of: c2.center })?;
            Ok(Some(pick_shorter(c1.center, l1, c2.center, l2)))
        },
        (Some(c1), None) => Ok(Some(c1.center)),
        (None, Some(c2)) => Ok(Some(c2.center)),
        (None, None) => Ok(None),
    }
}

/// The points that one road gives to the outline: between two and four.
pub fn corner_points(fwd: Option<Candidate>, end_normal: Pt, end_reverse: Pt, back: Option<Candidate>) -> (points:
    Vec<Pt>)
    ensures
        points@ == corner_outline(fwd, end_normal, end_reverse, back),
        2 <= points@.len() <= 4,
        points@.len() == 2 + (if fwd is Some { 1int } else { 0int }) + (if back is Some { 1int } else { 0int }),
{
    let mut points: Vec<Pt> = Vec::new();
    if let Some(c) = fwd {
        points.push(c.hit);
    }
    points.push(end_normal);
    points.push(end_reverse);
    if let Some(c) = back {
        points.push(c.hit);
    }
    points
}

/// The part of the outline that the road gives once it is cut back to
/// `center`.
pub fn rebuilt(
    survey: &Survey,
    i: IntersectionId,
    a: &Approach,
    road: &Road,
    dims: &Dimensions,
    fwd: Option<Candidate>,
    back: Option<Candidate>,
    center: PolylineId,
) -> (r: Result<Corner, Query>)
    ensures
        match r {
            Ok(c) => rebuilt_of(survey@, i, *a, *road, *dims, fwd, back, center) == Ok::<
                CornerView,
                Query,
            >(c@) && c@.points.len() >= 2,
            Err(q) => rebuilt_of(survey@, i, *a, *road, *dims, fwd, back, center) == Err::<
                CornerView,
                Query,
            >(q),
        },
{
    let stored = if road.src_i == i {
        survey.polyline(Query::Reversed { of: center })?
    } else {
        center
    };
    let widths = road.widths_toward(i, dims);
    let pair = borders(survey, center, widths.0, widths.1)?;
    let end_normal = survey.point(Query::LastPt { of: pair.0 })?;
    let end_reverse = survey.point(Query::LastPt { of: pair.1 })?;
    Ok(
        Corner {
            points: corner_points(fwd, end_normal, end_reverse, back),
            trim: Trim { road: a.road, center_pts: stored },
        },
    )
}

/// The part of the outline that the road at place `k` of the ring gives,
/// if it has a corner with a neighbour.
pub fn corner(
    survey: &Survey,
    i: IntersectionId,
    lines: &Vec<Approach>,
    roads: &Vec<Road>,
    dims: &Dimensions,
    k: usize,
) -> (r: Result<Option<Corner>, Query>)
    requires
        ring_of(lines@, roads@),
        k < lines@.len(),
    ensures
        match r {
            Ok(Some(c)) => corner_of(survey@, i, lines@, roads@, *dims, k as int) == Ok::<
                Option<CornerView>,
                Query,
            >(Some(c@)) && c@.points.len() >= 2,
            Ok(None) => corner_of(survey@, i, lines@, roads@, *dims, k as int) == Ok::<
                Option<CornerView>,
                Query,
            >(None),
            Err(q) => corner_of(survey@, i, lines@, roads@, *dims, k as int) == Err::<
                Option<CornerView>,
                Query,
            >(q),
        },
{
    let idx: isize = k as isize;
    let a: &Approach = wraparound_get(lines, idx);
    let after: &Approach = wraparound_get(lines, idx + 1);
    let before: &Approach = wraparound_get(lines, idx - 1);
    proof {
        wrap_is_a_place(k as int, lines@.len() as int);
        wrap_is_a_place(k + 1, lines@.len() as int);
        wrap_is_a_place(k - 1, lines@.len() as int);
    }
    let road: &Road = &roads[a.road.0];
    let center = toward(survey, road, i)?;
    let fwd = candidate(survey, a.normal, before.reverse, center)?;
    let back = candidate(survey, a.reverse, after.normal, center)?;
    let shorter = match chosen(survey, fwd, back)? {
        Some(shorter) => shorter,
        None => {
            return Ok(None);
        },
    };
    let c = rebuilt(survey, i, a, road, dims, fwd, back, shorter)?;
    Ok(Some(c))
}

/// The pass over all roads of the ring: finds the two corners of each
/// road, cuts the road back to the nearer one, and gathers the outline.
/// Where some road has no corner, there is no outline and no road is cut.
pub fn make_new_polygon(
    survey: &Survey,
    i: IntersectionId,
    lines: &Vec<Approach>,
    roads: &Vec<Road>,
    dims: &Dimensions,
) -> (r: Result<Option<Pass>, Query>)
    requires
        ring_of(lines@, roads@),
    ensures
        match r {
            Ok(Some(pass)) => corner_pass_of(survey@, i, lines@, roads@, *dims) == Ok::<
                Option<PassView>,
                Query,
            >(Some(pass@)) && pass@.points.len() > 0,
            Ok(None) => corner_pass_of(survey@, i, lines@, roads@, *dims) == Ok::<
                Option<PassView>,
                Query,
            >(None),
            Err(q) => corner_pass_of(survey@, i, lines@, roads@, *dims) == Err::<
                Option<PassView>,
                Query,
            >(q),
        },
{
    let ghost steps = corner_steps(survey@, i, lines@, roads@, *dims);
    let ghost mut corners: Seq<CornerView> = Seq::empty();
    let mut endpoints: Vec<Pt> = Vec::new();
    let mut trims: Vec<Trim> = Vec::new();
    let mut k: usize = 0;
    proof {
        assert(gather(steps.take(0)) == (Seq::<CornerView>::empty(), None::<Stop>));
        assert(corners.map_values(|c: CornerView| c.points) == Seq::<Seq<Pt>>::empty());
        assert(corner_trims_of(corners) == Seq::<Trim>::empty());
    }
    while k < lines.len()
        invariant
            k <= lines.len(),
            ring_of(lines@, roads@),
            steps == corner_steps(survey@, i, lines@, roads@, *dims),
            gather(steps.take(k as int)) == (corners, None::<Stop>),
            endpoints@ == corner_points_of(corners),
            trims@ == corner_trims_of(corners),
            k > 0 ==> endpoints@.len() > 0,
        decreases lines.len() - k,
    {
        proof {
            gather_one_more(steps, k as int);
        }
        match corner(survey, i, lines, roads, dims, k) {
            Err(q) => {
                proof {
                    gather_stays_stopped(steps, k + 1);
                }
                return Err(q);
            },
            Ok(None) => {
                proof {
                    gather_stays_stopped(steps, k + 1);
                }
                return Ok(None);
            },
            Ok(Some(c)) => {
                let mut points = c.points;
                proof {
                    let longer = corners.push(c@);
                    assert(longer.map_values(|c: CornerView| c.points) == corners.map_values(
                        |c: CornerView| c.points,
                    ).push(c@.points));
                    assert(longer.map_values(|c: CornerView| c.points).drop_last()
                        == corners.map_values(|c: CornerView| c.points));
                    assert(corner_trims_of(longer) == corner_trims_of(corners).push(c@.trim));
                    corners = longer;
                }
                endpoints.append(&mut points);
                trims.push(c.trim);
            },
        }
        k = k + 1;
    }
    proof {
        assert(steps.take(k as int) == steps);
        dedup_leaves_no_repeat(endpoints@);
    }
    Ok(Some(Pass { points: dedup(&endpoints), trims }))
}

} // verus!
