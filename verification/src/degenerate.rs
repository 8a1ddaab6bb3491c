//! Dead ends and meetings of two roads, which need no corners: their
//! outline is found by walking back along the borders.

use crate::borders::Approach;
use crate::geometry::{PolylineId, Pt};
use crate::network::{Diagnostic, Dimensions, IntersectionId, Road, Trim};
use crate::resolution::{four_points, resolved, Resolution, ResolutionView};
use crate::ring::{dedup, dedup_leaves_no_repeat, deduped};
use crate::survey::{
    extends, length_of, maybe_point_of, point_of, polyline_of, Answer, Query, Survey,
};
use vstd::prelude::*;

verus! {

/// The point `dist` back from the end of a border, if the border is that
/// long.
pub open spec fn walk_back_of(m: Map<Query, Answer>, border: PolylineId, dist: u64) -> Result<
    Option<Pt>,
    Query,
> {
    match polyline_of(m, Query::Reversed { of: border }) {
        Err(q) => Err(q),
        Ok(back) => maybe_point_of(m, Query::SafeDistAlong { of: back, dist }),
    }
}

/// The point `dist` back from the end of a border that is known to be
/// that long.
pub open spec fn step_back_of(m: Map<Query, Answer>, border: PolylineId, dist: u64) -> Result<
    Pt,
    Query,
> {
    match polyline_of(m, Query::Reversed { of: border }) {
        Err(q) => Err(q),
        Ok(back) => point_of(m, Query::DistAlong { of: back, dist }),
    }
}

/// The centerline of the road, shorter by `by` on the side of `i`.
pub open spec fn shortened_of(m: Map<Query, Answer>, road: Road, i: IntersectionId, by: u64) -> Result<
    PolylineId,
    Query,
> {
    if road.src_i == i {
        polyline_of(m, Query::WithoutStart { of: road.center_pts, by })
    } else {
        polyline_of(m, Query::WithoutEnd { of: road.center_pts, by })
    }
}

/// How far a dead end reaches back along its road: twice the half-length.
pub open spec fn dead_end_reach(dims: Dimensions) -> u64 {
    (2 * dims.degenerate_half_length) as u64
}

/// The outline of a dead end. With both walks back along the borders the
/// outline has four corners: the two points walked to, then the ends of
/// the reverse and of the normal border. Without one of them it is the two
/// ends alone.
pub open spec fn dead_end_outline(
    walk_normal: Option<Pt>,
    walk_reverse: Option<Pt>,
    end_normal: Pt,
    end_reverse: Pt,
) -> Seq<Pt> {
    if walk_normal is Some && walk_reverse is Some {
        seq![walk_normal->Some_0, walk_reverse->Some_0, end_reverse, end_normal]
    } else {
        seq![end_normal, end_reverse]
    }
}

/// A dead end: the one road `a` runs into `i` and stops there. Where both
/// borders can be walked back by the reach, the road is cut back by the
/// reach; where not, the road stays as it is and the shortfall is
/// reported.
pub open spec fn dead_end_of(
    m: Map<Query, Answer>,
    i: IntersectionId,
    a: Approach,
    road: Road,
    dims: Dimensions,
) -> Result<ResolutionView, Query> {
    let reach = dead_end_reach(dims);
    match walk_back_of(m, a.normal, reach) {
        Err(q) => Err(q),
        Ok(walk_normal) => match walk_back_of(m, a.reverse, reach) {
            Err(q) => Err(q),
            Ok(walk_reverse) => match point_of(m, Query::LastPt { of: a.normal }) {
                Err(q) => Err(q),
                Ok(end_normal) => match point_of(m, Query::LastPt { of: a.reverse }) {
                    Err(q) => Err(q),
                    Ok(end_reverse) => {
                        let points = dead_end_outline(
                            walk_normal,
                            walk_reverse,
                            end_normal,
                            end_reverse,
                        );
                        if walk_normal is Some && walk_reverse is Some {
                            match shortened_of(m, road, i, reach) {
                                Err(q) => Err(q),
                                Ok(center_pts) => Ok(
                                    ResolutionView {
                                        points,
                                        trims: seq![Trim { road: a.road, center_pts }],
                                        notes: Seq::empty(),
                                    },
                                ),
                            }
                        } else {
                            Ok(
                                ResolutionView {
                                    points,
                                    trims: Seq::empty(),
                                    notes: seq![
                                        Diagnostic::DeadEndTooShort { intersection: i, road: a.road },
                                    ],
                                },
                            )
                        }
                    },
                },
            },
        },
    }
}

/// Whether all four borders of two roads are at least `least` long.
pub open spec fn long_enough_of(m: Map<Query, Answer>, a1: Approach, a2: Approach, least: u64) -> Result<
    bool,
    Query,
> {
    match length_of(m, Query::Length { of: a1.normal }) {
        Err(q) => Err(q),
        Ok(l1) => match length_of(m, Query::Length { of: a1.reverse }) {
            Err(q) => Err(q),
            Ok(l2) => match length_of(m, Query::Length { of: a2.normal }) {
                Err(q) => Err(q),
                Ok(l3) => match length_of(m, Query::Length { of: a2.reverse }) {
                    Err(q) => Err(q),
                    Ok(l4) => Ok(l1 >= least && l2 >= least && l3 >= least && l4 >= least),
                },
            },
        },
    }
}

/// Two roads meet, with borders long enough: the outline is made of the
/// points one half-length back along the normal border of the first road,
/// the reverse and the normal border of the second, and the reverse border
/// of the first, equal neighbours cut down to one; both roads are cut back
/// by the half-length.
pub open spec fn two_way_usual_of(
    m: Map<Query, Answer>,
    i: IntersectionId,
    a1: Approach,
    road1: Road,
    a2: Approach,
    road2: Road,
    dims: Dimensions,
) -> Result<ResolutionView, Query> {
    let half = dims.degenerate_half_length as u64;
    match four_points(
        step_back_of(m, a1.normal, half),
        step_back_of(m, a2.reverse, half),
        step_back_of(m, a2.normal, half),
        step_back_of(m, a1.reverse, half),
    ) {
        Err(q) => Err(q),
        Ok(points) => match shortened_of(m, road1, i, half) {
            Err(q) => Err(q),
            Ok(center1) => match shortened_of(m, road2, i, half) {
                Err(q) => Err(q),
                Ok(center2) => Ok(
                    ResolutionView {
                        points: deduped(points),
                        trims: seq![
                            Trim { road: a1.road, center_pts: center1 },
                            Trim { road: a2.road, center_pts: center2 },
                        ],
                        notes: Seq::empty(),
                    },
                ),
            },
        },
    }
}

/// Two roads meet, and a border is too short: the outline is made of the
/// ends of the four borders, no road is cut back, and the shortfall is
/// reported.
pub open spec fn two_way_crude_of(
    m: Map<Query, Answer>,
    i: IntersectionId,
    a1: Approach,
    a2: Approach,
) -> Result<ResolutionView, Query> {
    match four_points(
        point_of(m, Query::LastPt { of: a1.normal }),
        point_of(m, Query::LastPt { of: a1.reverse }),
        point_of(m, Query::LastPt { of: a2.normal }),
        point_of(m, Query::LastPt { of: a2.reverse }),
    ) {
        Err(q) => Err(q),
        Ok(points) => Ok(
            ResolutionView {
                points,
                trims: Seq::empty(),
                notes: seq![
                    Diagnostic::PairTooShort { intersection: i, first: a1.road, second: a2.road },
                ],
            },
        ),
    }
}

/// Two roads meet at `i`.
pub open spec fn two_way_of(
    m: Map<Query, Answer>,
    i: IntersectionId,
    a1: Approach,
    road1: Road,
    a2: Approach,
    road2: Road,
    dims: Dimensions,
) -> Result<ResolutionView, Query> {
    match long_enough_of(m, a1, a2, dims.degenerate_half_length as u64) {
        Err(q) => Err(q),
        Ok(usual) => if usual {
            two_way_usual_of(m, i, a1, road1, a2, road2, dims)
        } else {
            two_way_crude_of(m, i, a1, a2)
        },
    }
}

/// A dead end that is built from what `m` holds is built in the same way
/// from what a survey holds that extends `m`.
pub proof fn dead_end_stays(
    m: Map<Query, Answer>,
    more: Map<Query, Answer>,
    i: IntersectionId,
    a: Approach,
    road: Road,
    dims: Dimensions,
)
    requires
        extends(more, m),
        dead_end_of(m, i, a, road, dims) is Ok,
    ensures
        dead_end_of(more, i, a, road, dims) == dead_end_of(m, i, a, road, dims),
{
}

/// A meeting of two roads that is built from what `m` holds is built in
/// the same way from what a survey holds that extends `m`.
pub proof fn two_way_stays(
    m: Map<Query, Answer>,
    more: Map<Query, Answer>,
    i: IntersectionId,
    a1: Approach,
    road1: Road,
    a2: Approach,
    road2: Road,
    dims: Dimensions,
)
    requires
        extends(more, m),
        two_way_of(m, i, a1, road1, a2, road2, dims) is Ok,
    ensures
        two_way_of(more, i, a1, road1, a2, road2, dims) == two_way_of(
            m,
            i,
            a1,
            road1,
            a2,
            road2,
            dims,
        ),
{
}

/// A dead end that is built has an outline of two points or of four.
pub proof fn dead_end_has_points(
    m: Map<Query, Answer>,
    i: IntersectionId,
    a: Approach,
    road: Road,
    dims: Dimensions,
)
    requires
        dead_end_of(m, i, a, road, dims) is Ok,
    ensures
        dead_end_of(m, i, a, road, dims)->Ok_0.points.len() == 2 || dead_end_of(
            m,
            i,
            a,
            road,
            dims,
        )->Ok_0.points.len() == 4,
{
}

/// A meeting of two roads that is built has an outline of one point at
/// least and of four at most.
pub proof fn two_way_has_points(
    m: Map<Query, Answer>,
    i: IntersectionId,
    a1: Approach,
    road1: Road,
    a2: Approach,
    road2: Road,
    dims: Dimensions,
)
    requires
        two_way_of(m, i, a1, road1, a2, road2, dims) is Ok,
    ensures
        1 <= two_way_of(m, i, a1, road1, a2, road2, dims)->Ok_0.points.len() <= 4,
{
    let half = dims.degenerate_half_length as u64;
    let raw = four_points(
        step_back_of(m, a1.normal, half),
        step_back_of(m, a2.reverse, half),
        step_back_of(m, a2.normal, half),
        step_back_of(m, a1.reverse, half),
    );
    if raw is Ok {
        dedup_leaves_no_repeat(raw->Ok_0);
    }
}

/// The point `dist` back from the end of a border, if the border is that
/// long.
pub fn walk_back(survey: &Survey, border: PolylineId, dist: u64) -> (r: Result<Option<Pt>, Query>)
    ensures
        r == walk_back_of(survey@, border, dist),
{
    let back = survey.polyline(Query::Reversed { of: border })?;
    survey.maybe_point(Query::SafeDistAlong { of: back, dist })
}

/// The point `dist` back from the end of a border that is known to be
/// that long.
pub fn step_back(survey: &Survey, border: PolylineId, dist: u64) -> (r: Result<Pt, Query>)
    ensures
        r == step_back_of(survey@, border, dist),
{
    let back = survey.polyline(Query::Reversed { of: border })?;
    survey.point(Query::DistAlong { of: back, dist })
}

/// The centerline of the road, shorter by `by` on the side of `i`.
pub fn shortened(survey: &Survey, road: &Road, i: IntersectionId, by: u64) -> (r: Result<
    PolylineId,
    Query,
>)
    ensures
        r == shortened_of(survey@, *road, i, by),
{
    if road.src_i == i {
        survey.polyline(Query::WithoutStart { of: road.center_pts, by })
    } else {
        survey.polyline(Query::WithoutEnd { of: road.center_pts, by })
    }
}

/// The outline of a dead end from what was measured: four corners where
/// both borders could be walked back, the two ends of the borders where
/// not.
pub fn dead_end_points(
    walk_normal: Option<Pt>,
    walk_reverse: Option<Pt>,
    end_normal: Pt,
    end_reverse: Pt,
) -> (points: Vec<Pt>)
    ensures
        points@ == dead_end_outline(walk_normal, walk_reverse, end_normal, end_reverse),
        walk_normal is Some && walk_reverse is Some ==> points@.len() == 4,
        !(walk_normal is Some && walk_reverse is Some) ==> points@.len() == 2,
{
    let mut points: Vec<Pt> = Vec::new();
    match (walk_normal, walk_reverse) {
        (Some(pt1), Some(pt2)) => {
            points.push(pt1);
            points.push(pt2);
            points.push(end_reverse);
            points.push(end_normal);
        },
        _ => {
            points.push(end_normal);
            points.push(end_reverse);
        },
    }
    points
}

/// Builds a dead end: the one road `a` runs into `i` and stops there.
pub fn dead_end(survey: &Survey, i: IntersectionId, a: &Approach, road: &Road, dims: &Dimensions) -> (r:
    Result<Resolution, Query>)
    ensures
        resolved(r, dead_end_of(survey@, i, *a, *road, *dims)),
{
    let reach: u64 = 2 * (dims.degenerate_half_length as u64);
    let walk_normal = walk_back(survey, a.normal, reach)?;
    let walk_reverse = walk_back(survey, a.reverse, reach)?;
    let end_normal = survey.point(Query::LastPt { of: a.normal })?;
    let end_reverse = survey.point(Query::LastPt { of: a.reverse })?;
    let points = dead_end_points(walk_normal, walk_reverse, end_normal, end_reverse);
    let mut trims: Vec<Trim> = Vec::new();
    let mut notes: Vec<Diagnostic> = Vec::new();
    if walk_normal.is_some() && walk_reverse.is_some() {
        let center_pts = shortened(survey, road, i, reach)?;
        trims.push(Trim { road: a.road, center_pts });
    } else {
        notes.push(Diagnostic::DeadEndTooShort { intersection: i, road: a.road });
    }
    Ok(Resolution { points, trims, notes })
}

/// Whether all four borders of two roads are at least `least` long.
pub fn long_enough(survey: &Survey, a1: &Approach, a2: &Approach, least: u64) -> (r: Result<
    bool,
    Query,
>)
    ensures
        r == long_enough_of(survey@, *a1, *a2, least),
{
    let l1 = survey.length(Query::Length { of: a1.normal })?;
    let l2 = survey.length(Query::Length { of: a1.reverse })?;
    let l3 = survey.length(Query::Length { of: a2.normal })?;
    let l4 = survey.length(Query::Length { of: a2.reverse })?;
    Ok(l1 >= least && l2 >= least && l3 >= least && l4 >= least)
}

/// Builds the meeting of two roads at `i`.
pub fn two_way(
    survey: &Survey,
    i: IntersectionId,
    a1: &Approach,
    road1: &Road,
    a2: &Approach,
    road2: &Road,
    dims: &Dimensions,
) -> (r: Result<Resolution, Query>)
    ensures
        resolved(r, two_way_of(survey@, i, *a1, *road1, *a2, *road2, *dims)),
{
    let half: u64 = dims.degenerate_half_length as u64;
    let mut raw: Vec<Pt> = Vec::new();
    let mut trims: Vec<Trim> = Vec::new();
    let mut notes: Vec<Diagnostic> = Vec::new();
    if long_enough(survey, a1, a2, half)? {
        let pt1 = step_back(survey, a1.normal, half)?;
        let pt2 = step_back(survey, a2.reverse, half)?;
        let pt3 = step_back(survey, a2.normal, half)?;
        let pt4 = step_back(survey, a1.reverse, half)?;
        raw.push(pt1);
        raw.push(pt2);
        raw.push(pt3);
        raw.push(pt4);
        assert(raw@ == seq![pt1, pt2, pt3, pt4]);
        let points = dedup(&raw);
        let center1 = shortened(survey, road1, i, half)?;
        let center2 = shortened(survey, road2, i, half)?;
        trims.push(Trim { road: a1.road, center_pts: center1 });
        trims.push(Trim { road: a2.road, center_pts: center2 });
        assert(trims@ == seq![
            Trim { road: a1.road, center_pts: center1 },
            Trim { road: a2.road, center_pts: center2 },
        ]);
        Ok(Resolution { points, trims, notes })
    } else {
        let pt1 = survey.point(Query::LastPt { of: a1.normal })?;
        let pt2 = survey.point(Query::LastPt { of: a1.reverse })?;
        let pt3 = survey.point(Query::LastPt { of: a2.normal })?;
        let pt4 = survey.point(Query::LastPt { of: a2.reverse })?;
        raw.push(pt1);
        raw.push(pt2);
        raw.push(pt3);
        raw.push(pt4);
        assert(raw@ == seq![pt1, pt2, pt3, pt4]);
        notes.push(Diagnostic::PairTooShort { intersection: i, first: a1.road, second: a2.road });
        assert(notes@ == seq![
            Diagnostic::PairTooShort { intersection: i, first: a1.road, second: a2.road },
        ]);
        Ok(Resolution { points: raw, trims, notes })
    }
}

} // verus!
