//! The roads of an intersection as they run into it: for each road the two
//! edges of its band of lanes, both ending at the intersection, and the
//! direction of its last stretch.

use crate::geometry::{Angle, PolylineId};
use crate::network::{Diagnostic, Dimensions, Intersection, IntersectionId, Road, RoadId};
use crate::runs::{gather, gather_one_more, gather_stays_stopped};
use crate::survey::{angle_of, extends, polyline_of, Answer, Query, Survey};
use vstd::prelude::*;

verus! {

/// One road as it runs into an intersection: the direction of the last
/// segment of its centerline, and the two edges of its band of lanes, both
/// ending at the intersection.
#[derive(Clone, Copy, Debug, PartialEq, Eq, Hash, Structural)]
pub struct Approach {
    pub road: RoadId,
    pub angle: Angle,
    /// The edge on the normal side.
    pub normal: PolylineId,
    /// The edge on the reverse side.
    pub reverse: PolylineId,
}

/// Whether the intersection and the roads fit together: at least one road
/// meets at the intersection and no more than signed indices can count
/// round the ring, each of them is in the list of roads, and each has
/// exactly one of its ends at the intersection.
pub open spec fn consistent(i: Intersection, roads: Seq<Road>) -> bool {
    &&& 0 < i.roads@.len() <= isize::MAX - 2
    &&& forall|k: int|
        0 <= k < i.roads@.len() ==> {
            &&& (#[trigger] i.roads@[k]).0 < roads.len()
            &&& roads[i.roads@[k].0 as int].spec_touches(i.id)
        }
}

/// Whether the intersection and the roads fit together.
pub fn is_consistent(i: &Intersection, roads: &Vec<Road>) -> (b: bool)
    ensures
        b == consistent(*i, roads@),
{
    if i.roads.len() == 0 || i.roads.len() > (isize::MAX as usize) - 2 {
        return false;
    }
    let mut k: usize = 0;
    while k < i.roads.len()
        invariant
            k <= i.roads.len(),
            forall|j: int|
                0 <= j < k ==> {
                    &&& (#[trigger] i.roads@[j]).0 < roads.len()
                    &&& roads@[i.roads@[j].0 as int].spec_touches(i.id)
                },
        decreases i.roads.len() - k,
    {
        let id: RoadId = i.roads[k];
        if id.0 >= roads.len() {
            return false;
        }
        if !roads[id.0].touches(i.id) {
            return false;
        }
        k = k + 1;
    }
    true
}

/// Whether the road at place `k` of the intersection's list is in the list
/// of roads and has not exactly one of its ends at the intersection.
pub open spec fn misfit_at(i: Intersection, roads: Seq<Road>, k: int) -> bool {
    i.roads@[k].0 < roads.len() && !roads[i.roads@[k].0 as int].spec_touches(i.id)
}

/// The first road of the intersection's list that does not have exactly
/// one of its ends there, as a report; none where there is no such road.
pub fn misfit(i: &Intersection, roads: &Vec<Road>) -> (r: Option<Diagnostic>)
    ensures
        r is None <==> forall|k: int| 0 <= k < i.roads@.len() ==> !misfit_at(*i, roads@, k),
        r is Some ==> exists|k: int|
            {
                &&& 0 <= k < i.roads@.len()
                &&& #[trigger] misfit_at(*i, roads@, k)
                &&& forall|j: int| 0 <= j < k ==> !misfit_at(*i, roads@, j)
                &&& r == Some(Diagnostic::Misfit { intersection: i.id, road: i.roads@[k] })
            },
{
    let mut k: usize = 0;
    while k < i.roads.len()
        invariant
            k <= i.roads.len(),
            forall|j: int| 0 <= j < k ==> !misfit_at(*i, roads@, j),
        decreases i.roads.len() - k,
    {
        let id: RoadId = i.roads[k];
        if id.0 < roads.len() && !roads[id.0].touches(i.id) {
            assert(misfit_at(*i, roads@, k as int));
            return Some(Diagnostic::Misfit { intersection: i.id, road: id });
        }
        k = k + 1;
    }
    None
}

/// The centerline of the road as it runs toward `i`: turned round where
/// the road starts there.
pub open spec fn toward_line(m: Map<Query, Answer>, road: Road, i: IntersectionId) -> Result<
    PolylineId,
    Query,
> {
    if road.src_i == i {
        polyline_of(m, Query::Reversed { of: road.center_pts })
    } else {
        Ok(road.center_pts)
    }
}

/// The edge on the reverse side of `line`: the line is turned round,
/// moved sideways by `width`, and turned back.
pub open spec fn reverse_border(m: Map<Query, Answer>, line: PolylineId, width: u64) -> Result<
    PolylineId,
    Query,
> {
    match polyline_of(m, Query::Reversed { of: line }) {
        Err(q) => Err(q),
        Ok(back) => match polyline_of(m, Query::Shifted { of: back, width }) {
            Err(q) => Err(q),
            Ok(moved) => polyline_of(m, Query::Reversed { of: moved }),
        },
    }
}

/// The two edges of `line`: the normal one and the reverse one.
pub open spec fn border_pair(
    m: Map<Query, Answer>,
    line: PolylineId,
    width_normal: u64,
    width_reverse: u64,
) -> Result<(PolylineId, PolylineId), Query> {
    match polyline_of(m, Query::Shifted { of: line, width: width_normal }) {
        Err(q) => Err(q),
        Ok(normal) => match reverse_border(m, line, width_reverse) {
            Err(q) => Err(q),
            Ok(reverse) => Ok((normal, reverse)),
        },
    }
}

/// The road `id` as it runs into `i`.
pub open spec fn approach_of(
    m: Map<Query, Answer>,
    id: RoadId,
    road: Road,
    i: IntersectionId,
    dims: Dimensions,
) -> Result<Approach, Query> {
    match toward_line(m, road, i) {
        Err(q) => Err(q),
        Ok(line) => match border_pair(
            m,
            line,
            road.spec_normal_width(i, dims) as u64,
            road.spec_reverse_width(i, dims) as u64,
        ) {
            Err(q) => Err(q),
            Ok(pair) => match angle_of(m, Query::LastAngle { of: line }) {
                Err(q) => Err(q),
                Ok(angle) => Ok(Approach { road: id, angle, normal: pair.0, reverse: pair.1 }),
            },
        },
    }
}

/// The roads of the intersection, each as it runs into it, in the order in
/// which the intersection lists them.
pub open spec fn approach_steps(
    m: Map<Query, Answer>,
    i: Intersection,
    roads: Seq<Road>,
    dims: Dimensions,
) -> Seq<Result<Approach, Query>> {
    Seq::new(
        i.roads@.len(),
        |k: int| approach_of(m, i.roads@[k], roads[i.roads@[k].0 as int], i.id, dims),
    )
}

/// All the roads of the intersection as they run into it, or the first
/// question that stands in the way.
pub open spec fn approaches_of(
    m: Map<Query, Answer>,
    i: Intersection,
    roads: Seq<Road>,
    dims: Dimensions,
) -> Result<Seq<Approach>, Query> {
    let run = gather(approach_steps(m, i, roads, dims));
    match run.1 {
        Some(q) => Err(q),
        None => Ok(run.0),
    }
}

/// A road that runs into the intersection by what `m` holds does so in
/// the same way by what a survey holds that extends `m`.
pub proof fn approach_stays(
    m: Map<Query, Answer>,
    more: Map<Query, Answer>,
    id: RoadId,
    road: Road,
    i: IntersectionId,
    dims: Dimensions,
)
    requires
        extends(more, m),
        approach_of(m, id, road, i, dims) is Ok,
    ensures
        approach_of(more, id, road, i, dims) == approach_of(m, id, road, i, dims),
{
}

/// Whether a list that was built is the list that the model gives, or the
/// question that came back is the one that the model gives.
pub open spec fn built<T, E>(r: Result<Vec<T>, E>, s: Result<Seq<T>, E>) -> bool {
    match r {
        Ok(v) => s == Ok::<Seq<T>, E>(v@),
        Err(e) => s == Err::<Seq<T>, E>(e),
    }
}

/// The centerline of the road as it runs toward `i`.
pub fn toward(survey: &Survey, road: &Road, i: IntersectionId) -> (r: Result<PolylineId, Query>)
    ensures
        r == toward_line(survey@, *road, i),
{
    if road.src_i == i {
        survey.polyline(Query::Reversed { of: road.center_pts })
    } else {
        Ok(road.center_pts)
    }
}

/// The two edges of `line`, the normal one first.
pub fn borders(survey: &Survey, line: PolylineId, width_normal: u64, width_reverse: u64) -> (r:
    Result<(PolylineId, PolylineId), Query>)
    ensures
        r == border_pair(survey@, line, width_normal, width_reverse),
{
    let normal = survey.polyline(Query::Shifted { of: line, width: width_normal })?;
    let back = survey.polyline(Query::Reversed { of: line })?;
    let moved = survey.polyline(Query::Shifted { of: back, width: width_reverse })?;
    let reverse = survey.polyline(Query::Reversed { of: moved })?;
    Ok((normal, reverse))
}

/// The road `id` as it runs into `i`.
pub fn approach(survey: &Survey, id: RoadId, road: &Road, i: IntersectionId, dims: &Dimensions) -> (r:
    Result<Approach, Query>)
    ensures
        r == approach_of(survey@, id, *road, i, *dims),
{
    let line = toward(survey, road, i)?;
    let widths = road.widths_toward(i, dims);
    let pair = borders(survey, line, widths.0, widths.1)?;
    let angle = survey.angle(Query::LastAngle { of: line })?;
    Ok(Approach { road: id, angle, normal: pair.0, reverse: pair.1 })
}

/// All the roads of the intersection as they run into it, in the order in
/// which the intersection lists them.
pub fn approaches(survey: &Survey, i: &Intersection, roads: &Vec<Road>, dims: &Dimensions) -> (r:
    Result<Vec<Approach>, Query>)
    requires
        consistent(*i, roads@),
    ensures
        built(r, approaches_of(survey@, *i, roads@, *dims)),
        r is Ok ==> r->Ok_0@.len() == i.roads@.len(),
        r is Ok ==> forall|k: int|
            0 <= k < i.roads@.len() ==> (#[trigger] r->Ok_0@[k]).road == i.roads@[k],
{
    let ghost steps = approach_steps(survey@, *i, roads@, *dims);
    let mut lines: Vec<Approach> = Vec::new();
    let mut k: usize = 0;
    proof {
        assert(gather(steps.take(0)) == (Seq::<Approach>::empty(), None::<Query>));
    }
    while k < i.roads.len()
        invariant
            k <= i.roads.len(),
            consistent(*i, roads@),
            steps == approach_steps(survey@, *i, roads@, *dims),
            gather(steps.take(k as int)) == (lines@, None::<Query>),
            lines@.len() == k,
            forall|j: int| 0 <= j < k ==> (#[trigger] lines@[j]).road == i.roads@[j],
        decreases i.roads.len() - k,
    {
        let id: RoadId = i.roads[k];
        proof {
            gather_one_more(steps, k as int);
        }
        match approach(survey, id, &roads[id.0], i.id, dims) {
            Ok(a) => {
                lines.push(a);
            },
            Err(q) => {
                proof {
                    gather_stays_stopped(steps, k + 1);
                }
                return Err(q);
            },
        }
        k = k + 1;
    }
    proof {
        assert(steps.take(k as int) == steps);
    }
    Ok(lines)
}

} // verus!
