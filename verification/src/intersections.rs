//! The polygon of an intersection: the roads are put in angular order, the
//! outline is made by the number of roads, and the ring is closed.

use crate::borders::{approaches, approaches_of, consistent, Approach};
use crate::corners::{corner_pass_of, make_new_polygon, ring_of};
use crate::degenerate::{dead_end, dead_end_of, two_way, two_way_of};
use crate::network::{apply_trims, with_trims, Diagnostic, Dimensions, Intersection, Road};
use crate::order::{angular_order, sort_by_key};
use crate::pairs::{pairwise, pairwise_of};
use crate::resolution::{resolved, Resolution, ResolutionView};
use crate::ring::{close_ring, closed, is_ring};
use crate::survey::{Answer, Query, Survey};
use vstd::prelude::*;

verus! {

/// The keys by which the roads are put in order round the intersection:
/// the whole degrees of the direction in which each runs into it.
pub open spec fn keys_of(lines: Seq<Approach>) -> Seq<u32> {
    lines.map_values(|a: Approach| a.angle.spec_whole_degrees() as u32)
}

/// The roads in order of the direction in which they run into the
/// intersection; roads with the same whole degrees stay in the order in
/// which the intersection lists them.
pub open spec fn sorted_by_angle(lines: Seq<Approach>) -> Seq<Approach> {
    angular_order(keys_of(lines)).map_values(|k: usize| lines[k as int])
}

/// An intersection of three roads or more. The pass over the corners of
/// all roads gives the outline where every road has a corner. Where some
/// road has none, that is reported, the outline is made pair by pair
/// instead, and no road is cut back.
pub open spec fn general_of(
    m: Map<Query, Answer>,
    i: Intersection,
    lines: Seq<Approach>,
    roads: Seq<Road>,
    dims: Dimensions,
) -> Result<ResolutionView, Query> {
    match corner_pass_of(m, i.id, lines, roads, dims) {
        Err(q) => Err(q),
        Ok(Some(pass)) => Ok(
            ResolutionView { points: pass.points, trims: pass.trims, notes: Seq::empty() },
        ),
        Ok(None) => match pairwise_of(m, i.id, lines) {
            Err(q) => Err(q),
            Ok(crude) => Ok(
                ResolutionView {
                    points: crude.points,
                    trims: crude.trims,
                    notes: seq![
                        Diagnostic::CornersUnsolved {
                            intersection: i.id,
                            degree: lines.len() as usize,
                        },
                    ] + crude.notes,
                },
            ),
        },
    }
}

/// The outline before the ring is closed, by the number of roads: a dead
/// end for one, a meeting of two for two, corners for three or more.
pub open spec fn outline_of(
    m: Map<Query, Answer>,
    i: Intersection,
    lines: Seq<Approach>,
    roads: Seq<Road>,
    dims: Dimensions,
) -> Result<ResolutionView, Query> {
    if lines.len() == 1 {
        dead_end_of(m, i.id, lines[0], roads[lines[0].road.0 as int], dims)
    } else if lines.len() == 2 {
        two_way_of(
            m,
            i.id,
            lines[0],
            roads[lines[0].road.0 as int],
            lines[1],
            roads[lines[1].road.0 as int],
            dims,
        )
    } else {
        general_of(m, i, lines, roads, dims)
    }
}

/// The polygon of the intersection, as a closed ring, with the new
/// centerlines of its roads and the reports; or the first measurement
/// that is still to be taken.
pub open spec fn polygon_of(
    m: Map<Query, Answer>,
    i: Intersection,
    roads: Seq<Road>,
    dims: Dimensions,
) -> Result<ResolutionView, Query> {
    match approaches_of(m, i, roads, dims) {
        Err(q) => Err(q),
        Ok(unsorted) => match outline_of(m, i, sorted_by_angle(unsorted), roads, dims) {
            Err(q) => Err(q),
            Ok(open) => Ok(
                ResolutionView { points: closed(open.points), trims: open.trims, notes: open.notes },
            ),
        },
    }
}

/// Puts the roads in order of the direction in which they run into the
/// intersection.
pub fn sort_lines(lines: &Vec<Approach>) -> (sorted: Vec<Approach>)
    ensures
        sorted@ == sorted_by_angle(lines@),
        sorted@.len() == lines@.len(),
        forall|k: int|
            0 <= k < sorted@.len() ==> exists|j: int|
                0 <= j < lines@.len() && #[trigger] sorted@[k] == lines@[j],
{
    let mut keys: Vec<u32> = Vec::new();
    let mut k: usize = 0;
    while k < lines.len()
        invariant
            k <= lines.len(),
            keys@ == keys_of(lines@).take(k as int),
        decreases lines.len() - k,
    {
        keys.push(lines[k].angle.whole_degrees());
        assert(keys@ == keys_of(lines@).take(k + 1));
        k = k + 1;
    }
    assert(keys@ == keys_of(lines@));
    let order = sort_by_key(&keys);
    let mut sorted: Vec<Approach> = Vec::new();
    let mut k: usize = 0;
    while k < order.len()
        invariant
            k <= order.len(),
            order@.len() == lines@.len(),
            forall|a: int| 0 <= a < order@.len() ==> #[trigger] order@[a] < lines@.len(),
            sorted@ == order@.map_values(|j: usize| lines@[j as int]).take(k as int),
        decreases order.len() - k,
    {
        sorted.push(lines[order[k]]);
        assert(sorted@ == order@.map_values(|j: usize| lines@[j as int]).take(k + 1));
        k = k + 1;
    }
    assert(sorted@ == order@.map_values(|j: usize| lines@[j as int]));
    assert forall|k: int| 0 <= k < sorted@.len() implies exists|j: int|
        0 <= j < lines@.len() && #[trigger] sorted@[k] == lines@[j] by {
        assert(sorted@[k] == lines@[order@[k] as int]);
    }
    sorted
}

/// Builds an intersection of three roads or more.
pub fn general(
    survey: &Survey,
    i: &Intersection,
    lines: &Vec<Approach>,
    roads: &Vec<Road>,
    dims: &Dimensions,
) -> (r: Result<Resolution, Query>)
    requires
        ring_of(lines@, roads@),
    ensures
        resolved(r, general_of(survey@, *i, lines@, roads@, *dims)),
        r is Ok ==> r->Ok_0@.points.len() > 0,
{
    match make_new_polygon(survey, i.id, lines, roads, dims)? {
        Some(pass) => Ok(Resolution { points: pass.points, trims: pass.trims, notes: Vec::new() }),
        None => {
            let crude = pairwise(survey, i.id, lines)?;
            let mut notes: Vec<Diagnostic> = Vec::new();
            notes.push(Diagnostic::CornersUnsolved { intersection: i.id, degree: lines.len() });
            let mut rest = crude.notes;
            notes.append(&mut rest);
            Ok(Resolution { points: crude.points, trims: crude.trims, notes })
        },
    }
}

/// Builds the polygon of one intersection from what the survey holds, and
/// cuts the centerlines of its roads back so that they end at the polygon.
///
/// The result is the closed ring with the new centerlines and the reports
/// of cruder geometry, and the roads have their new centerlines. Where a
/// measurement is still to be taken, the result is the question for it
/// and the roads are as they were: take the measurement, record it, and
/// call again.
pub fn initial_intersection_polygon(
    i: &Intersection,
    roads: &mut Vec<Road>,
    survey: &Survey,
    dims: &Dimensions,
) -> (r: Result<Resolution, Query>)
    requires
        consistent(*i, old(roads)@),
    ensures
        resolved(r, polygon_of(survey@, *i, old(roads)@, *dims)),
        match r {
            Ok(built) => final(roads)@ == with_trims(old(roads)@, built@.trims) && is_ring(
                built@.points,
            ),
            Err(_) => final(roads)@ == old(roads)@,
        },
{
    let unsorted = approaches(survey, i, roads, dims)?;
    let lines = sort_lines(&unsorted);
    assert(ring_of(lines@, roads@)) by {
        assert forall|k: int| 0 <= k < lines@.len() implies (#[trigger] lines@[k]).road.0
            < roads@.len() by {
            let j = choose|j: int| 0 <= j < unsorted@.len() && lines@[k] == unsorted@[j];
            assert(unsorted@[j].road == i.roads@[j]);
        }
    }
    let open = if lines.len() == 1 {
        dead_end(survey, i.id, &lines[0], &roads[lines[0].road.0], dims)?
    } else if lines.len() == 2 {
        two_way(
            survey,
            i.id,
            &lines[0],
            &roads[lines[0].road.0],
            &lines[1],
            &roads[lines[1].road.0],
            dims,
        )?
    } else {
        general(survey, i, &lines, roads, dims)?
    };
    apply_trims(roads, &open.trims);
    Ok(Resolution { points: close_ring(open.points), trims: open.trims, notes: open.notes })
}

} // verus!
