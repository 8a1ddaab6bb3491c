//! What holds of every polygon that is built.

use crate::borders::{approach_stays, approach_steps, approaches_of, consistent, Approach};
use crate::corners::{
    as_step, corner_of, corner_pass_has_points, corner_pass_of, corner_pass_stays, corner_steps,
};
use crate::degenerate::{
    dead_end_has_points, dead_end_reach, dead_end_stays, long_enough_of, shortened_of,
    step_back_of, two_way_has_points, two_way_stays, walk_back_of,
};
use crate::intersections::{keys_of, polygon_of, sorted_by_angle};
use crate::network::{
    trims_keep_the_roads, with_trims, Diagnostic, Dimensions, Intersection, Road, RoadId, Trim,
};
use crate::order::{angular_order, angular_order_is_stable, stably_sorted};
use crate::pairs::{pair_steps, pairwise_has_points, pairwise_stays};
use crate::resolution::four_points;
use crate::ring::{dedup_leaves_no_repeat, deduped, is_ring, no_repeat};
use crate::runs::{gather, gather_agrees, gather_reads_from_the_start};
use crate::survey::{extends, known, Answer, Query};
use vstd::prelude::*;

verus! {

/// The roads in angular order are the same roads: every one of them
/// stands at one place of the order. Along the order the whole degrees
/// never fall, and roads with the same whole degrees stay in the order in
/// which they came.
pub proof fn sorting_keeps_the_roads(lines: Seq<Approach>)
    requires
        lines.len() <= usize::MAX,
    ensures
        sorted_by_angle(lines).len() == lines.len(),
        stably_sorted(angular_order(keys_of(lines)), keys_of(lines), lines.len() as int),
        forall|k: int|
            0 <= k < lines.len() ==> #[trigger] sorted_by_angle(lines)[k] == lines[angular_order(
                keys_of(lines),
            )[k] as int],
        forall|a: int, b: int|
            0 <= a < b < lines.len() ==> (#[trigger] sorted_by_angle(
                lines,
            )[a]).angle.spec_whole_degrees() <= (#[trigger] sorted_by_angle(
                lines,
            )[b]).angle.spec_whole_degrees(),
{
    let keys = keys_of(lines);
    let order = angular_order(keys);
    angular_order_is_stable(keys);
    assert forall|a: int, b: int| 0 <= a < b < lines.len() implies (#[trigger] sorted_by_angle(
        lines,
    )[a]).angle.spec_whole_degrees() <= (#[trigger] sorted_by_angle(
        lines,
    )[b]).angle.spec_whole_degrees() by {
        let x = order[a] as int;
        let y = order[b] as int;
        assert(keys[x] <= keys[y]);
        assert(keys[x] == lines[x].angle.spec_whole_degrees() as u32);
        assert(keys[y] == lines[y].angle.spec_whole_degrees() as u32);
    }
}

/// Whatever the number of roads, the polygon that is built is a closed
/// ring: it ends with the point that it starts with, and holds at least
/// one point before that. Before it closes, the ring of one road or of two
/// has at most four points, and no ring has more than four for each road.
pub proof fn polygon_is_a_closed_ring(
    m: Map<Query, Answer>,
    i: Intersection,
    roads: Seq<Road>,
    dims: Dimensions,
)
    requires
        consistent(i, roads),
        polygon_of(m, i, roads, dims) is Ok,
    ensures
        is_ring(polygon_of(m, i, roads, dims)->Ok_0.points),
        i.roads@.len() <= 2 ==> polygon_of(m, i, roads, dims)->Ok_0.points.len() - 1 <= 4,
        polygon_of(m, i, roads, dims)->Ok_0.points.len() - 1 <= 4 * i.roads@.len(),
{
    let unsorted = approaches_of(m, i, roads, dims)->Ok_0;
    approaches_are_as_many(m, i, roads, dims);
    sorting_keeps_the_roads(unsorted);
    let lines = sorted_by_angle(unsorted);
    if lines.len() == 1 {
        dead_end_has_points(m, i.id, lines[0], roads[lines[0].road.0 as int], dims);
    } else if lines.len() == 2 {
        two_way_has_points(
            m,
            i.id,
            lines[0],
            roads[lines[0].road.0 as int],
            lines[1],
            roads[lines[1].road.0 as int],
            dims,
        );
    } else {
        if corner_pass_of(m, i.id, lines, roads, dims) matches Ok(Some(_)) {
            corner_pass_has_points(m, i.id, lines, roads, dims);
        } else {
            pairwise_has_points(m, i.id, lines);
        }
    }
}

/// A dead end whose two borders can both be walked back by twice the
/// half-length: the ring has four points before it closes, the one road
/// gets the centerline that is shorter by exactly twice the half-length on
/// the side of the intersection, and nothing is reported.
pub proof fn dead_end_with_long_borders(
    m: Map<Query, Answer>,
    i: Intersection,
    roads: Seq<Road>,
    dims: Dimensions,
)
    requires
        consistent(i, roads),
        i.roads@.len() == 1,
        approaches_of(m, i, roads, dims) is Ok,
        walk_back_of(m, approaches_of(m, i, roads, dims)->Ok_0[0].normal, dead_end_reach(dims))
            matches Ok(Some(_)),
        walk_back_of(m, approaches_of(m, i, roads, dims)->Ok_0[0].reverse, dead_end_reach(dims))
            matches Ok(Some(_)),
        polygon_of(m, i, roads, dims) is Ok,
    ensures
        ({
            let built = polygon_of(m, i, roads, dims)->Ok_0;
            let at = i.roads@[0].0 as int;
            &&& is_ring(built.points)
            &&& built.points.len() == 4 + 1
            &&& built.notes.len() == 0
            &&& built.trims.len() == 1
            &&& built.trims[0].road == i.roads@[0]
            &&& shortened_of(m, roads[at], i.id, dead_end_reach(dims)) == Ok::<_, Query>(
                built.trims[0].center_pts,
            )
            &&& with_trims(roads, built.trims)[at].center_pts == built.trims[0].center_pts
        }),
{
    let unsorted = approaches_of(m, i, roads, dims)->Ok_0;
    one_road_is_in_order(m, i, roads, dims);
    let built = polygon_of(m, i, roads, dims)->Ok_0;
    reveal_with_fuel(with_trims, 3);
    assert(built.trims.drop_last() == Seq::<Trim>::empty());
    assert(with_trims(roads, built.trims.drop_last()) == roads);
}

/// A dead end of which a border cannot be walked back by twice the
/// half-length: the ring has the two ends of the borders before it closes,
/// no road is cut back, and the shortfall is reported.
pub proof fn dead_end_with_a_short_border(
    m: Map<Query, Answer>,
    i: Intersection,
    roads: Seq<Road>,
    dims: Dimensions,
)
    requires
        consistent(i, roads),
        i.roads@.len() == 1,
        approaches_of(m, i, roads, dims) is Ok,
        walk_back_of(m, approaches_of(m, i, roads, dims)->Ok_0[0].normal, dead_end_reach(dims))
            matches Ok(None) || walk_back_of(
            m,
            approaches_of(m, i, roads, dims)->Ok_0[0].reverse,
            dead_end_reach(dims),
        ) matches Ok(None),
        polygon_of(m, i, roads, dims) is Ok,
    ensures
        ({
            let built = polygon_of(m, i, roads, dims)->Ok_0;
            &&& is_ring(built.points)
            &&& built.points.len() == 2 + 1
            &&& built.trims.len() == 0
            &&& with_trims(roads, built.trims) == roads
            &&& built.notes == seq![
                Diagnostic::DeadEndTooShort { intersection: i.id, road: i.roads@[0] },
            ]
        }),
{
    one_road_is_in_order(m, i, roads, dims);
}

/// Two roads that meet with all four borders at least one half-length
/// long: the ring has at most four points before it closes, no two
/// neighbours among them equal; both roads get the centerline that is
/// shorter by exactly the half-length on the side of the intersection;
/// nothing is reported.
pub proof fn two_way_with_long_borders(
    m: Map<Query, Answer>,
    i: Intersection,
    roads: Seq<Road>,
    dims: Dimensions,
)
    requires
        consistent(i, roads),
        i.roads@.len() == 2,
        approaches_of(m, i, roads, dims) is Ok,
        ({
            let lines = sorted_by_angle(approaches_of(m, i, roads, dims)->Ok_0);
            long_enough_of(m, lines[0], lines[1], dims.degenerate_half_length as u64) == Ok::<
                _,
                Query,
            >(true)
        }),
        polygon_of(m, i, roads, dims) is Ok,
    ensures
        ({
            let lines = sorted_by_angle(approaches_of(m, i, roads, dims)->Ok_0);
            let built = polygon_of(m, i, roads, dims)->Ok_0;
            let half = dims.degenerate_half_length as u64;
            &&& is_ring(built.points)
            &&& 1 <= built.points.len() - 1 <= 4
            &&& no_repeat(built.points.drop_last())
            &&& built.notes.len() == 0
            &&& built.trims.len() == 2
            &&& built.trims[0].road == lines[0].road
            &&& built.trims[1].road == lines[1].road
            &&& shortened_of(m, roads[lines[0].road.0 as int], i.id, half) == Ok::<_, Query>(
                built.trims[0].center_pts,
            )
            &&& shortened_of(m, roads[lines[1].road.0 as int], i.id, half) == Ok::<_, Query>(
                built.trims[1].center_pts,
            )
        }),
{
    let unsorted = approaches_of(m, i, roads, dims)->Ok_0;
    approaches_are_as_many(m, i, roads, dims);
    sorting_keeps_the_roads(unsorted);
    let lines = sorted_by_angle(unsorted);
    let half = dims.degenerate_half_length as u64;
    let raw = four_points(
        step_back_of(m, lines[0].normal, half),
        step_back_of(m, lines[1].reverse, half),
        step_back_of(m, lines[1].normal, half),
        step_back_of(m, lines[0].reverse, half),
    )->Ok_0;
    dedup_leaves_no_repeat(raw);
    let built = polygon_of(m, i, roads, dims)->Ok_0;
    assert(built.points.drop_last() == deduped(raw));
}

/// Three roads or more, each with a corner: the ring has at most four
/// points for each road before it closes, no two neighbours among them
/// equal; every road is cut back, in angular order; nothing is reported.
pub proof fn with_corners_every_road_is_cut(
    m: Map<Query, Answer>,
    i: Intersection,
    roads: Seq<Road>,
    dims: Dimensions,
)
    requires
        consistent(i, roads),
        i.roads@.len() >= 3,
        approaches_of(m, i, roads, dims) is Ok,
        corner_pass_of(
            m,
            i.id,
            sorted_by_angle(approaches_of(m, i, roads, dims)->Ok_0),
            roads,
            dims,
        ) matches Ok(Some(_)),
    ensures
        polygon_of(m, i, roads, dims) is Ok,
        ({
            let lines = sorted_by_angle(approaches_of(m, i, roads, dims)->Ok_0);
            let built = polygon_of(m, i, roads, dims)->Ok_0;
            &&& is_ring(built.points)
            &&& no_repeat(built.points.drop_last())
            &&& built.notes.len() == 0
            &&& built.trims.len() == i.roads@.len()
            &&& forall|k: int|
                0 <= k < i.roads@.len() ==> (#[trigger] built.trims[k]).road == lines[k].road
        }),
{
    let unsorted = approaches_of(m, i, roads, dims)->Ok_0;
    approaches_are_as_many(m, i, roads, dims);
    sorting_keeps_the_roads(unsorted);
    let lines = sorted_by_angle(unsorted);
    corner_pass_has_points(m, i.id, lines, roads, dims);
    let pass = corner_pass_of(m, i.id, lines, roads, dims)->Ok_0->Some_0;
    assert(polygon_of(m, i, roads, dims)->Ok_0.points.drop_last() == pass.points);
}

/// Three roads or more, one of them without a corner: that is reported
/// first, no road is cut back, and the ring has at least one point and at
/// most two for each road before it closes.
pub proof fn without_a_corner_no_road_is_cut(
    m: Map<Query, Answer>,
    i: Intersection,
    roads: Seq<Road>,
    dims: Dimensions,
)
    requires
        consistent(i, roads),
        i.roads@.len() >= 3,
        approaches_of(m, i, roads, dims) is Ok,
        corner_pass_of(
            m,
            i.id,
            sorted_by_angle(approaches_of(m, i, roads, dims)->Ok_0),
            roads,
            dims,
        ) matches Ok(None),
        polygon_of(m, i, roads, dims) is Ok,
    ensures
        ({
            let built = polygon_of(m, i, roads, dims)->Ok_0;
            &&& is_ring(built.points)
            &&& i.roads@.len() <= built.points.len() - 1 <= 2 * i.roads@.len()
            &&& built.trims.len() == 0
            &&& with_trims(roads, built.trims) == roads
            &&& 1 <= built.notes.len() <= 1 + i.roads@.len()
            &&& built.notes[0] == Diagnostic::CornersUnsolved {
                intersection: i.id,
                degree: i.roads@.len() as usize,
            }
        }),
{
    let unsorted = approaches_of(m, i, roads, dims)->Ok_0;
    approaches_are_as_many(m, i, roads, dims);
    sorting_keeps_the_roads(unsorted);
    let lines = sorted_by_angle(unsorted);
    pairwise_has_points(m, i.id, lines);
}

/// The builder asks only for what the survey does not hold: a question
/// that comes back has no answer of its kind there. So each answer that
/// is recorded brings the builder further, and a survey that leaves no
/// question open gets its polygon.
pub proof fn asks_only_for_the_unknown(
    m: Map<Query, Answer>,
    i: Intersection,
    roads: Seq<Road>,
    dims: Dimensions,
)
    ensures
        polygon_of(m, i, roads, dims) is Err ==> !known(m, polygon_of(m, i, roads, dims)->Err_0),
        (forall|q: Query| known(m, q)) ==> polygon_of(m, i, roads, dims) is Ok,
{
    if polygon_of(m, i, roads, dims) is Err {
        let q = polygon_of(m, i, roads, dims)->Err_0;
        if approaches_of(m, i, roads, dims) is Err {
            let steps = approach_steps(m, i, roads, dims);
            gather_reads_from_the_start(steps);
        } else {
            let lines = sorted_by_angle(approaches_of(m, i, roads, dims)->Ok_0);
            if lines.len() > 2 {
                if corner_pass_of(m, i.id, lines, roads, dims) is Err {
                    let steps = corner_steps(m, i.id, lines, roads, dims);
                    gather_reads_from_the_start(steps);
                    let at = gather(steps).0.len() as int;
                    assert(steps[at] == as_step(corner_of(m, i.id, lines, roads, dims, at)));
                } else {
                    let steps = pair_steps(m, i.id, lines);
                    gather_reads_from_the_start(steps);
                }
            }
        }
    }
}

/// Only roads of the intersection are cut back: each new centerline is for
/// a road that the intersection lists, and every road that it does not
/// list is after the building what it was before.
pub proof fn only_roads_of_the_intersection_are_cut(
    m: Map<Query, Answer>,
    i: Intersection,
    roads: Seq<Road>,
    dims: Dimensions,
)
    requires
        consistent(i, roads),
        polygon_of(m, i, roads, dims) is Ok,
    ensures
        forall|k: int|
            0 <= k < polygon_of(m, i, roads, dims)->Ok_0.trims.len() ==> i.roads@.contains(
                (#[trigger] polygon_of(m, i, roads, dims)->Ok_0.trims[k]).road,
            ),
        forall|r: int|
            0 <= r < roads.len() && !i.roads@.contains(RoadId(r as usize)) ==> #[trigger] with_trims(
                roads,
                polygon_of(m, i, roads, dims)->Ok_0.trims,
            )[r] == roads[r],
{
    let unsorted = approaches_of(m, i, roads, dims)->Ok_0;
    approaches_are_as_many(m, i, roads, dims);
    sorting_keeps_the_roads(unsorted);
    let lines = sorted_by_angle(unsorted);
    let order = angular_order(keys_of(unsorted));
    let trims = polygon_of(m, i, roads, dims)->Ok_0.trims;
    assert forall|k: int| 0 <= k < lines.len() implies i.roads@.contains(
        (#[trigger] lines[k]).road,
    ) by {
        assert(lines[k] == unsorted[order[k] as int]);
        assert(unsorted[order[k] as int].road == i.roads@[order[k] as int]);
    }
    if lines.len() > 2 {
        if corner_pass_of(m, i.id, lines, roads, dims) matches Ok(Some(_)) {
            corner_pass_has_points(m, i.id, lines, roads, dims);
        } else {
            pairwise_has_points(m, i.id, lines);
        }
    }
    assert forall|k: int| 0 <= k < trims.len() implies i.roads@.contains(
        (#[trigger] trims[k]).road,
    ) by {
        if lines.len() == 1 {
            assert(trims[k].road == lines[0].road);
        } else if lines.len() == 2 {
            assert(trims[k].road == lines[0].road || trims[k].road == lines[1].road);
        } else {
            assert(trims[k].road == lines[k].road);
        }
    }
    trims_keep_the_roads(roads, trims);
    assert forall|r: int|
        0 <= r < roads.len() && !i.roads@.contains(RoadId(r as usize)) implies #[trigger] with_trims(
        roads,
        trims,
    )[r] == roads[r] by {
        assert forall|k: int| 0 <= k < trims.len() implies trims[k].road.0 != r by {
            assert(i.roads@.contains(trims[k].road));
        }
    }
}

/// What is built does not change when more is measured: a survey that
/// holds every answer of the one from which the polygon was built, and
/// others besides, gives the same polygon, the same new centerlines and
/// the same reports.
pub proof fn more_answers_change_nothing(
    m: Map<Query, Answer>,
    more: Map<Query, Answer>,
    i: Intersection,
    roads: Seq<Road>,
    dims: Dimensions,
)
    requires
        extends(more, m),
        polygon_of(m, i, roads, dims) is Ok,
    ensures
        polygon_of(more, i, roads, dims) == polygon_of(m, i, roads, dims),
{
    let steps = approach_steps(m, i, roads, dims);
    let steps_more = approach_steps(more, i, roads, dims);
    gather_reads_from_the_start(steps);
    assert forall|k: int| 0 <= k < steps.len() implies #[trigger] steps_more[k] == steps[k] by {
        assert(steps[k] is Ok);
        approach_stays(m, more, i.roads@[k], roads[i.roads@[k].0 as int], i.id, dims);
    }
    gather_agrees(steps, steps_more);
    let lines = sorted_by_angle(approaches_of(m, i, roads, dims)->Ok_0);
    if lines.len() == 1 {
        dead_end_stays(m, more, i.id, lines[0], roads[lines[0].road.0 as int], dims);
    } else if lines.len() == 2 {
        two_way_stays(
            m,
            more,
            i.id,
            lines[0],
            roads[lines[0].road.0 as int],
            lines[1],
            roads[lines[1].road.0 as int],
            dims,
        );
    } else {
        corner_pass_stays(m, more, i.id, lines, roads, dims);
        if corner_pass_of(m, i.id, lines, roads, dims) matches Ok(None) {
            pairwise_stays(m, more, i.id, lines);
        }
    }
}

/// As many roads run into the intersection as it lists, each under the
/// name by which it is listed.
pub proof fn approaches_are_as_many(
    m: Map<Query, Answer>,
    i: Intersection,
    roads: Seq<Road>,
    dims: Dimensions,
)
    requires
        approaches_of(m, i, roads, dims) is Ok,
    ensures
        approaches_of(m, i, roads, dims)->Ok_0.len() == i.roads@.len(),
        forall|k: int|
            0 <= k < i.roads@.len() ==> (#[trigger] approaches_of(
                m,
                i,
                roads,
                dims,
            )->Ok_0[k]).road == i.roads@[k],
{
    let steps = approach_steps(m, i, roads, dims);
    gather_reads_from_the_start(steps);
    assert forall|k: int| 0 <= k < i.roads@.len() implies (#[trigger] approaches_of(
        m,
        i,
        roads,
        dims,
    )->Ok_0[k]).road == i.roads@[k] by {
        assert(steps[k] == Ok::<Approach, Query>(gather(steps).0[k]));
    }
}

/// A single road is in angular order as it stands.
proof fn one_road_is_in_order(m: Map<Query, Answer>, i: Intersection, roads: Seq<Road>, dims: Dimensions)
    requires
        i.roads@.len() == 1,
        approaches_of(m, i, roads, dims) is Ok,
    ensures
        sorted_by_angle(approaches_of(m, i, roads, dims)->Ok_0) == approaches_of(
            m,
            i,
            roads,
            dims,
        )->Ok_0,
        approaches_of(m, i, roads, dims)->Ok_0.len() == 1,
        approaches_of(m, i, roads, dims)->Ok_0[0].road == i.roads@[0],
{
    let unsorted = approaches_of(m, i, roads, dims)->Ok_0;
    approaches_are_as_many(m, i, roads, dims);
    sorting_keeps_the_roads(unsorted);
    assert(angular_order(keys_of(unsorted))[0] == 0);
    assert(sorted_by_angle(unsorted)[0] == unsorted[0]);
    assert(sorted_by_angle(unsorted) =~= unsorted);
}

} // verus!
