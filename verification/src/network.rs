//! Roads, intersections, the fixed measures of the construction, and the
//! reports of geometry that had to be made in a cruder way.

use crate::geometry::PolylineId;
use vstd::prelude::*;

verus! {

/// The name of a road: its place in the list of roads.
#[derive(Clone, Copy, Debug, PartialEq, Eq, Hash, Structural)]
pub struct RoadId(pub usize);

/// The name of an intersection.
#[derive(Clone, Copy, Debug, PartialEq, Eq, Hash, Structural)]
pub struct IntersectionId(pub usize);

/// A road between two intersections. Its centerline runs from `src_i` to
/// `dst_i`; the forward lanes carry traffic that way, the backward lanes
/// the other way.
#[derive(Clone, Copy, Debug, PartialEq, Eq, Hash, Structural)]
pub struct Road {
    pub id: RoadId,
    pub src_i: IntersectionId,
    pub dst_i: IntersectionId,
    pub center_pts: PolylineId,
    pub lanes_forward: u32,
    pub lanes_backward: u32,
}

/// An intersection and the roads that meet at it, in the order in which
/// they were added.
#[derive(Clone, Debug, PartialEq, Eq)]
pub struct Intersection {
    pub id: IntersectionId,
    pub roads: Vec<RoadId>,
}

/// The fixed measures of the construction, in the units of length that the
/// geometry is measured in.
#[derive(Clone, Copy, Debug, PartialEq, Eq, Hash, Structural)]
pub struct Dimensions {
    /// The width that one lane adds to its side of a road.
    pub lane_thickness: u32,
    /// Half the length that a dead end or a two-way meeting takes up along
    /// each road.
    pub degenerate_half_length: u32,
}

/// A new centerline for a road.
#[derive(Clone, Copy, Debug, PartialEq, Eq, Hash, Structural)]
pub struct Trim {
    pub road: RoadId,
    pub center_pts: PolylineId,
}

/// How unusual the condition is that a diagnostic reports.
#[derive(Clone, Copy, Debug, PartialEq, Eq, Hash, Structural)]
pub enum Severity {
    Note,
    Warning,
    Error,
}

/// A report of what is out of the ordinary. A report changes nothing in
/// what is built.
#[derive(Clone, Copy, Debug, PartialEq, Eq, Hash, Structural)]
pub enum Diagnostic {
    /// A road that the intersection lists has not exactly one of its ends
    /// there: the data is corrupt, and nothing can be built from it.
    Misfit { intersection: IntersectionId, road: RoadId },
    /// The one road of a dead end is too short for the usual shape.
    DeadEndTooShort { intersection: IntersectionId, road: RoadId },
    /// One of the two roads that meet is too short for the usual shape.
    PairTooShort { intersection: IntersectionId, first: RoadId, second: RoadId },
    /// Some road of the intersection has no corner with either neighbour.
    CornersUnsolved { intersection: IntersectionId, degree: usize },
    /// Two neighbouring roads gave no corner, so a border's end stands in.
    NoCorner { intersection: IntersectionId, first: RoadId, second: RoadId, degree: usize },
}

impl Diagnostic {
    /// How unusual the reported condition is: a note where the corners
    /// gave way to the cruder pairs, a warning where geometry is degraded,
    /// an error where the data is corrupt.
    pub open spec fn spec_severity(self) -> Severity {
        match self {
            Diagnostic::Misfit { .. } => Severity::Error,
            Diagnostic::DeadEndTooShort { .. } => Severity::Warning,
            Diagnostic::PairTooShort { .. } => Severity::Warning,
            Diagnostic::CornersUnsolved { .. } => Severity::Note,
            Diagnostic::NoCorner { .. } => Severity::Warning,
        }
    }

    /// How unusual the reported condition is.
    pub fn severity(&self) -> (s: Severity)
        ensures
            s == self.spec_severity(),
    {
        match self {
            Diagnostic::Misfit { .. } => Severity::Error,
            Diagnostic::DeadEndTooShort { .. } => Severity::Warning,
            Diagnostic::PairTooShort { .. } => Severity::Warning,
            Diagnostic::CornersUnsolved { .. } => Severity::Note,
            Diagnostic::NoCorner { .. } => Severity::Warning,
        }
    }
}

impl Road {
    /// Whether exactly one end of the road is at `i`: it starts there or
    /// it ends there, not both.
    pub open spec fn spec_touches(self, i: IntersectionId) -> bool {
        (self.src_i == i) != (self.dst_i == i)
    }

    /// Whether exactly one end of the road is at `i`.
    pub fn touches(&self, i: IntersectionId) -> (b: bool)
        ensures
            b == self.spec_touches(i),
    {
        (self.src_i == i) != (self.dst_i == i)
    }

    /// The width of the band of forward lanes.
    pub open spec fn spec_forward_width(self, dims: Dimensions) -> int {
        dims.lane_thickness * self.lanes_forward
    }

    /// The width of the band of backward lanes.
    pub open spec fn spec_backward_width(self, dims: Dimensions) -> int {
        dims.lane_thickness * self.lanes_backward
    }

    /// The width of the normal side of the road as it runs into `i`: the
    /// backward lanes where the road starts at `i`, else the forward lanes.
    pub open spec fn spec_normal_width(self, i: IntersectionId, dims: Dimensions) -> int {
        if self.src_i == i {
            self.spec_backward_width(dims)
        } else {
            self.spec_forward_width(dims)
        }
    }

    /// The width of the reverse side of the road as it runs into `i`.
    pub open spec fn spec_reverse_width(self, i: IntersectionId, dims: Dimensions) -> int {
        if self.src_i == i {
            self.spec_forward_width(dims)
        } else {
            self.spec_backward_width(dims)
        }
    }

    /// The widths of the normal and of the reverse side of the road as it
    /// runs into `i`. A side without lanes has no width.
    pub fn widths_toward(&self, i: IntersectionId, dims: &Dimensions) -> (w: (u64, u64))
        ensures
            w.0 == self.spec_normal_width(i, *dims),
            w.1 == self.spec_reverse_width(i, *dims),
            self.lanes_forward == 0 && self.lanes_backward == 0 ==> w == (0u64, 0u64),
    {
        let thickness: u64 = dims.lane_thickness as u64;
        assert(dims.lane_thickness * self.lanes_forward <= 0xffff_ffff * 0xffff_ffff)
            by (nonlinear_arith)
            requires
                dims.lane_thickness <= 0xffff_ffff,
                self.lanes_forward <= 0xffff_ffff,
        ;
        assert(dims.lane_thickness * self.lanes_backward <= 0xffff_ffff * 0xffff_ffff)
            by (nonlinear_arith)
            requires
                dims.lane_thickness <= 0xffff_ffff,
                self.lanes_backward <= 0xffff_ffff,
        ;
        let fwd_width: u64 = thickness * (self.lanes_forward as u64);
        let back_width: u64 = thickness * (self.lanes_backward as u64);
        if self.src_i == i {
            (back_width, fwd_width)
        } else {
            (fwd_width, back_width)
        }
    }
}

/// The roads with their new centerlines: each trim, in turn, replaces the
/// centerline of the road that it names.
pub open spec fn with_trims(roads: Seq<Road>, trims: Seq<Trim>) -> Seq<Road>
    decreases trims.len(),
{
    if trims.len() == 0 {
        roads
    } else {
        let before = with_trims(roads, trims.drop_last());
        let t = trims.last();
        if 0 <= t.road.0 < before.len() {
            before.update(
                t.road.0 as int,
                Road { center_pts: t.center_pts, ..before[t.road.0 as int] },
            )
        } else {
            before
        }
    }
}

/// Trimming gives no road, takes none away, and changes nothing of a road
/// but its centerline.
pub proof fn trims_keep_the_roads(roads: Seq<Road>, trims: Seq<Trim>)
    ensures
        with_trims(roads, trims).len() == roads.len(),
        forall|r: int|
            0 <= r < roads.len() ==> {
                &&& (#[trigger] with_trims(roads, trims)[r]).id == roads[r].id
                &&& with_trims(roads, trims)[r].src_i == roads[r].src_i
                &&& with_trims(roads, trims)[r].dst_i == roads[r].dst_i
                &&& with_trims(roads, trims)[r].lanes_forward == roads[r].lanes_forward
                &&& with_trims(roads, trims)[r].lanes_backward == roads[r].lanes_backward
            },
        forall|r: int|
            0 <= r < roads.len() && (forall|k: int| 0 <= k < trims.len() ==> trims[k].road.0 != r)
                ==> #[trigger] with_trims(roads, trims)[r] == roads[r],
    decreases trims.len(),
{
    if trims.len() > 0 {
        trims_keep_the_roads(roads, trims.drop_last());
        assert forall|r: int|
            0 <= r < roads.len() && (forall|k: int|
                0 <= k < trims.len() ==> trims[k].road.0 != r) implies #[trigger] with_trims(
            roads,
            trims,
        )[r] == roads[r] by {
            assert(forall|k: int|
                0 <= k < trims.drop_last().len() ==> trims.drop_last()[k] == trims[k]);
            assert(trims[trims.len() - 1].road.0 != r);
        }
    }
}

/// The centerline that the trims leave for the road at place `r`: that of
/// the last trim which names the road, if there is one.
pub open spec fn last_trim_for(trims: Seq<Trim>, r: int) -> Option<PolylineId>
    decreases trims.len(),
{
    if trims.len() == 0 {
        None
    } else if trims.last().road.0 == r {
        Some(trims.last().center_pts)
    } else {
        last_trim_for(trims.drop_last(), r)
    }
}

/// After trimming, each road holds the centerline of the last trim that
/// names it, and a road that no trim names is what it was.
pub proof fn the_last_trim_counts(roads: Seq<Road>, trims: Seq<Trim>, r: int)
    requires
        0 <= r < roads.len(),
    ensures
        with_trims(roads, trims).len() == roads.len(),
        with_trims(roads, trims)[r] == match last_trim_for(trims, r) {
            Some(center_pts) => Road { center_pts, ..roads[r] },
            None => roads[r],
        },
    decreases trims.len(),
{
    if trims.len() > 0 {
        the_last_trim_counts(roads, trims.drop_last(), r);
    }
}

/// To trim a second time with the same trims changes nothing more.
pub proof fn trimming_again_changes_nothing(roads: Seq<Road>, trims: Seq<Trim>)
    ensures
        with_trims(with_trims(roads, trims), trims) == with_trims(roads, trims),
{
    let once = with_trims(roads, trims);
    trims_keep_the_roads(roads, trims);
    trims_keep_the_roads(once, trims);
    assert forall|r: int| 0 <= r < roads.len() implies with_trims(once, trims)[r] == once[r] by {
        the_last_trim_counts(roads, trims, r);
        the_last_trim_counts(once, trims, r);
    }
    assert(with_trims(once, trims) =~= once);
}

/// Gives the roads their new centerlines.
pub fn apply_trims(roads: &mut Vec<Road>, trims: &Vec<Trim>)
    ensures
        final(roads)@ == with_trims(old(roads)@, trims@),
{
    let mut k: usize = 0;
    while k < trims.len()
        invariant
            k <= trims.len(),
            roads@ == with_trims(old(roads)@, trims@.take(k as int)),
        decreases trims.len() - k,
    {
        proof {
            assert(trims@.take(k + 1).drop_last() == trims@.take(k as int));
        }
        let t: Trim = trims[k];
        if t.road.0 < roads.len() {
            let mut road: Road = roads[t.road.0];
            road.center_pts = t.center_pts;
            roads.set(t.road.0, road);
        }
        k = k + 1;
    }
    proof {
        assert(trims@.take(k as int) == trims@);
    }
}

} // verus!
