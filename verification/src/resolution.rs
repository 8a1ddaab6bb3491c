//! What building an intersection comes to.

use crate::geometry::Pt;
use crate::network::{Diagnostic, Trim};
use crate::survey::Query;
use vstd::prelude::*;

verus! {

/// What one way of building an intersection has come to: the points of its
/// outline before the ring is closed, the new centerlines of its roads, and
/// the reports of what had to be made in a cruder way.
#[derive(Clone, Debug, PartialEq, Eq)]
pub struct Resolution {
    pub points: Vec<Pt>,
    pub trims: Vec<Trim>,
    pub notes: Vec<Diagnostic>,
}

/// A resolution as plain sequences.
pub struct ResolutionView {
    pub points: Seq<Pt>,
    pub trims: Seq<Trim>,
    pub notes: Seq<Diagnostic>,
}

impl View for Resolution {
    type V = ResolutionView;

    open spec fn view(&self) -> ResolutionView {
        ResolutionView { points: self.points@, trims: self.trims@, notes: self.notes@ }
    }
}

/// Whether what was built is what the model gives: the same resolution, or
/// the same question still to be put.
pub open spec fn resolved(r: Result<Resolution, Query>, s: Result<ResolutionView, Query>) -> bool {
    match r {
        Ok(v) => s == Ok::<ResolutionView, Query>(v@),
        Err(q) => s == Err::<ResolutionView, Query>(q),
    }
}

/// The first of four results that is a question, or the four points.
pub open spec fn four_points(
    a: Result<Pt, Query>,
    b: Result<Pt, Query>,
    c: Result<Pt, Query>,
    d: Result<Pt, Query>,
) -> Result<Seq<Pt>, Query> {
    match a {
        Err(q) => Err(q),
        Ok(pt1) => match b {
            Err(q) => Err(q),
            Ok(pt2) => match c {
                Err(q) => Err(q),
                Ok(pt3) => match d {
                    Err(q) => Err(q),
                    Ok(pt4) => Ok(seq![pt1, pt2, pt3, pt4]),
                },
            },
        },
    }
}

} // verus!
