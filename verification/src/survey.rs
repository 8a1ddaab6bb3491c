//! The questions about geometry that the builder puts, and the answers
//! that the caller has measured so far.

use crate::geometry::{Angle, Hit, PolylineId, Pt};
use vstd::prelude::*;

verus! {

/// One question about the geometry. Each names polylines that the measurer
/// holds and asks for one thing that only the measurer can work out.
#[derive(Clone, Copy, Debug, PartialEq, Eq, Hash, Structural)]
pub enum Query {
    /// The polyline with its points in the opposite order.
    Reversed { of: PolylineId },
    /// The polyline moved sideways by `width`.
    Shifted { of: PolylineId, width: u64 },
    /// The polyline without the first `by` units of its length.
    WithoutStart { of: PolylineId, by: u64 },
    /// The polyline without the last `by` units of its length.
    WithoutEnd { of: PolylineId, by: u64 },
    /// The polyline cut so that it ends at `at`.
    TrimmedTo { of: PolylineId, at: Pt },
    /// The last point of the polyline.
    LastPt { of: PolylineId },
    /// The point `dist` along the polyline, which is known to be that long.
    DistAlong { of: PolylineId, dist: u64 },
    /// The point `dist` along the polyline, if it is that long.
    SafeDistAlong { of: PolylineId, dist: u64 },
    /// Where the polyline meets the endless line through `through` that
    /// runs in the direction `heading`.
    InfiniteHit { of: PolylineId, through: Pt, heading: Angle },
    /// Where the polyline meets the endless line that the last segment of
    /// `other` lies on.
    ExtensionHit { of: PolylineId, other: PolylineId },
    /// The length of the polyline.
    Length { of: PolylineId },
    /// The direction of the last segment of the polyline.
    LastAngle { of: PolylineId },
    /// Where the two polylines cross.
    Intersection { a: PolylineId, b: PolylineId },
}

/// What the measurer found.
#[derive(Clone, Copy, Debug, PartialEq, Eq, Hash, Structural)]
pub enum Answer {
    Polyline(PolylineId),
    Point(Pt),
    MaybePoint(Option<Pt>),
    Length(u64),
    Angle(Angle),
    MaybeHit(Option<Hit>),
}

/// One question with what was found.
#[derive(Clone, Copy, Debug, PartialEq, Eq, Hash, Structural)]
pub struct Finding {
    pub query: Query,
    pub answer: Answer,
}

/// Whether the answer is of the kind that the question asks for.
pub open spec fn fits(q: Query, a: Answer) -> bool {
    match q {
        Query::Reversed { .. } => a is Polyline,
        Query::Shifted { .. } => a is Polyline,
        Query::WithoutStart { .. } => a is Polyline,
        Query::WithoutEnd { .. } => a is Polyline,
        Query::TrimmedTo { .. } => a is Polyline,
        Query::LastPt { .. } => a is Point,
        Query::DistAlong { .. } => a is Point,
        Query::SafeDistAlong { .. } => a is MaybePoint,
        Query::InfiniteHit { .. } => a is MaybePoint,
        Query::ExtensionHit { .. } => a is MaybePoint,
        Query::Length { .. } => a is Length,
        Query::LastAngle { .. } => a is Angle,
        Query::Intersection { .. } => a is MaybeHit,
    }
}

/// Whether `m` holds, for the question, an answer of the kind it asks for.
pub open spec fn known(m: Map<Query, Answer>, q: Query) -> bool {
    m.dom().contains(q) && fits(q, m[q])
}

/// Whether `more` holds every answer that `m` holds.
pub open spec fn extends(more: Map<Query, Answer>, m: Map<Query, Answer>) -> bool {
    forall|q: Query| #[trigger] m.dom().contains(q) ==> more.dom().contains(q) && more[q] == m[q]
}

/// What a list of findings says: for each question, the latest answer to it.
pub open spec fn facts(findings: Seq<Finding>) -> Map<Query, Answer>
    decreases findings.len(),
{
    if findings.len() == 0 {
        Map::empty()
    } else {
        facts(findings.drop_last()).insert(findings.last().query, findings.last().answer)
    }
}

/// The polyline that `m` gives for `q`. A question without an answer of
/// this kind comes back as the question still to be put.
pub open spec fn polyline_of(m: Map<Query, Answer>, q: Query) -> Result<PolylineId, Query> {
    if m.dom().contains(q) {
        match m[q] {
            Answer::Polyline(p) => Ok(p),
            _ => Err(q),
        }
    } else {
        Err(q)
    }
}

/// The point that `m` gives for `q`.
pub open spec fn point_of(m: Map<Query, Answer>, q: Query) -> Result<Pt, Query> {
    if m.dom().contains(q) {
        match m[q] {
            Answer::Point(p) => Ok(p),
            _ => Err(q),
        }
    } else {
        Err(q)
    }
}

/// The point, or the finding that there is none, that `m` gives for `q`.
pub open spec fn maybe_point_of(m: Map<Query, Answer>, q: Query) -> Result<Option<Pt>, Query> {
    if m.dom().contains(q) {
        match m[q] {
            Answer::MaybePoint(p) => Ok(p),
            _ => Err(q),
        }
    } else {
        Err(q)
    }
}

/// The length that `m` gives for `q`.
pub open spec fn length_of(m: Map<Query, Answer>, q: Query) -> Result<u64, Query> {
    if m.dom().contains(q) {
        match m[q] {
            Answer::Length(l) => Ok(l),
            _ => Err(q),
        }
    } else {
        Err(q)
    }
}

/// The direction that `m` gives for `q`.
pub open spec fn angle_of(m: Map<Query, Answer>, q: Query) -> Result<Angle, Query> {
    if m.dom().contains(q) {
        match m[q] {
            Answer::Angle(a) => Ok(a),
            _ => Err(q),
        }
    } else {
        Err(q)
    }
}

/// The crossing, or the finding that there is none, that `m` gives for `q`.
pub open spec fn maybe_hit_of(m: Map<Query, Answer>, q: Query) -> Result<Option<Hit>, Query> {
    if m.dom().contains(q) {
        match m[q] {
            Answer::MaybeHit(h) => Ok(h),
            _ => Err(q),
        }
    } else {
        Err(q)
    }
}

impl Answer {
    /// Whether the answer is of the kind that the question asks for.
    pub fn fits(&self, query: Query) -> (b: bool)
        ensures
            b == fits(query, *self),
    {
        match query {
            Query::Reversed { .. }
            | Query::Shifted { .. }
            | Query::WithoutStart { .. }
            | Query::WithoutEnd { .. }
            | Query::TrimmedTo { .. } => matches!(self, Answer::Polyline(_)),
            Query::LastPt { .. } | Query::DistAlong { .. } => matches!(self, Answer::Point(_)),
            Query::SafeDistAlong { .. }
            | Query::InfiniteHit { .. }
            | Query::ExtensionHit { .. } => matches!(self, Answer::MaybePoint(_)),
            Query::Length { .. } => matches!(self, Answer::Length(_)),
            Query::LastAngle { .. } => matches!(self, Answer::Angle(_)),
            Query::Intersection { .. } => matches!(self, Answer::MaybeHit(_)),
        }
    }
}

/// The measurements taken so far.
#[derive(Clone, Debug)]
pub struct Survey {
    findings: Vec<Finding>,
}

impl View for Survey {
    type V = Map<Query, Answer>;

    closed spec fn view(&self) -> Map<Query, Answer> {
        facts(self.findings@)
    }
}

impl Survey {
    /// A survey in which nothing has been measured yet.
    pub fn new() -> (s: Survey)
        ensures
            s@ == Map::<Query, Answer>::empty(),
    {
        Survey { findings: Vec::new() }
    }

    /// Writes down an answer. It replaces what was known for that question.
    pub fn record(&mut self, query: Query, answer: Answer)
        ensures
            final(self)@ == old(self)@.insert(query, answer),
    {
        proof {
            assert(self.findings@.push(Finding { query, answer }).drop_last() == self.findings@);
        }
        self.findings.push(Finding { query, answer });
    }

    /// What is known for a question.
    pub fn answer(&self, query: Query) -> (r: Option<Answer>)
        ensures
            r is Some <==> self@.dom().contains(query),
            r is Some ==> r->Some_0 == self@[query],
    {
        let mut k: usize = self.findings.len();
        proof {
            assert(self.findings@.take(k as int) == self.findings@);
        }
        while k > 0
            invariant
                k <= self.findings.len(),
                facts(self.findings@).dom().contains(query) <==> facts(
                    self.findings@.take(k as int),
                ).dom().contains(query),
                facts(self.findings@).dom().contains(query) ==> facts(self.findings@)[query]
                    == facts(self.findings@.take(k as int))[query],
            decreases k,
        {
            proof {
                assert(self.findings@.take(k as int).drop_last() == self.findings@.take(k - 1));
            }
            k = k - 1;
            if self.findings[k].query == query {
                return Some(self.findings[k].answer);
            }
        }
        None
    }

    /// Whether the survey holds, for the question, an answer of the kind
    /// that it asks for.
    pub fn knows(&self, query: Query) -> (b: bool)
        ensures
            b == known(self@, query),
    {
        match self.answer(query) {
            Some(a) => a.fits(query),
            None => false,
        }
    }

    /// The polyline measured for a question, or the question itself where
    /// that is still to be measured.
    pub fn polyline(&self, query: Query) -> (r: Result<PolylineId, Query>)
        ensures
            r == polyline_of(self@, query),
    {
        match self.answer(query) {
            Some(Answer::Polyline(p)) => Ok(p),
            _ => Err(query),
        }
    }

    /// The point measured for a question.
    pub fn point(&self, query: Query) -> (r: Result<Pt, Query>)
        ensures
            r == point_of(self@, query),
    {
        match self.answer(query) {
            Some(Answer::Point(p)) => Ok(p),
            _ => Err(query),
        }
    }

    /// The point measured for a question that may have none.
    pub fn maybe_point(&self, query: Query) -> (r: Result<Option<Pt>, Query>)
        ensures
            r == maybe_point_of(self@, query),
    {
        match self.answer(query) {
            Some(Answer::MaybePoint(p)) => Ok(p),
            _ => Err(query),
        }
    }

    /// The length measured for a question.
    pub fn length(&self, query: Query) -> (r: Result<u64, Query>)
        ensures
            r == length_of(self@, query),
    {
        match self.answer(query) {
            Some(Answer::Length(l)) => Ok(l),
            _ => Err(query),
        }
    }

    /// The direction measured for a question.
    pub fn angle(&self, query: Query) -> (r: Result<Angle, Query>)
        ensures
            r == angle_of(self@, query),
    {
        match self.answer(query) {
            Some(Answer::Angle(a)) => Ok(a),
            _ => Err(query),
        }
    }

    /// The crossing measured for a question that may have none.
    pub fn maybe_hit(&self, query: Query) -> (r: Result<Option<Hit>, Query>)
        ensures
            r == maybe_hit_of(self@, query),
    {
        match self.answer(query) {
            Some(Answer::MaybeHit(h)) => Ok(h),
            _ => Err(query),
        }
    }
}

} // verus!
