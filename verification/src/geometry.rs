//! Points, directions and names of polylines, in whole numbers.

use vstd::prelude::*;

verus! {

/// Thousandths of a degree in a full turn.
pub const FULL_TURN: u32 = 360_000;

/// Thousandths of a degree in one degree.
pub const DEGREE: u32 = 1_000;

/// A point of the plane, in whole units of length.
#[derive(Clone, Copy, Debug, PartialEq, Eq, Hash, Structural)]
pub struct Pt {
    pub x: i64,
    pub y: i64,
}

/// A polyline held by whoever measures the geometry. Only its name passes
/// through here: what it looks like is the measurer's business.
#[derive(Clone, Copy, Debug, PartialEq, Eq, Hash, Structural)]
pub struct PolylineId(pub usize);

/// A direction, in thousandths of a degree.
#[derive(Clone, Copy, Debug, PartialEq, Eq, Hash, Structural)]
pub struct Angle {
    pub millidegrees: u32,
}

/// Where two polylines cross, and the direction of the crossing.
#[derive(Clone, Copy, Debug, PartialEq, Eq, Hash, Structural)]
pub struct Hit {
    pub at: Pt,
    pub angle: Angle,
}

impl Angle {
    /// The direction as a measure within one full turn.
    pub open spec fn spec_normalized(self) -> int {
        self.millidegrees as int % FULL_TURN as int
    }

    /// The direction turned by `degrees`, within one full turn.
    pub open spec fn spec_rotate_degs(self, degrees: int) -> Angle {
        Angle { millidegrees: ((self.millidegrees + degrees * DEGREE) % FULL_TURN as int) as u32 }
    }

    /// The direction as a measure within one full turn.
    pub fn normalized(self) -> (r: u32)
        ensures
            r == self.spec_normalized(),
            r < FULL_TURN,
    {
        self.millidegrees % FULL_TURN
    }

    /// The whole degrees of the normalized direction, fractions dropped.
    pub open spec fn spec_whole_degrees(self) -> int {
        self.spec_normalized() / DEGREE as int
    }

    /// The whole degrees of the normalized direction, fractions dropped.
    pub fn whole_degrees(self) -> (r: u32)
        ensures
            r == self.spec_whole_degrees(),
            r < 360,
    {
        self.normalized() / DEGREE
    }

    /// The direction turned by `degrees` (at most one full turn), within one
    /// full turn.
    pub fn rotate_degs(self, degrees: u16) -> (r: Angle)
        ensures
            r == self.spec_rotate_degs(degrees as int),
            r.millidegrees < FULL_TURN,
    {
        let by: u64 = (degrees as u64) * 1_000;
        let turned: u64 = self.millidegrees as u64 + by;
        Angle { millidegrees: (turned % (FULL_TURN as u64)) as u32 }
    }

    /// The direction that points the other way.
    pub open spec fn spec_opposite(self) -> Angle {
        self.spec_rotate_degs(180)
    }

    /// The direction that points the other way.
    pub fn opposite(self) -> (r: Angle)
        ensures
            r == self.spec_opposite(),
            r.millidegrees < FULL_TURN,
    {
        self.rotate_degs(180)
    }
}

/// How far apart two normalized measures are, as plain numbers: no account
/// is taken of the seam at the full turn.
pub open spec fn spec_plain_difference(a: Angle, b: Angle) -> int {
    if a.spec_normalized() >= b.spec_normalized() {
        a.spec_normalized() - b.spec_normalized()
    } else {
        b.spec_normalized() - a.spec_normalized()
    }
}

/// How far apart two normalized measures are, as plain numbers.
pub fn plain_difference(a: Angle, b: Angle) -> (r: u32)
    ensures
        r == spec_plain_difference(a, b),
        r < FULL_TURN,
{
    let x: u32 = a.normalized();
    let y: u32 = b.normalized();
    if x >= y {
        x - y
    } else {
        y - x
    }
}

} // verus!
