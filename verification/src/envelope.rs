//! Positions and axis-aligned envelopes over fixed-point coordinates.

use vstd::prelude::*;

verus! {

/// Coordinates are kept within this bound so that differences and
/// single-step moves of envelope edges never overflow an `i64`.
pub const COORD_BOUND: i64 = 4611686018427387903;

/// A longitude/latitude position in fixed-point coordinate units
/// (x = longitude, y = latitude).
#[derive(Clone, Copy, Debug, PartialEq, Eq, Structural)]
pub struct Position {
    pub x: i64,
    pub y: i64,
}

/// An axis-aligned rectangle over fixed-point coordinates, used both as a
/// query region and as the extent of an index.
#[derive(Clone, Copy, Debug, PartialEq, Eq, Structural)]
pub struct Envelope {
    pub minx: i64,
    pub maxx: i64,
    pub miny: i64,
    pub maxy: i64,
}

impl Position {
    /// True when the position lies within the coordinate bound.
    pub open spec fn in_bounds(self) -> bool {
        -COORD_BOUND <= self.x <= COORD_BOUND && -COORD_BOUND <= self.y <= COORD_BOUND
    }
}

impl Envelope {
    /// Well-formed envelopes have ordered edges and bounded coordinates.
    /// The synthesis engine may transiently visit states with `minx == maxx`
    /// (a collapsed axis), which this predicate still admits.
    pub open spec fn wf(self) -> bool {
        &&& -COORD_BOUND <= self.minx <= COORD_BOUND
        &&& -COORD_BOUND <= self.maxx <= COORD_BOUND
        &&& -COORD_BOUND <= self.miny <= COORD_BOUND
        &&& -COORD_BOUND <= self.maxy <= COORD_BOUND
        &&& self.minx <= self.maxx
        &&& self.miny <= self.maxy
    }

    /// Whether a position lies inside the envelope (edges included).
    pub open spec fn spec_contains(self, p: Position) -> bool {
        self.minx <= p.x <= self.maxx && self.miny <= p.y <= self.maxy
    }

    /// Runtime check matching [`Envelope::spec_contains`].
    pub fn contains(&self, p: &Position) -> (r: bool)
        ensures
            r == self.spec_contains(*p),
    {
        self.minx <= p.x && p.x <= self.maxx && self.miny <= p.y && p.y <= self.maxy
    }

    /// Whether `other` lies entirely inside `self`.
    pub open spec fn spec_contains_env(self, other: Envelope) -> bool {
        self.minx <= other.minx && other.maxx <= self.maxx && self.miny <= other.miny
            && other.maxy <= self.maxy
    }

    /// Runtime check matching [`Envelope::spec_contains_env`].
    pub fn contains_env(&self, other: &Envelope) -> (r: bool)
        ensures
            r == self.spec_contains_env(*other),
    {
        self.minx <= other.minx && other.maxx <= self.maxx && self.miny <= other.miny
            && other.maxy <= self.maxy
    }
}

} // verus!
