//! Curve segments over an arbitrary point type.
use vstd::prelude::*;

verus! {

/// A straight line from `start` to `end`.
#[derive(Clone, Copy, Debug, PartialEq)]
pub struct Line<P> {
    pub start: P,
    pub end: P,
}

/// A quadratic Bézier curve with one control point.
#[derive(Clone, Copy, Debug, PartialEq)]
pub struct QuadBezier<P> {
    pub start: P,
    pub cp: P,
    pub end: P,
}

/// A cubic Bézier curve with two control points.
#[derive(Clone, Copy, Debug, PartialEq)]
pub struct CubicBezier<P> {
    pub start: P,
    pub cp1: P,
    pub cp2: P,
    pub end: P,
}

impl<P> Line<P> {
    /// The same line traversed from its end to its start.
    pub open spec fn spec_reversed(self) -> Line<P> {
        Line { start: self.end, end: self.start }
    }

    /// Returns the line traversed in the opposite direction.
    pub fn reversed(self) -> (res: Line<P>)
        ensures
            res == self.spec_reversed(),
    {
        Line { start: self.end, end: self.start }
    }
}

impl<P> QuadBezier<P> {
    /// The same curve traversed from its end to its start; the control point stays.
    pub open spec fn spec_reversed(self) -> QuadBezier<P> {
        QuadBezier { start: self.end, cp: self.cp, end: self.start }
    }

    /// Returns the curve traversed in the opposite direction.
    pub fn reversed(self) -> (res: QuadBezier<P>)
        ensures
            res == self.spec_reversed(),
    {
        QuadBezier { start: self.end, cp: self.cp, end: self.start }
    }
}

impl<P> CubicBezier<P> {
    /// The same curve traversed from its end to its start; the control points swap.
    pub open spec fn spec_reversed(self) -> CubicBezier<P> {
        CubicBezier { start: self.end, cp1: self.cp2, cp2: self.cp1, end: self.start }
    }

    /// Returns the curve traversed in the opposite direction.
    pub fn reversed(self) -> (res: CubicBezier<P>)
        ensures
            res == self.spec_reversed(),
    {
        CubicBezier { start: self.end, cp1: self.cp2, cp2: self.cp1, end: self.start }
    }
}

/// Reversing a curve twice gives the curve back, and a reversed curve runs
/// between the same two end points the other way round: a quadratic curve keeps
/// its control point and a cubic curve takes its control points in swapped order.
pub proof fn lemma_reversed_involution<P>(line: Line<P>, quadbez: QuadBezier<P>, cubbez: CubicBezier<P>)
    ensures
        line.spec_reversed().spec_reversed() == line,
        quadbez.spec_reversed().spec_reversed() == quadbez,
        cubbez.spec_reversed().spec_reversed() == cubbez,
        line.spec_reversed().start == line.end && line.spec_reversed().end == line.start,
        quadbez.spec_reversed().start == quadbez.end && quadbez.spec_reversed().end == quadbez.start,
        cubbez.spec_reversed().start == cubbez.end && cubbez.spec_reversed().end == cubbez.start,
        quadbez.spec_reversed().cp == quadbez.cp,
        cubbez.spec_reversed().cp1 == cubbez.cp2 && cubbez.spec_reversed().cp2 == cubbez.cp1,
{
}

} // verus!
