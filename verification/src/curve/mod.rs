//! Bezier curves.

pub mod cubic;
pub mod quad;

pub use cubic::CubicBezier;
pub use quad::QuadraticBezier;

use crate::num::{lerp_scalar, mix, Real};
use crate::point::Point;
use core::ops::Range;
use vstd::prelude::*;

verus! {

/// The point between `a` and `b` at `t`, coordinate by coordinate.
pub open spec fn lerp_spec<T: Real>(a: Point<T>, b: Point<T>, t: T) -> Point<T> {
    Point { x: mix(a.x, b.x, t), y: mix(a.y, b.y, t) }
}

/// Linearly interpolate between two points.
pub fn lerp<T: Real>(a: Point<T>, b: Point<T>, t: T) -> (r: Point<T>)
    ensures
        r == lerp_spec(a, b, t),
{
    Point { x: lerp_scalar(a.x, b.x, t), y: lerp_scalar(a.y, b.y, t) }
}

/// A curve in the plane, run through by a parameter.
pub trait Curve<T: Copy>: Sized {
    /// The kind of curve that a part of this curve is.
    type Subsection;

    /// The kind of curve that the derivative of this curve is.
    type Derivative;

    /// The point of the curve at the parameter `t`.
    spec fn at(&self, t: T) -> Point<T>;

    /// The two parts into which the curve falls at the parameter `index`.
    spec fn halves(self, index: T) -> (Self::Subsection, Self::Subsection);

    /// The part of the curve between two parameters.
    spec fn part(self, start: T, end: T) -> Self::Subsection;

    /// The derivative of the curve.
    spec fn derived(&self) -> Self::Derivative;

    /// Evaluate the curve at parameter `t`.
    fn eval(&self, t: T) -> (r: Point<T>)
        ensures
            r == self.at(t),
    ;

    /// Split the curve into two subsections at the given parameter.
    fn split(self, index: T) -> (r: (Self::Subsection, Self::Subsection))
        ensures
            r == self.halves(index),
    ;

    /// Get a subsection of this curve.
    fn subsection(self, range: Range<T>) -> (r: Self::Subsection)
        ensures
            r == self.part(range.start, range.end),
    ;

    /// Get the derivative of the curve.
    fn derivative(&self) -> (r: Self::Derivative)
        ensures
            r == self.derived(),
    ;
}

} // verus!
