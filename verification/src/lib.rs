//! Two-dimensional geometric primitives and a sweep-line tessellator.
//!
//! The crate offers points, vectors, sizes, boxes, lines, curves and a
//! handful of shapes, all generic over their scalar type, together with a
//! Bentley-Ottmann sweep that reports the intersections of a set of line
//! segments and builds trapezoids between the segments as it goes.
//!
//! Every function states what it computes over the scalar operations of its
//! type parameter, so the contracts hold for any scalar whose operators obey
//! their specifications.

pub mod angle;
pub mod arc;
pub mod bentley_ottman;
pub mod box2d;
pub mod color;
pub mod composite;
pub mod curve;
pub mod line;
pub mod num;
pub mod path;
pub mod point;
pub mod rect;
pub mod region;
pub mod size;
pub mod transform;
pub mod trapezoid;
pub mod triangle;

pub use angle::Angle;
pub use arc::Arc;
pub use box2d::{BoundingBox, Box};
pub use color::Color;
pub use curve::{CubicBezier, Curve, QuadraticBezier};
pub use line::{Line, LineSegment, NhLineSegment};
pub use path::{Path, PathBuffer, PathEvent, StraightPathEvent, Verb};
pub use point::{Point, Vector};
pub use rect::Rect;
pub use size::Size;
pub use transform::{Affine, Rotation, Scale, Transform, Translation};
pub use trapezoid::Trapezoid;
pub use triangle::Triangle;

use vstd::prelude::*;

verus! {

/// A general-purpose "direction" type.
#[derive(Debug, Copy, Clone, PartialEq, Eq, PartialOrd, Ord, Hash)]
pub enum Direction {
    /// The direction is forwards.
    Forwards,
    /// The direction is backwards.
    Backwards,
}

impl Default for Direction {
    fn default() -> (r: Self)
        ensures
            r == Direction::Forwards,
    {
        Direction::Forwards
    }
}

/// The rule that decides which regions bounded by a set of edges are filled.
#[derive(Debug, Copy, Clone, PartialEq, Eq, PartialOrd, Ord, Hash)]
pub enum FillRule {
    /// A region is filled when its winding number is not zero.
    Winding,
    /// A region is filled when an odd number of edges is crossed to reach it.
    EvenOdd,
}

/// Tells whether one value is approximately equal to another.
pub trait ApproxEq {
    /// The relation that `approx_eq` decides.
    spec fn approx_eq_spec(&self, other: &Self) -> bool;

    /// Returns true if the values are approximately equal.
    fn approx_eq(&self, other: &Self) -> (r: bool)
        ensures
            r == self.approx_eq_spec(other),
    ;
}

impl ApproxEq for i8 {
    open spec fn approx_eq_spec(&self, other: &Self) -> bool {
        *self == *other
    }

    #[inline]
    fn approx_eq(&self, other: &Self) -> (r: bool) {
        *self == *other
    }
}

impl ApproxEq for i16 {
    open spec fn approx_eq_spec(&self, other: &Self) -> bool {
        *self == *other
    }

    #[inline]
    fn approx_eq(&self, other: &Self) -> (r: bool) {
        *self == *other
    }
}

impl ApproxEq for i32 {
    open spec fn approx_eq_spec(&self, other: &Self) -> bool {
        *self == *other
    }

    #[inline]
    fn approx_eq(&self, other: &Self) -> (r: bool) {
        *self == *other
    }
}

impl ApproxEq for i64 {
    open spec fn approx_eq_spec(&self, other: &Self) -> bool {
        *self == *other
    }

    #[inline]
    fn approx_eq(&self, other: &Self) -> (r: bool) {
        *self == *other
    }
}

impl ApproxEq for isize {
    open spec fn approx_eq_spec(&self, other: &Self) -> bool {
        *self == *other
    }

    #[inline]
    fn approx_eq(&self, other: &Self) -> (r: bool) {
        *self == *other
    }
}

impl ApproxEq for u8 {
    open spec fn approx_eq_spec(&self, other: &Self) -> bool {
        *self == *other
    }

    #[inline]
    fn approx_eq(&self, other: &Self) -> (r: bool) {
        *self == *other
    }
}

impl ApproxEq for u16 {
    open spec fn approx_eq_spec(&self, other: &Self) -> bool {
        *self == *other
    }

    #[inline]
    fn approx_eq(&self, other: &Self) -> (r: bool) {
        *self == *other
    }
}

impl ApproxEq for u32 {
    open spec fn approx_eq_spec(&self, other: &Self) -> bool {
        *self == *other
    }

    #[inline]
    fn approx_eq(&self, other: &Self) -> (r: bool) {
        *self == *other
    }
}

impl ApproxEq for u64 {
    open spec fn approx_eq_spec(&self, other: &Self) -> bool {
        *self == *other
    }

    #[inline]
    fn approx_eq(&self, other: &Self) -> (r: bool) {
        *self == *other
    }
}

impl ApproxEq for usize {
    open spec fn approx_eq_spec(&self, other: &Self) -> bool {
        *self == *other
    }

    #[inline]
    fn approx_eq(&self, other: &Self) -> (r: bool) {
        *self == *other
    }
}

impl<T: ApproxEq> ApproxEq for &T {
    open spec fn approx_eq_spec(&self, other: &Self) -> bool {
        (**self).approx_eq_spec(&**other)
    }

    fn approx_eq(&self, other: &Self) -> (r: bool) {
        T::approx_eq(*self, *other)
    }
}

} // verus!
