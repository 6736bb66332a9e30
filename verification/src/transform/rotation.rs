//! Rotation.

use crate::angle::Angle;
use crate::num::Real;
use crate::point::Point;
use vstd::prelude::*;
use vstd::std_specs::ops::{AddSpec, MulSpec, SubSpec};

verus! {

/// A rotation transform.
#[derive(Debug)]
pub struct Rotation<T: Copy> {
    /// The angle by which the points are turned about the origin.
    pub angle: Angle<T>,
}

impl<T: Copy> Clone for Rotation<T> {
    fn clone(&self) -> (r: Self)
        ensures
            r == *self,
    {
        *self
    }
}

impl<T: Copy> Copy for Rotation<T> {

}

impl<T: Copy> Rotation<T> {
    /// Create a new rotation transform.
    #[inline]
    pub fn new(angle: Angle<T>) -> (r: Self)
        ensures
            r.angle == angle,
    {
        Rotation { angle }
    }

    /// Get the rotation angle.
    #[inline]
    pub fn angle(&self) -> (r: Angle<T>)
        ensures
            r == self.angle,
    {
        self.angle
    }
}

impl<T: Copy> From<Angle<T>> for Rotation<T> {
    #[inline]
    fn from(angle: Angle<T>) -> (r: Self) {
        Rotation::new(angle)
    }
}

impl<T: Copy> vstd::std_specs::convert::FromSpecImpl<Angle<T>> for Rotation<T> {
    open spec fn obeys_from_spec() -> bool {
        true
    }

    open spec fn from_spec(angle: Angle<T>) -> Self {
        Rotation { angle }
    }
}

/// The point turned about the origin by the angle with the given sine and
/// cosine: `(x * cos - y * sin, x * sin + y * cos)`.
pub open spec fn turned<T: Real>(point: Point<T>, sin: T, cos: T) -> Point<T> {
    Point {
        x: point.x.mul_spec(cos).sub_spec(point.y.mul_spec(sin)),
        y: point.x.mul_spec(sin).add_spec(point.y.mul_spec(cos)),
    }
}

/// Turn a point about the origin by the angle with the given sine and
/// cosine.
pub fn turn<T: Real>(point: Point<T>, sin: T, cos: T) -> (r: Point<T>)
    ensures
        r == turned(point, sin, cos),
{
    proof {
        T::lemma_laws();
    }
    Point::new(point.x() * cos - point.y() * sin, point.x() * sin + point.y() * cos)
}

} // verus!
