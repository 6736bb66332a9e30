//! Scaling.

use super::Transform;
use crate::point::{Point, Vector};
use core::ops::Mul;
use vstd::prelude::*;
use vstd::std_specs::ops::MulSpec;

verus! {

/// A scaling transform.
#[derive(Debug)]
pub struct Scale<T: Copy> {
    /// The factors by which the X and the Y coordinates are scaled.
    pub vector: Vector<T>,
}

impl<T: Copy> Clone for Scale<T> {
    fn clone(&self) -> (r: Self)
        ensures
            r == *self,
    {
        *self
    }
}

impl<T: Copy> Copy for Scale<T> {

}

impl<T: Copy> Scale<T> {
    /// Create a new scaling transform.
    #[inline]
    pub fn new(vector: Vector<T>) -> (r: Self)
        ensures
            r.vector == vector,
    {
        Scale { vector }
    }

    /// Create a new scaling transform with a uniform scale.
    #[inline]
    pub fn uniform(scale: T) -> (r: Self)
        ensures
            r.vector == (Vector { x: scale, y: scale }),
    {
        Scale { vector: Vector::splat(scale) }
    }

    /// Get the scaling vector.
    #[inline]
    pub fn vector(&self) -> (r: Vector<T>)
        ensures
            r == self.vector,
    {
        self.vector
    }
}

impl<T: Copy> From<Vector<T>> for Scale<T> {
    #[inline]
    fn from(vector: Vector<T>) -> (r: Self) {
        Scale::new(vector)
    }
}

impl<T: Copy> vstd::std_specs::convert::FromSpecImpl<Vector<T>> for Scale<T> {
    open spec fn obeys_from_spec() -> bool {
        true
    }

    open spec fn from_spec(vector: Vector<T>) -> Self {
        Scale { vector }
    }
}

impl<T: Copy + Mul<Output = T>> Transform<T> for Scale<T> {
    open spec fn applies_to(&self, point: Point<T>) -> bool {
        &&& T::obeys_mul_spec()
        &&& point.x.mul_req(self.vector.x)
        &&& point.y.mul_req(self.vector.y)
    }

    open spec fn transformed(&self, point: Point<T>) -> Point<T> {
        Point { x: point.x.mul_spec(self.vector.x), y: point.y.mul_spec(self.vector.y) }
    }

    #[inline]
    fn transform_point(&self, point: Point<T>) -> (r: Point<T>) {
        Point { x: point.x * self.vector.x, y: point.y * self.vector.y }
    }
}

} // verus!
