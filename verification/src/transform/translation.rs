//! Translation.

use super::Transform;
use crate::point::{Point, Vector};
use core::ops::Add;
use vstd::prelude::*;
use vstd::std_specs::ops::AddSpec;

verus! {

/// A translation transform.
#[derive(Debug)]
pub struct Translation<T: Copy> {
    /// The vector by which the points are moved.
    pub vector: Vector<T>,
}

impl<T: Copy> Clone for Translation<T> {
    fn clone(&self) -> (r: Self)
        ensures
            r == *self,
    {
        *self
    }
}

impl<T: Copy> Copy for Translation<T> {

}

impl<T: Copy> Translation<T> {
    /// Create a new translation transform.
    #[inline]
    pub fn new(vector: Vector<T>) -> (r: Self)
        ensures
            r.vector == vector,
    {
        Translation { vector }
    }

    /// Get the translation vector.
    #[inline]
    pub fn vector(&self) -> (r: Vector<T>)
        ensures
            r == self.vector,
    {
        self.vector
    }
}

impl<T: Copy> From<Vector<T>> for Translation<T> {
    #[inline]
    fn from(vector: Vector<T>) -> (r: Self) {
        Translation::new(vector)
    }
}

impl<T: Copy> vstd::std_specs::convert::FromSpecImpl<Vector<T>> for Translation<T> {
    open spec fn obeys_from_spec() -> bool {
        true
    }

    open spec fn from_spec(vector: Vector<T>) -> Self {
        Translation { vector }
    }
}

impl<T: Copy + Add<Output = T>> Transform<T> for Translation<T> {
    open spec fn applies_to(&self, point: Point<T>) -> bool {
        &&& T::obeys_add_spec()
        &&& point.x.add_req(self.vector.x)
        &&& point.y.add_req(self.vector.y)
    }

    open spec fn transformed(&self, point: Point<T>) -> Point<T> {
        Point { x: point.x.add_spec(self.vector.x), y: point.y.add_spec(self.vector.y) }
    }

    #[inline]
    fn transform_point(&self, point: Point<T>) -> (r: Point<T>) {
        Point { x: point.x + self.vector.x, y: point.y + self.vector.y }
    }
}

} // verus!
