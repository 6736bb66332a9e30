//! Transforms of the plane.

pub mod affine;
pub mod rotation;
pub mod scale;
pub mod transformable;
pub mod translation;

pub use affine::Affine;
pub use rotation::Rotation;
pub use scale::Scale;
pub use translation::Translation;

use crate::point::{Point, Vector};
use crate::triangle::Triangle;
use vstd::prelude::*;

verus! {

/// An object that represents a geometric transform.
pub trait Transform<T: Copy> {
    /// The transform can be applied to the point: the arithmetic that it
    /// takes is defined.
    spec fn applies_to(&self, point: Point<T>) -> bool;

    /// Where the transform takes the point.
    spec fn transformed(&self, point: Point<T>) -> Point<T>;

    /// Transform a point.
    fn transform_point(&self, point: Point<T>) -> (r: Point<T>)
        requires
            self.applies_to(point),
        ensures
            r == self.transformed(point),
    ;

    /// Transform a vector: the point that the vector leads to from the
    /// origin is transformed.
    #[inline]
    fn transform_vector(&self, vector: Vector<T>) -> (r: Vector<T>)
        requires
            self.applies_to(Point { x: vector.x, y: vector.y }),
        ensures
            r == (Vector {
                x: self.transformed(Point { x: vector.x, y: vector.y }).x,
                y: self.transformed(Point { x: vector.x, y: vector.y }).y,
            }),
    {
        self.transform_point(vector.into_point()).into_vector()
    }

    /// Transform a triangle, corner by corner.
    #[inline]
    fn transform_triangle(&self, triangle: Triangle<T>) -> (r: Triangle<T>)
        requires
            self.applies_to(triangle.a),
            self.applies_to(triangle.b),
            self.applies_to(triangle.c),
        ensures
            r == (Triangle {
                a: self.transformed(triangle.a),
                b: self.transformed(triangle.b),
                c: self.transformed(triangle.c),
            }),
    {
        Triangle::new(
            self.transform_point(triangle.a()),
            self.transform_point(triangle.b()),
            self.transform_point(triangle.c()),
        )
    }
}

} // verus!
