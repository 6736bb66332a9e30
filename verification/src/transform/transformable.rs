//! Objects that can be transformed.

use super::affine::Affine;
use super::scale::Scale;
use super::translation::Translation;
use super::Transform;
use crate::point::{Point, Vector};
use core::ops::{Add, Mul};
use vstd::prelude::*;

verus! {

impl<T: Copy> Point<T> {
    /// Transform this point.
    pub fn transform<Tr: Transform<T>>(&self, transform: &Tr) -> (r: Self)
        requires
            transform.applies_to(*self),
        ensures
            r == transform.transformed(*self),
    {
        transform.transform_point(*self)
    }

    /// Move this point by a translation.
    pub fn translate(&self, translation: Translation<T>) -> (r: Self) where T: Add<Output = T>
        requires
            translation.applies_to(*self),
        ensures
            r == translation.transformed(*self),
    {
        self.transform(&translation)
    }

    /// Scale this point.
    pub fn scale(&self, scale: Scale<T>) -> (r: Self) where T: Mul<Output = T>
        requires
            scale.applies_to(*self),
        ensures
            r == scale.transformed(*self),
    {
        self.transform(&scale)
    }

    /// Scale this point by the same factor along both axes.
    pub fn scale_uniform(&self, scale: T) -> (r: Self) where T: Mul<Output = T>
        requires
            (Scale { vector: Vector { x: scale, y: scale } }).applies_to(*self),
        ensures
            r == (Scale { vector: Vector { x: scale, y: scale } }).transformed(*self),
    {
        self.transform(&Scale::uniform(scale))
    }

    /// Apply an affine transform to this point.
    pub fn affine(&self, affine: Affine<T>) -> (r: Self) where
        T: Mul<Output = T> + Add<Output = T>,

        requires
            affine.applies_to(*self),
        ensures
            r == affine.transformed(*self),
    {
        self.transform(&affine)
    }
}

impl<T: Copy> Vector<T> {
    /// Transform this vector: the point that it leads to from the origin
    /// is transformed.
    pub fn transform<Tr: Transform<T>>(&self, transform: &Tr) -> (r: Self)
        requires
            transform.applies_to(Point { x: self.x, y: self.y }),
        ensures
            r == (Vector {
                x: transform.transformed(Point { x: self.x, y: self.y }).x,
                y: transform.transformed(Point { x: self.x, y: self.y }).y,
            }),
    {
        transform.transform_vector(*self)
    }

    /// Move this vector by a translation.
    pub fn translate(&self, translation: Translation<T>) -> (r: Self) where T: Add<Output = T>
        requires
            translation.applies_to(Point { x: self.x, y: self.y }),
        ensures
            r == (Vector {
                x: translation.transformed(Point { x: self.x, y: self.y }).x,
                y: translation.transformed(Point { x: self.x, y: self.y }).y,
            }),
    {
        self.transform(&translation)
    }

    /// Scale this vector.
    pub fn scale(&self, scale: Scale<T>) -> (r: Self) where T: Mul<Output = T>
        requires
            scale.applies_to(Point { x: self.x, y: self.y }),
        ensures
            r == (Vector {
                x: scale.transformed(Point { x: self.x, y: self.y }).x,
                y: scale.transformed(Point { x: self.x, y: self.y }).y,
            }),
    {
        self.transform(&scale)
    }

    /// Scale this vector by the same factor along both axes.
    pub fn scale_uniform(&self, scale: T) -> (r: Self) where T: Mul<Output = T>
        requires
            (Scale { vector: Vector { x: scale, y: scale } }).applies_to(
                Point { x: self.x, y: self.y },
            ),
        ensures
            r == (Vector {
                x: (Scale { vector: Vector { x: scale, y: scale } }).transformed(
                    Point { x: self.x, y: self.y },
                ).x,
                y: (Scale { vector: Vector { x: scale, y: scale } }).transformed(
                    Point { x: self.x, y: self.y },
                ).y,
            }),
    {
        self.transform(&Scale::uniform(scale))
    }

    /// Apply an affine transform to this vector.
    pub fn affine(&self, affine: Affine<T>) -> (r: Self) where
        T: Mul<Output = T> + Add<Output = T>,

        requires
            affine.applies_to(Point { x: self.x, y: self.y }),
        ensures
            r == (Vector {
                x: affine.transformed(Point { x: self.x, y: self.y }).x,
                y: affine.transformed(Point { x: self.x, y: self.y }).y,
            }),
    {
        self.transform(&affine)
    }
}

} // verus!
