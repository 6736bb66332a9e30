//! Rectangles given by an origin and a size.

use crate::box2d::Box;
use crate::num::Zero;
use crate::point::{Point, Vector};
use crate::size::Size;
use core::ops::{Add, Div, Mul, Sub};
use vstd::prelude::*;
use vstd::std_specs::ops::{AddSpec, DivSpec, MulSpec, SubSpec};

verus! {

/// A two-dimensional rectangle, given by its origin and its size.
#[derive(Debug)]
pub struct Rect<T: Copy> {
    /// The corner from which the rectangle extends.
    pub origin: Point<T>,
    /// The extent of the rectangle.
    pub size: Size<T>,
}

impl<T: Copy> Clone for Rect<T> {
    fn clone(&self) -> (r: Self)
        ensures
            r == *self,
    {
        *self
    }
}

impl<T: Copy> Copy for Rect<T> {

}

impl<T: Copy> Rect<T> {
    /// Get the origin of the rectangle.
    #[inline]
    pub fn origin(self) -> (r: Point<T>)
        ensures
            r == self.origin,
    {
        self.origin
    }

    /// Get the size of the rectangle.
    #[inline]
    pub fn size(self) -> (r: Size<T>)
        ensures
            r == self.size,
    {
        self.size
    }

    /// Get the origin and size of the rectangle.
    #[inline]
    pub fn origin_and_size(self) -> (r: (Point<T>, Size<T>))
        ensures
            r == (self.origin, self.size),
    {
        (self.origin(), self.size())
    }

    /// Get the top left corner of the rectangle: its origin.
    #[inline]
    pub fn top_left(self) -> (r: Point<T>)
        ensures
            r == self.origin,
    {
        self.origin()
    }

    /// Get the top right corner of the rectangle: the origin moved right by
    /// the width, and down by zero.
    #[inline]
    pub fn top_right(self) -> (r: Point<T>) where T: Add<Output = T> + Zero
        requires
            self.origin.x.add_req(self.size.width),
            self.origin.y.add_req(T::zero_spec()),
        ensures
            T::obeys_add_spec() ==> r == (Point {
                x: self.origin.x.add_spec(self.size.width),
                y: self.origin.y.add_spec(T::zero_spec()),
            }),
    {
        self.origin() + Vector::new(self.size().width(), T::zero())
    }

    /// Get the bottom left corner of the rectangle: the origin moved down
    /// by the height, and right by zero.
    #[inline]
    pub fn bottom_left(self) -> (r: Point<T>) where T: Add<Output = T> + Zero
        requires
            self.origin.x.add_req(T::zero_spec()),
            self.origin.y.add_req(self.size.height),
        ensures
            T::obeys_add_spec() ==> r == (Point {
                x: self.origin.x.add_spec(T::zero_spec()),
                y: self.origin.y.add_spec(self.size.height),
            }),
    {
        self.origin() + Vector::new(T::zero(), self.size().height())
    }

    /// The origin moved by the size.
    pub open spec fn far_corner(self) -> Point<T> where T: Add<Output = T> {
        Point {
            x: self.origin.x.add_spec(self.size.width),
            y: self.origin.y.add_spec(self.size.height),
        }
    }

    /// Get the bottom right corner of the rectangle.
    #[inline]
    pub fn bottom_right(self) -> (r: Point<T>) where T: Add<Output = T> + Zero
        requires
            self.origin.x.add_req(self.size.width),
            self.origin.y.add_req(self.size.height),
        ensures
            T::obeys_add_spec() ==> r == self.far_corner(),
    {
        self.origin() + self.size()
    }

    /// Create a new rectangle from an origin and a size.
    #[inline]
    pub fn new(origin: Point<T>, size: Size<T>) -> (r: Self)
        ensures
            r == (Rect { origin, size }),
    {
        Rect { origin, size }
    }

    /// Create a new rectangle from two points.
    #[inline]
    pub fn from_corners(top_left: Point<T>, bottom_right: Point<T>) -> (r: Self) where
        T: Sub<Output = T>,

        requires
            bottom_right.x.sub_req(top_left.x),
            bottom_right.y.sub_req(top_left.y),
        ensures
            T::obeys_sub_spec() ==> r == (Rect {
                origin: top_left,
                size: Size {
                    width: bottom_right.x.sub_spec(top_left.x),
                    height: bottom_right.y.sub_spec(top_left.y),
                },
            }),
    {
        Rect::new(
            top_left,
            Size { width: bottom_right.x - top_left.x, height: bottom_right.y - top_left.y },
        )
    }

    /// Create a new rectangle from a box.
    #[inline]
    pub fn from_box(box_: Box<T>) -> (r: Self) where T: Sub<Output = T>
        requires
            box_.max.x.sub_req(box_.min.x),
            box_.max.y.sub_req(box_.min.y),
        ensures
            T::obeys_sub_spec() ==> r == (Rect {
                origin: box_.min,
                size: Size {
                    width: box_.max.x.sub_spec(box_.min.x),
                    height: box_.max.y.sub_spec(box_.min.y),
                },
            }),
    {
        Rect::new(box_.min(), box_.size())
    }

    /// Create a new rectangle with zero size at zero.
    #[inline]
    pub fn zero() -> (r: Self) where T: Zero
        ensures
            r == (Rect {
                origin: Point { x: T::zero_spec(), y: T::zero_spec() },
                size: Size { width: T::zero_spec(), height: T::zero_spec() },
            }),
    {
        Rect::new(Point::zero(), Size::zero())
    }

    /// Convert this rectangle to a box.
    #[inline]
    pub fn to_box(self) -> (r: Box<T>) where T: Add<Output = T> + Zero
        requires
            self.origin.x.add_req(self.size.width),
            self.origin.y.add_req(self.size.height),
        ensures
            T::obeys_add_spec() ==> r == (Box { min: self.origin, max: self.far_corner() }),
    {
        Box::new(self.origin(), self.bottom_right())
    }

    /// Get the area of the rectangle.
    #[inline]
    pub fn area(self) -> (r: T) where T: Mul<Output = T> + Add<Output = T>
        requires
            self.size.width.mul_req(self.size.height),
        ensures
            T::obeys_mul_spec() ==> r == self.size.width.mul_spec(self.size.height),
    {
        self.size.width * self.size.height
    }
}

impl<T: Copy + Div<Output = T>> Div<T> for Rect<T> {
    type Output = Self;

    /// Divides the origin and the size by the scalar.
    #[inline]
    fn div(self, rhs: T) -> (r: Self) {
        Rect::new(self.origin() / rhs, self.size() / rhs)
    }
}

impl<T: Copy + Div<Output = T>> vstd::std_specs::ops::DivSpecImpl<T> for Rect<T> {
    open spec fn obeys_div_spec() -> bool {
        T::obeys_div_spec()
    }

    open spec fn div_req(self, rhs: T) -> bool {
        &&& self.origin.x.div_req(rhs)
        &&& self.origin.y.div_req(rhs)
        &&& self.size.width.div_req(rhs)
        &&& self.size.height.div_req(rhs)
    }

    open spec fn div_spec(self, rhs: T) -> Self {
        Rect {
            origin: Point { x: self.origin.x.div_spec(rhs), y: self.origin.y.div_spec(rhs) },
            size: Size {
                width: self.size.width.div_spec(rhs),
                height: self.size.height.div_spec(rhs),
            },
        }
    }
}

} // verus!
