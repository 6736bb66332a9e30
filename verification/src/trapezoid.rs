//! A trapezoid with horizontal top and bottom edges.

use crate::box2d::{BoundingBox, Box};
use crate::line::{Line, LineSegment, NhLineSegment};
use crate::num::{le, Real};
use crate::point::{dot_spec, offset_spec, Point};
use crate::ApproxEq;
use vstd::prelude::*;
use vstd::std_specs::ops::{AddSpec, DivSpec, MulSpec, SubSpec};

verus! {

/// A trapezoid with horizontal top and bottom edges.
#[derive(Debug)]
pub struct Trapezoid<T: Copy> {
    /// The height of the top edge of the trapezoid.
    pub top: T,
    /// The height of the bottom edge of the trapezoid.
    pub bottom: T,
    /// The line of the left edge of the trapezoid.
    pub left: Line<T>,
    /// The line of the right edge of the trapezoid.
    pub right: Line<T>,
}

impl<T: Copy> Clone for Trapezoid<T> {
    fn clone(&self) -> (r: Self)
        ensures
            r == *self,
    {
        *self
    }
}

impl<T: Copy> Copy for Trapezoid<T> {

}

impl<T: Copy> Trapezoid<T> {
    /// Create a new trapezoid.
    pub fn new(top: T, bottom: T, left: Line<T>, right: Line<T>) -> (r: Self)
        ensures
            r == (Trapezoid { top, bottom, left, right }),
    {
        Trapezoid { top, bottom, left, right }
    }

    /// Get the top edge of the trapezoid.
    pub fn top(&self) -> (r: T)
        ensures
            r == self.top,
    {
        self.top
    }

    /// Get the bottom edge of the trapezoid.
    pub fn bottom(&self) -> (r: T)
        ensures
            r == self.bottom,
    {
        self.bottom
    }

    /// Get the left edge of the trapezoid.
    pub fn left(&self) -> (r: Line<T>)
        ensures
            r == self.left,
    {
        self.left
    }

    /// Get the right edge of the trapezoid.
    pub fn right(&self) -> (r: Line<T>)
        ensures
            r == self.right,
    {
        self.right
    }
}

impl<T: Real + ApproxEq> Trapezoid<T> {
    /// The top is not below the bottom, and neither side is horizontal.
    pub open spec fn valid(&self) -> bool {
        &&& le(self.top, self.bottom)
        &&& !self.left.horizontal()
        &&& !self.right.horizontal()
    }

    /// The part of `line` between the trapezoid's top and bottom.
    pub open spec fn side(&self, line: Line<T>) -> LineSegment<T> {
        LineSegment {
            from: Point { x: line.x_at_y(self.top), y: self.top },
            to: Point { x: line.x_at_y(self.bottom), y: self.bottom },
        }
    }

    /// The part of the height `y` between the left and the right edge.
    pub open spec fn level(&self, y: T) -> LineSegment<T> {
        LineSegment {
            from: Point { x: self.left.x_at_y(y), y },
            to: Point { x: self.right.x_at_y(y), y },
        }
    }

    /// Get the left edge of the trapezoid as a line segment.
    pub fn left_segment(&self) -> (r: LineSegment<T>)
        requires
            !self.left.horizontal(),
        ensures
            r == self.side(self.left),
    {
        match NhLineSegment::from_line_and_y(self.left, self.top, self.bottom) {
            Some(seg) => seg.to_segment(),
            None => LineSegment::new(self.left.origin(), self.left.origin()),
        }
    }

    /// Get the right edge of the trapezoid as a line segment.
    pub fn right_segment(&self) -> (r: LineSegment<T>)
        requires
            !self.right.horizontal(),
        ensures
            r == self.side(self.right),
    {
        match NhLineSegment::from_line_and_y(self.right, self.top, self.bottom) {
            Some(seg) => seg.to_segment(),
            None => LineSegment::new(self.right.origin(), self.right.origin()),
        }
    }

    /// Get the top side of the trapezoid as a line segment.
    pub fn top_segment(&self) -> (r: LineSegment<T>)
        requires
            !self.left.horizontal(),
            !self.right.horizontal(),
        ensures
            r == self.level(self.top),
    {
        let right_point = self.right.point_at_y(self.top).unwrap();
        let left_point = self.left.point_at_y(self.top).unwrap();
        LineSegment::new(left_point, right_point)
    }

    /// Get the bottom side of the trapezoid as a line segment.
    pub fn bottom_segment(&self) -> (r: LineSegment<T>)
        requires
            !self.left.horizontal(),
            !self.right.horizontal(),
        ensures
            r == self.level(self.bottom),
    {
        let right_point = self.right.point_at_y(self.bottom).unwrap();
        let left_point = self.left.point_at_y(self.bottom).unwrap();
        LineSegment::new(left_point, right_point)
    }

    /// The length of a segment.
    pub open spec fn span(seg: LineSegment<T>) -> T {
        dot_spec(offset_spec(seg.to, seg.from), offset_spec(seg.to, seg.from)).sqrt_spec()
    }

    /// Get the perimeter of the trapezoid.
    pub fn perimeter(&self) -> (r: T)
        requires
            !self.left.horizontal(),
            !self.right.horizontal(),
        ensures
            r == Self::span(self.level(self.top)).add_spec(
                Self::span(self.level(self.bottom)),
            ).add_spec(Self::span(self.side(self.left))).add_spec(
                Self::span(self.side(self.right)),
            ),
    {
        proof {
            T::lemma_laws();
        }
        self.top_segment().length() + self.bottom_segment().length()
            + self.left_segment().length() + self.right_segment().length()
    }

    /// The area of the trapezoid: half the sum of its widths at the top and
    /// at the bottom, times its height.
    pub open spec fn area_spec(&self) -> T {
        Self::span(self.level(self.top)).add_spec(Self::span(self.level(self.bottom))).mul_spec(
            self.bottom.sub_spec(self.top),
        ).div_spec(T::one_spec().add_spec(T::one_spec()))
    }

    /// Get the area of the trapezoid.
    pub fn area(&self) -> (r: T)
        requires
            !self.left.horizontal(),
            !self.right.horizontal(),
        ensures
            r == self.area_spec(),
    {
        proof {
            T::lemma_laws();
        }
        let top = self.top_segment().length();
        let bottom = self.bottom_segment().length();
        let height = self.bottom - self.top;
        (top + bottom) * height / (T::one() + T::one())
    }
}

impl<T: Real + ApproxEq> BoundingBox<T> for Trapezoid<T> {
    open spec fn has_bounds(&self) -> bool {
        !self.left.horizontal() && !self.right.horizontal()
    }

    open spec fn bounding_box_spec(&self) -> Box<T> {
        let first = self.level(self.top).from;
        (Box { min: first, max: first }).grown(self.level(self.top).to).grown(
            self.level(self.bottom).from,
        ).grown(self.level(self.bottom).to)
    }

    fn bounding_box(&self) -> (r: Box<T>) {
        proof {
            T::lemma_laws();
        }
        // Get the points making up the trapezoid.
        let top_segment = self.top_segment();
        let bottom_segment = self.bottom_segment();
        let top_left = top_segment.from();
        let top_right = top_segment.to();
        let bottom_left = bottom_segment.from();
        let bottom_right = bottom_segment.to();
        Box::new(top_left, top_left).with_point(&top_right).with_point(&bottom_left).with_point(
            &bottom_right,
        )
    }
}

} // verus!
