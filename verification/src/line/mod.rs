//! Infinite lines and line segments.

pub mod from_points;

use crate::num::{le, lt, Real, Zero};
use crate::point::{cross_spec, dot_spec, offset_spec, Point, Vector};
use crate::ApproxEq;
use core::ops::{Add, Div, Mul, Sub};
use vstd::prelude::*;
use vstd::std_specs::cmp::PartialOrdSpec;
use vstd::std_specs::ops::{AddSpec, DivSpec, MulSpec, SubSpec};

verus! {

/// An infinite line.
#[derive(Debug)]
pub struct Line<T: Copy> {
    /// A point on the line.
    pub origin: Point<T>,
    /// The direction in which the line runs.
    pub direction: Vector<T>,
}

impl<T: Copy> Clone for Line<T> {
    fn clone(&self) -> (r: Self)
        ensures
            r == *self,
    {
        *self
    }
}

impl<T: Copy> Copy for Line<T> {

}

impl<T: Copy> Line<T> {
    /// Create a new line from an origin point and a direction vector.
    #[inline]
    pub fn new(origin: Point<T>, direction: Vector<T>) -> (r: Self)
        ensures
            r == (Line { origin, direction }),
    {
        Line { origin, direction }
    }

    /// Get the origin point of the line.
    #[inline]
    pub fn origin(&self) -> (r: Point<T>)
        ensures
            r == self.origin,
    {
        self.origin
    }

    /// Get the direction vector of the line.
    #[inline]
    pub fn direction(&self) -> (r: Vector<T>)
        ensures
            r == self.direction,
    {
        self.direction
    }

    /// Get the line between two points.
    #[inline]
    pub fn between(a: Point<T>, b: Point<T>) -> (r: Self) where T: Sub<Output = T>
        requires
            b.sub_req(a),
        ensures
            T::obeys_sub_spec() ==> r == (Line { origin: a, direction: offset_spec(b, a) }),
    {
        Line::new(a, b - a)
    }

    /// Create a parallel line to this one, but with a different origin.
    #[inline]
    pub fn parallel(&self, origin: Point<T>) -> (r: Self)
        ensures
            r == (Line { origin, direction: self.direction }),
    {
        Line::new(origin, self.direction())
    }

    /// Get the distance squared to another point.
    #[inline]
    pub fn distance_squared(&self, point: Point<T>) -> (r: T) where
        T: Add<Output = T> + Sub<Output = T> + Mul<Output = T> + Div<Output = T>,

        requires
            T::obeys_sub_spec(),
            T::obeys_mul_spec(),
            T::obeys_add_spec(),
            point.sub_req(self.origin),
            ({
                let p = point.sub_spec(self.origin);
                let d = self.direction;
                &&& p.x.mul_req(d.y)
                &&& p.y.mul_req(d.x)
                &&& p.x.mul_spec(d.y).sub_req(p.y.mul_spec(d.x))
                &&& cross_spec(p, d).mul_req(cross_spec(p, d))
                &&& d.x.mul_req(d.x)
                &&& d.y.mul_req(d.y)
                &&& d.x.mul_spec(d.x).add_req(d.y.mul_spec(d.y))
                &&& cross_spec(p, d).mul_spec(cross_spec(p, d)).div_req(dot_spec(d, d))
            }),
        ensures
            T::obeys_div_spec() ==> r == self.distance_squared_spec(point),
    {
        let p = point - self.origin();
        let d = self.direction();
        let cross = p.cross(d);
        (cross * cross) / (d.length_squared())
    }

    /// The squared distance from the line to `point`: the square of the
    /// cross product of the offset and the direction, over the direction's
    /// squared length.
    pub open spec fn distance_squared_spec(&self, point: Point<T>) -> T where
        T: Add<Output = T> + Sub<Output = T> + Mul<Output = T> + Div<Output = T>,
     {
        let p = offset_spec(point, self.origin);
        let d = self.direction;
        cross_spec(p, d).mul_spec(cross_spec(p, d)).div_spec(dot_spec(d, d))
    }

    /// Is this line horizontal?
    #[inline]
    pub fn is_horizontal(&self) -> (r: bool) where T: ApproxEq + Zero
        ensures
            r == self.horizontal(),
    {
        self.direction().y().approx_eq(&T::zero())
    }

    /// The line's direction has a Y component of approximately zero.
    pub open spec fn horizontal(&self) -> bool where T: ApproxEq + Zero {
        self.direction.y.approx_eq_spec(&T::zero_spec())
    }

    /// Is this line vertical?
    #[inline]
    pub fn is_vertical(&self) -> (r: bool) where T: ApproxEq + Zero
        ensures
            r == self.vertical(),
    {
        self.direction().x().approx_eq(&T::zero())
    }

    /// The line's direction has an X component of approximately zero.
    pub open spec fn vertical(&self) -> bool where T: ApproxEq + Zero {
        self.direction.x.approx_eq_spec(&T::zero_spec())
    }
}

impl<T: Real + ApproxEq> Line<T> {
    /// The two lines run in approximately the same direction: the cross
    /// product of their directions is within the tolerance of zero.
    pub open spec fn parallel_to(&self, other: &Self) -> bool {
        let det = cross_spec(self.direction, other.direction);
        le(det.abs_spec(), T::epsilon_spec())
    }

    /// The point that lies on both lines, where they are not parallel.
    ///
    /// With `a` and `b` the cross products of each line's origin with its
    /// direction, the point is `(b * v - a * w) / det` for the directions
    /// `v` of this line and `w` of the other.
    pub open spec fn crossing(&self, other: &Self) -> Point<T> {
        let v = self.direction;
        let w = other.direction;
        let det = cross_spec(v, w);
        let a = cross_spec(
            Vector { x: self.origin.x, y: self.origin.y },
            Vector { x: self.origin.x.add_spec(v.x), y: self.origin.y.add_spec(v.y) },
        );
        let b = cross_spec(
            Vector { x: other.origin.x, y: other.origin.y },
            Vector { x: other.origin.x.add_spec(w.x), y: other.origin.y.add_spec(w.y) },
        );
        Point {
            x: b.mul_spec(v.x).sub_spec(a.mul_spec(w.x)).div_spec(det),
            y: b.mul_spec(v.y).sub_spec(a.mul_spec(w.y)).div_spec(det),
        }
    }

    /// The distance from the line to `point`: the absolute value of the
    /// cross product of the offset and the direction, over the direction's
    /// length.
    pub open spec fn distance_spec(&self, point: Point<T>) -> T {
        let p = offset_spec(point, self.origin);
        let d = self.direction;
        cross_spec(p, d).div_spec(dot_spec(d, d).sqrt_spec()).abs_spec()
    }

    /// The X coordinate at which the line passes the height `y`.
    pub open spec fn x_at_y(&self, y: T) -> T {
        y.sub_spec(self.origin.y).mul_spec(self.direction.x).div_spec(self.direction.y).add_spec(
            self.origin.x,
        )
    }

    /// The Y coordinate at which the line passes the abscissa `x`.
    pub open spec fn y_at_x(&self, x: T) -> T {
        x.sub_spec(self.origin.x).mul_spec(self.direction.y).div_spec(self.direction.x).add_spec(
            self.origin.y,
        )
    }

    /// Tell whether or not this line intersects with another line.
    #[inline]
    pub fn intersects(&self, other: &Self) -> (r: bool)
        ensures
            r == !cross_spec(self.direction, other.direction).abs_spec().approx_eq_spec(
                &T::zero_spec(),
            ),
    {
        proof {
            T::lemma_laws();
        }
        !self.direction().cross(other.direction()).abs().approx_eq(&T::zero())
    }

    /// Get the intersection point of two lines.
    ///
    /// Returns `None` if the lines are parallel.
    #[inline]
    pub fn intersection(&self, line: &Self) -> (r: Option<Point<T>>)
        ensures
            r == (if self.parallel_to(line) {
                None
            } else {
                Some(self.crossing(line))
            }),
    {
        proof {
            T::lemma_laws();
        }
        let det = self.direction().cross(line.direction());

        // If the determinant is zero, lines are probably parallel.
        if det.abs() <= T::epsilon() {
            return None;
        }
        let self_p2 = self.origin() + self.direction();
        let other_p2 = line.origin() + line.direction();

        let a = self.origin().into_vector().cross(self_p2.into_vector());
        let b = line.origin().into_vector().cross(other_p2.into_vector());

        Some(
            Point::new(
                (b * self.direction().x() - a * line.direction().x()) / det,
                (b * self.direction().y() - a * line.direction().y()) / det,
            ),
        )
    }

    /// Get the distance from this line to another point.
    #[inline]
    pub fn distance(&self, point: Point<T>) -> (r: T)
        ensures
            r == self.distance_spec(point),
    {
        proof {
            T::lemma_laws();
        }
        let p = point - self.origin();
        let d = self.direction();
        let cross = p.cross(d);
        (cross / d.length()).abs()
    }

    /// Get the point on this line at the given X coordinate.
    ///
    /// Returns `None` if the line is vertical.
    #[inline]
    pub fn point_at_x(&self, x: T) -> (r: Option<Point<T>>)
        ensures
            r == (if self.vertical() {
                None
            } else {
                Some(Point { x, y: self.y_at_x(x) })
            }),
    {
        proof {
            T::lemma_laws();
        }
        if self.direction().x().approx_eq(&T::zero()) {
            return None;
        }
        let y = (x - self.origin().x()) * self.direction().y() / self.direction().x()
            + self.origin().y();
        Some(Point::new(x, y))
    }

    /// Get the point on this line at the given Y coordinate.
    ///
    /// Returns `None` if the line is horizontal.
    #[inline]
    pub fn point_at_y(&self, y: T) -> (r: Option<Point<T>>)
        ensures
            r == (if self.horizontal() {
                None
            } else {
                Some(Point { x: self.x_at_y(y), y })
            }),
    {
        proof {
            T::lemma_laws();
        }
        if self.direction().y().approx_eq(&T::zero()) {
            return None;
        }
        let x = (y - self.origin().y()) * self.direction().x() / self.direction().y()
            + self.origin().x();
        Some(Point::new(x, y))
    }
}

/// A line segment, bounded by two points.
#[derive(Debug)]
pub struct LineSegment<T: Copy> {
    /// The point where this segment begins.
    pub from: Point<T>,
    /// The point where this segment ends.
    pub to: Point<T>,
}

impl<T: Copy> Clone for LineSegment<T> {
    fn clone(&self) -> (r: Self)
        ensures
            r == *self,
    {
        *self
    }
}

impl<T: Copy> Copy for LineSegment<T> {

}

impl<T: Copy> LineSegment<T> {
    /// Create a new line segment from two points.
    #[inline]
    pub fn new(p1: Point<T>, p2: Point<T>) -> (r: Self)
        ensures
            r == (LineSegment { from: p1, to: p2 }),
    {
        LineSegment { from: p1, to: p2 }
    }

    /// Get the two points that make up this line segment.
    #[inline]
    pub fn points(&self) -> (r: (Point<T>, Point<T>))
        ensures
            r == (self.from, self.to),
    {
        (self.from, self.to)
    }

    /// Get the line that this line segment is a part of.
    #[inline]
    pub fn line(&self) -> (r: Line<T>) where T: Sub<Output = T>
        requires
            self.to.sub_req(self.from),
        ensures
            T::obeys_sub_spec() ==> r == (Line {
                origin: self.from,
                direction: offset_spec(self.to, self.from),
            }),
    {
        Line::new(self.from, self.to - self.from)
    }

    /// Get the point where this line segment begins.
    #[inline]
    pub fn from(&self) -> (r: Point<T>)
        ensures
            r == self.from,
    {
        self.from
    }

    /// Get the point where this line segment ends.
    #[inline]
    pub fn to(&self) -> (r: Point<T>)
        ensures
            r == self.to,
    {
        self.to
    }

    /// Get the length of this line segment.
    #[inline]
    pub fn length(&self) -> (r: T) where T: Real
        ensures
            r == dot_spec(offset_spec(self.to, self.from), offset_spec(self.to, self.from))
                .sqrt_spec(),
    {
        proof {
            T::lemma_laws();
        }
        (self.to - self.from).length()
    }
}

/// An error indicating that a line segment is horizontal.
#[derive(Debug)]
pub struct HorizontalLineSegmentError<T: Copy>(pub LineSegment<T>);

/// The two values with the lesser first; `(b, a)` where `a` is not below
/// `b`.
pub fn order<T: PartialOrd>(a: T, b: T) -> (r: (T, T))
    requires
        T::obeys_partial_cmp_spec(),
    ensures
        r == (if lt(a, b) {
            (a, b)
        } else {
            (b, a)
        }),
{
    if a < b {
        (a, b)
    } else {
        (b, a)
    }
}

/// A line segment that is not a horizontal line.
///
/// The segment is the part of its line between the heights `top` and
/// `bottom`.
#[derive(Debug)]
pub struct NhLineSegment<T: Copy> {
    /// The line that this line segment is a part of.
    line: Line<T>,
    // We bound the line using the Y coordinates of the points.
    top: T,
    bottom: T,
}

impl<T: Copy> Clone for NhLineSegment<T> {
    fn clone(&self) -> (r: Self)
        ensures
            r == *self,
    {
        *self
    }
}

impl<T: Copy> Copy for NhLineSegment<T> {

}

impl<T: Copy> NhLineSegment<T> {
    /// The line that this line segment is a part of.
    pub closed spec fn spec_line(&self) -> Line<T> {
        self.line
    }

    /// The top Y coordinate of this line segment.
    pub closed spec fn spec_top(&self) -> T {
        self.top
    }

    /// The bottom Y coordinate of this line segment.
    pub closed spec fn spec_bottom(&self) -> T {
        self.bottom
    }

    /// Get the top Y coordinate of this line segment.
    #[inline]
    #[verifier::when_used_as_spec(spec_top)]
    pub fn top(&self) -> (r: T)
        ensures
            r == self.spec_top(),
    {
        self.top
    }

    /// Get the bottom Y coordinate of this line segment.
    #[inline]
    #[verifier::when_used_as_spec(spec_bottom)]
    pub fn bottom(&self) -> (r: T)
        ensures
            r == self.spec_bottom(),
    {
        self.bottom
    }

    /// Get the line that this line segment is a part of.
    #[inline]
    #[verifier::when_used_as_spec(spec_line)]
    pub fn line(&self) -> (r: Line<T>)
        ensures
            r == self.spec_line(),
    {
        self.line
    }
}

impl<T: Real + ApproxEq> NhLineSegment<T> {
    /// The segment's line is not horizontal. Both constructors establish
    /// this.
    pub open spec fn wf(&self) -> bool {
        !self.line().horizontal()
    }

    /// Try to create a new line segment from two points.
    ///
    /// Returns `None` if the line segment is horizontal.
    #[inline]
    pub fn new(p1: Point<T>, p2: Point<T>) -> (r: Option<Self>)
        ensures
            ({
                let line = Line { origin: p1, direction: offset_spec(p2, p1) };
                match r {
                    None => line.horizontal(),
                    Some(seg) => {
                        &&& seg.wf()
                        &&& seg.line() == line
                        &&& seg.top() == (if lt(p1.y, p2.y) { p1.y } else { p2.y })
                        &&& seg.bottom() == (if lt(p1.y, p2.y) { p2.y } else { p1.y })
                    },
                }
            }),
    {
        proof {
            T::lemma_laws();
        }
        let line = Line::between(p1, p2);

        if line.is_horizontal() {
            None
        } else {
            let (top, bottom) = order(p1.y(), p2.y());
            Some(NhLineSegment { line, top, bottom })
        }
    }

    /// Create a new line segment from a line and two Y coordinates.
    ///
    /// Returns `None` if the line segment is horizontal.
    #[inline]
    pub fn from_line_and_y(line: Line<T>, top: T, bottom: T) -> (r: Option<Self>)
        ensures
            match r {
                None => line.horizontal(),
                Some(seg) => {
                    &&& seg.wf()
                    &&& seg.line() == line
                    &&& seg.top() == top
                    &&& seg.bottom() == bottom
                },
            },
    {
        if line.is_horizontal() {
            None
        } else {
            Some(NhLineSegment { line, top, bottom })
        }
    }

    /// The end points of the segment: where its line passes `top` and where
    /// it passes `bottom`.
    pub open spec fn end_points(&self) -> (Point<T>, Point<T>) {
        (
            Point { x: self.line().x_at_y(self.top()), y: self.top() },
            Point { x: self.line().x_at_y(self.bottom()), y: self.bottom() },
        )
    }

    /// Get the two points that make up this line segment.
    #[inline]
    pub fn points(&self) -> (r: (Point<T>, Point<T>))
        requires
            self.wf(),
        ensures
            r == self.end_points(),
    {
        let p1 = self.line.point_at_y(self.top).unwrap();
        let p2 = self.line.point_at_y(self.bottom).unwrap();
        (p1, p2)
    }

    /// The height `y` lies between the segment's top and bottom.
    pub open spec fn spans(&self, y: T) -> bool {
        le(self.top(), y) && le(y, self.bottom())
    }

    /// The point at which the two segments meet: the point in which their
    /// lines cross, where it lies within the heights of both.
    pub open spec fn meeting(&self, other: &NhLineSegment<T>) -> Option<Point<T>> {
        if self.line().parallel_to(&other.line()) {
            None
        } else {
            let p = self.line().crossing(&other.line());
            if self.spans(p.y) && other.spans(p.y) {
                Some(p)
            } else {
                None
            }
        }
    }

    /// Get the intersection between this line segment and another line segment.
    #[inline]
    pub fn intersection(&self, other: &NhLineSegment<T>) -> (r: Option<Point<T>>)
        ensures
            r == self.meeting(other),
    {
        proof {
            T::lemma_laws();
        }
        match self.line.intersection(&other.line) {
            None => None,
            Some(intersection) => {
                if self.top <= intersection.y() && intersection.y() <= self.bottom && other.top
                    <= intersection.y() && intersection.y() <= other.bottom {
                    Some(intersection)
                } else {
                    None
                }
            },
        }
    }

    /// The segment between the two end points.
    #[inline]
    pub fn to_segment(&self) -> (r: LineSegment<T>)
        requires
            self.wf(),
        ensures
            r == (LineSegment { from: self.end_points().0, to: self.end_points().1 }),
    {
        let (from, to) = self.points();
        LineSegment { from, to }
    }
}

impl<T: Real + ApproxEq> LineSegment<T> {
    /// The segment as one that is not horizontal, or the error that holds
    /// the segment where it is.
    pub fn try_into_nh(self) -> (r: Result<NhLineSegment<T>, HorizontalLineSegmentError<T>>)
        ensures
            ({
                let line = Line { origin: self.from, direction: offset_spec(self.to, self.from) };
                match r {
                    Err(e) => line.horizontal() && e.0 == self,
                    Ok(seg) => {
                        &&& seg.wf()
                        &&& seg.line() == line
                        &&& seg.top() == (if lt(self.from.y, self.to.y) {
                            self.from.y
                        } else {
                            self.to.y
                        })
                        &&& seg.bottom() == (if lt(self.from.y, self.to.y) {
                            self.to.y
                        } else {
                            self.from.y
                        })
                    },
                }
            }),
    {
        match NhLineSegment::new(self.from, self.to) {
            Some(seg) => Ok(seg),
            None => Err(HorizontalLineSegmentError(self)),
        }
    }
}

} // verus!
