//! Quadratic Bezier curves.

use super::{lerp, lerp_spec, Curve};
use crate::line::{Line, LineSegment};
use crate::num::{le, Real};
use crate::point::{offset_spec, Point};
use crate::ApproxEq;
use core::ops::Range;
use vstd::prelude::*;
use vstd::std_specs::cmp::PartialEqSpec;
use vstd::std_specs::ops::{AddSpec, MulSpec, SubSpec};

verus! {

/// A quadratic Bezier curve.
#[derive(Debug)]
pub struct QuadraticBezier<T: Copy> {
    /// The point at which the curve starts.
    pub from: Point<T>,
    /// The control point.
    pub control: Point<T>,
    /// The point at which the curve ends.
    pub to: Point<T>,
}

impl<T: Copy> Clone for QuadraticBezier<T> {
    fn clone(&self) -> (r: Self)
        ensures
            r == *self,
    {
        *self
    }
}

impl<T: Copy> Copy for QuadraticBezier<T> {

}

/// One coordinate of a quadratic curve at `t`:
/// `c0 * (1 - t)^2 + c1 * 2 * (1 - t) * t + c2 * t^2`.
pub open spec fn quad_at<T: Real>(c0: T, c1: T, c2: T, t: T) -> T {
    let mt = T::one_spec().sub_spec(t);
    let two = T::one_spec().add_spec(T::one_spec());
    c0.mul_spec(mt.mul_spec(mt)).add_spec(c1.mul_spec(two).mul_spec(mt).mul_spec(t)).add_spec(
        c2.mul_spec(t.mul_spec(t)),
    )
}

/// One coordinate of a quadratic curve at `t`.
pub fn quad_coordinate<T: Real>(c0: T, c1: T, c2: T, t: T) -> (r: T)
    ensures
        r == quad_at(c0, c1, c2, t),
{
    proof {
        T::lemma_laws();
    }
    let mt = T::one() - t;
    let mt2 = mt * mt;
    let t2 = t * t;
    let two = T::one() + T::one();
    c0 * mt2 + c1 * two * mt * t + c2 * t2
}

/// One coordinate of the control point of the part of a quadratic curve
/// between `t0` and `t1`, which starts at `from`.
pub open spec fn part_control<T: Real>(from: T, c0: T, c1: T, c2: T, t0: T, t1: T) -> T {
    from.add_spec(
        crate::num::mix(c1.sub_spec(c0), c2.sub_spec(c1), t0).mul_spec(t1.sub_spec(t0)),
    )
}

impl<T: Copy> QuadraticBezier<T> {
    /// Create a new quadratic Bezier curve.
    pub fn new(p1: Point<T>, p2: Point<T>, p3: Point<T>) -> (r: Self)
        ensures
            r == (QuadraticBezier { from: p1, control: p2, to: p3 }),
    {
        QuadraticBezier { from: p1, control: p2, to: p3 }
    }

    /// Get the points of the curve: start, control point and end.
    pub fn points(&self) -> (r: [Point<T>; 3])
        ensures
            r == [self.from, self.control, self.to],
    {
        [self.from, self.control, self.to]
    }

    /// Get the starting point of the curve.
    #[inline]
    pub fn from(&self) -> (r: Point<T>)
        ensures
            r == self.from,
    {
        self.from
    }

    /// Get the control point of the curve.
    #[inline]
    pub fn control(&self) -> (r: Point<T>)
        ensures
            r == self.control,
    {
        self.control
    }

    /// Get the ending point of the curve.
    #[inline]
    pub fn to(&self) -> (r: Point<T>)
        ensures
            r == self.to,
    {
        self.to
    }

    /// Get the baseline of the curve: the segment from its start to its
    /// end.
    pub fn baseline(&self) -> (r: LineSegment<T>)
        ensures
            r == (LineSegment { from: self.from, to: self.to }),
    {
        LineSegment::new(self.from(), self.to())
    }
}

impl<T: Real + ApproxEq> QuadraticBezier<T> {
    /// The curve is as good as a line within the tolerance: its ends are
    /// equal, or the squared distance of the control point from the line
    /// through the ends is no more than four times the squared tolerance.
    pub open spec fn linear_within(&self, tolerance: T) -> bool {
        let line = Line { origin: self.to, direction: offset_spec(self.from, self.to) };
        let four = T::one_spec().add_spec(T::one_spec()).add_spec(T::one_spec()).add_spec(
            T::one_spec(),
        );
        (self.from.x.eq_spec(&self.to.x) && self.from.y.eq_spec(&self.to.y)) || le(
            line.distance_squared_spec(self.control),
            tolerance.mul_spec(tolerance).mul_spec(four),
        )
    }

    /// Tell whether or not the curve is linear.
    pub fn is_linear(&self, tolerance: T) -> (r: bool)
        requires
            T::obeys_eq_spec(),
        ensures
            r == self.linear_within(tolerance),
    {
        proof {
            T::lemma_laws();
        }
        if self.from.x == self.to.x && self.from.y == self.to.y {
            return true;
        }
        let line = LineSegment::new(self.to(), self.from());
        let dist = line.line().distance_squared(self.control());
        let four = T::one() + T::one() + T::one() + T::one();
        dist <= tolerance * tolerance * four
    }
}

impl<T: Real + ApproxEq> Curve<T> for QuadraticBezier<T> {
    type Subsection = Self;

    type Derivative = LineSegment<T>;

    open spec fn at(&self, t: T) -> Point<T> {
        Point {
            x: quad_at(self.from.x, self.control.x, self.to.x, t),
            y: quad_at(self.from.y, self.control.y, self.to.y, t),
        }
    }

    open spec fn halves(self, index: T) -> (Self, Self) {
        (
            QuadraticBezier {
                from: self.from,
                control: lerp_spec(self.from, self.control, index),
                to: self.at(index),
            },
            QuadraticBezier {
                from: self.at(index),
                control: lerp_spec(self.control, self.to, index),
                to: self.to,
            },
        )
    }

    open spec fn part(self, start: T, end: T) -> Self {
        QuadraticBezier {
            from: self.at(start),
            control: Point {
                x: part_control(
                    self.at(start).x,
                    self.from.x,
                    self.control.x,
                    self.to.x,
                    start,
                    end,
                ),
                y: part_control(
                    self.at(start).y,
                    self.from.y,
                    self.control.y,
                    self.to.y,
                    start,
                    end,
                ),
            },
            to: self.at(end),
        }
    }

    open spec fn derived(&self) -> LineSegment<T> {
        let two = T::one_spec().add_spec(T::one_spec());
        LineSegment {
            from: Point {
                x: self.control.x.sub_spec(self.from.x).mul_spec(two),
                y: self.control.y.sub_spec(self.from.y).mul_spec(two),
            },
            to: Point {
                x: self.to.x.sub_spec(self.control.x).mul_spec(two),
                y: self.to.y.sub_spec(self.control.y).mul_spec(two),
            },
        }
    }

    fn eval(&self, t: T) -> (r: Point<T>) {
        Point {
            x: quad_coordinate(self.from.x, self.control.x, self.to.x, t),
            y: quad_coordinate(self.from.y, self.control.y, self.to.y, t),
        }
    }

    fn split(self, index: T) -> (r: (Self, Self)) {
        let mid = self.eval(index);
        let left = QuadraticBezier::new(self.from(), lerp(self.from(), self.control(), index), mid);
        let right = QuadraticBezier::new(mid, lerp(self.control(), self.to(), index), self.to());
        (left, right)
    }

    fn subsection(self, range: Range<T>) -> (r: Self) {
        proof {
            T::lemma_laws();
        }
        let (t0, t1) = (range.start, range.end);
        let from = self.eval(t0);
        let to = self.eval(t1);
        let first = Point { x: self.control.x - self.from.x, y: self.control.y - self.from.y };
        let second = Point { x: self.to.x - self.control.x, y: self.to.y - self.control.y };
        let between = lerp(first, second, t0);
        let dt = t1 - t0;
        let ctrl = Point { x: from.x + between.x * dt, y: from.y + between.y * dt };
        QuadraticBezier { from, control: ctrl, to }
    }

    fn derivative(&self) -> (r: LineSegment<T>) {
        proof {
            T::lemma_laws();
        }
        let two = T::one() + T::one();
        LineSegment::new(
            Point {
                x: (self.control.x - self.from.x) * two,
                y: (self.control.y - self.from.y) * two,
            },
            Point { x: (self.to.x - self.control.x) * two, y: (self.to.y - self.control.y) * two },
        )
    }
}

} // verus!
