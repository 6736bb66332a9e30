//! Cubic Bezier curves.

use super::quad::{quad_at, quad_coordinate, QuadraticBezier};
use super::Curve;
use crate::num::Real;
use crate::point::Point;
use crate::ApproxEq;
use core::ops::Range;
use vstd::prelude::*;
use vstd::std_specs::ops::{AddSpec, DivSpec, MulSpec, SubSpec};

verus! {

/// A cubic Bezier curve.
#[derive(Debug)]
pub struct CubicBezier<T: Copy> {
    /// The point at which the curve starts.
    pub from: Point<T>,
    /// The first control point.
    pub control1: Point<T>,
    /// The second control point.
    pub control2: Point<T>,
    /// The point at which the curve ends.
    pub to: Point<T>,
}

impl<T: Copy> Clone for CubicBezier<T> {
    fn clone(&self) -> (r: Self)
        ensures
            r == *self,
    {
        *self
    }
}

impl<T: Copy> Copy for CubicBezier<T> {

}

/// One coordinate of a cubic curve at `t`:
/// `c0 * (1 - t)^3 + c1 * 3 * (1 - t)^2 * t + c2 * 3 * (1 - t) * t^2 + c3 * t^3`.
pub open spec fn cubic_at<T: Real>(c0: T, c1: T, c2: T, c3: T, t: T) -> T {
    let t2 = t.mul_spec(t);
    let t3 = t2.mul_spec(t);
    let mt = T::one_spec().sub_spec(t);
    let mt2 = mt.mul_spec(mt);
    let mt3 = mt2.mul_spec(mt);
    let three = T::one_spec().add_spec(T::one_spec()).add_spec(T::one_spec());
    c0.mul_spec(mt3).add_spec(c1.mul_spec(three).mul_spec(mt2).mul_spec(t)).add_spec(
        c2.mul_spec(three).mul_spec(mt).mul_spec(t2),
    ).add_spec(c3.mul_spec(t3))
}

/// One coordinate of a cubic curve at `t`.
pub fn cubic_coordinate<T: Real>(c0: T, c1: T, c2: T, c3: T, t: T) -> (r: T)
    ensures
        r == cubic_at(c0, c1, c2, c3, t),
{
    proof {
        T::lemma_laws();
    }
    let t2 = t * t;
    let t3 = t2 * t;
    let mt = T::one() - t;
    let mt2 = mt * mt;
    let mt3 = mt2 * mt;
    let three = T::one() + T::one() + T::one();
    c0 * mt3 + c1 * three * mt2 * t + c2 * three * mt * t2 + c3 * t3
}

/// The value that lies the share `t` of the way from `a` to `b`:
/// `a + (b - a) * t`.
pub open spec fn toward<T: Real>(a: T, b: T, t: T) -> T {
    a.add_spec(b.sub_spec(a).mul_spec(t))
}

/// The value that lies the share `t` of the way from `a` to `b`.
pub fn step_toward<T: Real>(a: T, b: T, t: T) -> (r: T)
    ensures
        r == toward(a, b, t),
{
    proof {
        T::lemma_laws();
    }
    a + (b - a) * t
}

/// One coordinate of the six points that split a cubic curve at `t`: the
/// three inner control points of the left part, then the middle, then the
/// two inner control points of the right part are made of them.
pub open spec fn split_at<T: Real>(c0: T, c1: T, c2: T, c3: T, t: T) -> (T, T, T, T, T, T) {
    let p1 = toward(c0, c1, t);
    let p2 = toward(c1, c2, t);
    let p3 = toward(p1, p2, t);
    let p4 = toward(c2, c3, t);
    let p5 = toward(p2, p4, t);
    let p6 = toward(p3, p5, t);
    (p1, p2, p3, p4, p5, p6)
}

/// One coordinate of the six points that split a cubic curve at `t`.
pub fn split_coordinate<T: Real>(c0: T, c1: T, c2: T, c3: T, t: T) -> (r: (T, T, T, T, T, T))
    ensures
        r == split_at(c0, c1, c2, c3, t),
{
    let p1 = step_toward(c0, c1, t);
    let p2 = step_toward(c1, c2, t);
    let p3 = step_toward(p1, p2, t);
    let p4 = step_toward(c2, c3, t);
    let p5 = step_toward(p2, p4, t);
    let p6 = step_toward(p3, p5, t);
    (p1, p2, p3, p4, p5, p6)
}

/// One coordinate of the two inner control points of the part of a cubic
/// curve between `t0` and `t1`, which runs from `from` to `to`.
pub open spec fn part_controls<T: Real>(
    from: T,
    to: T,
    c0: T,
    c1: T,
    c2: T,
    c3: T,
    t0: T,
    t1: T,
) -> (T, T) {
    let dt = t1.sub_spec(t0);
    let q0 = c1.sub_spec(c0);
    let q1 = c2.sub_spec(c1);
    let q2 = c3.sub_spec(c2);
    (
        from.add_spec(quad_at(q0, q1, q2, t0.mul_spec(dt)).mul_spec(dt)),
        to.sub_spec(quad_at(q0, q1, q2, t1.mul_spec(dt)).mul_spec(dt)),
    )
}

/// One coordinate of the two inner control points of the part of a cubic
/// curve between `t0` and `t1`.
pub fn part_coordinate<T: Real>(from: T, to: T, c0: T, c1: T, c2: T, c3: T, t0: T, t1: T) -> (r:
    (T, T))
    ensures
        r == part_controls(from, to, c0, c1, c2, c3, t0, t1),
{
    proof {
        T::lemma_laws();
    }
    let dt = t1 - t0;
    let q0 = c1 - c0;
    let q1 = c2 - c1;
    let q2 = c3 - c2;
    (
        from + quad_coordinate(q0, q1, q2, t0 * dt) * dt,
        to - quad_coordinate(q0, q1, q2, t1 * dt) * dt,
    )
}

/// One coordinate of the control point of the quadratic curve that stands
/// for a cubic curve: the midpoint of `(c1 * 3 - c0) / 2` as a product with
/// one half, and `(c2 * 3 - c3)` likewise.
pub open spec fn quadratic_control<T: Real>(c0: T, c1: T, c2: T, c3: T) -> T {
    let three = T::one_spec().add_spec(T::one_spec()).add_spec(T::one_spec());
    let two = T::one_spec().add_spec(T::one_spec());
    let half = T::one_spec().div_spec(two);
    let first = c1.mul_spec(three).sub_spec(c0).mul_spec(half);
    let second = c2.mul_spec(three).sub_spec(c3).mul_spec(half);
    first.add_spec(second).div_spec(two)
}

/// One coordinate of the control point of the quadratic curve that stands
/// for a cubic curve.
pub fn quadratic_coordinate<T: Real>(c0: T, c1: T, c2: T, c3: T) -> (r: T)
    ensures
        r == quadratic_control(c0, c1, c2, c3),
{
    proof {
        T::lemma_laws();
    }
    let three = T::one() + T::one() + T::one();
    let two = T::one() + T::one();
    let half = T::one() / two;
    let first = (c1 * three - c0) * half;
    let second = (c2 * three - c3) * half;
    (first + second) / two
}

impl<T: Copy> CubicBezier<T> {
    /// Create a new cubic Bezier curve.
    pub fn new(p1: Point<T>, p2: Point<T>, p3: Point<T>, p4: Point<T>) -> (r: Self)
        ensures
            r == (CubicBezier { from: p1, control1: p2, control2: p3, to: p4 }),
    {
        CubicBezier { from: p1, control1: p2, control2: p3, to: p4 }
    }

    /// Get the points of the curve: start, control points and end.
    pub fn points(&self) -> (r: [Point<T>; 4])
        ensures
            r == [self.from, self.control1, self.control2, self.to],
    {
        [self.from, self.control1, self.control2, self.to]
    }

    /// Get the starting point of the curve.
    #[inline]
    pub fn from(&self) -> (r: Point<T>)
        ensures
            r == self.from,
    {
        self.from
    }

    /// Get the first control point of the curve.
    #[inline]
    pub fn control1(&self) -> (r: Point<T>)
        ensures
            r == self.control1,
    {
        self.control1
    }

    /// Get the second control point of the curve.
    #[inline]
    pub fn control2(&self) -> (r: Point<T>)
        ensures
            r == self.control2,
    {
        self.control2
    }

    /// Get the ending point of the curve.
    #[inline]
    pub fn to(&self) -> (r: Point<T>)
        ensures
            r == self.to,
    {
        self.to
    }

    /// Approximate this curve as a quadratic Bezier curve with the same
    /// ends.
    #[inline]
    pub fn as_quadratic(&self) -> (r: QuadraticBezier<T>) where T: Real
        ensures
            r == (QuadraticBezier {
                from: self.from,
                control: Point {
                    x: quadratic_control(self.from.x, self.control1.x, self.control2.x, self.to.x),
                    y: quadratic_control(self.from.y, self.control1.y, self.control2.y, self.to.y),
                },
                to: self.to,
            }),
    {
        QuadraticBezier::new(
            self.from(),
            Point {
                x: quadratic_coordinate(self.from.x, self.control1.x, self.control2.x, self.to.x),
                y: quadratic_coordinate(self.from.y, self.control1.y, self.control2.y, self.to.y),
            },
            self.to(),
        )
    }
}

impl<T: Real + ApproxEq> Curve<T> for CubicBezier<T> {
    type Subsection = Self;

    type Derivative = QuadraticBezier<T>;

    open spec fn at(&self, t: T) -> Point<T> {
        Point {
            x: cubic_at(self.from.x, self.control1.x, self.control2.x, self.to.x, t),
            y: cubic_at(self.from.y, self.control1.y, self.control2.y, self.to.y, t),
        }
    }

    open spec fn halves(self, index: T) -> (Self, Self) {
        let x = split_at(self.from.x, self.control1.x, self.control2.x, self.to.x, index);
        let y = split_at(self.from.y, self.control1.y, self.control2.y, self.to.y, index);
        (
            CubicBezier {
                from: self.from,
                control1: Point { x: x.0, y: y.0 },
                control2: Point { x: x.2, y: y.2 },
                to: Point { x: x.5, y: y.5 },
            },
            CubicBezier {
                from: Point { x: x.5, y: y.5 },
                control1: Point { x: x.4, y: y.4 },
                control2: Point { x: x.3, y: y.3 },
                to: self.to,
            },
        )
    }

    open spec fn part(self, start: T, end: T) -> Self {
        let from = self.at(start);
        let to = self.at(end);
        let x = part_controls(
            from.x,
            to.x,
            self.from.x,
            self.control1.x,
            self.control2.x,
            self.to.x,
            start,
            end,
        );
        let y = part_controls(
            from.y,
            to.y,
            self.from.y,
            self.control1.y,
            self.control2.y,
            self.to.y,
            start,
            end,
        );
        CubicBezier {
            from,
            control1: Point { x: x.0, y: y.0 },
            control2: Point { x: x.1, y: y.1 },
            to,
        }
    }

    open spec fn derived(&self) -> QuadraticBezier<T> {
        let three = T::one_spec().add_spec(T::one_spec()).add_spec(T::one_spec());
        QuadraticBezier {
            from: Point {
                x: self.control1.x.sub_spec(self.from.x).mul_spec(three),
                y: self.control1.y.sub_spec(self.from.y).mul_spec(three),
            },
            control: Point {
                x: self.control2.x.sub_spec(self.control1.x).mul_spec(three),
                y: self.control2.y.sub_spec(self.control1.y).mul_spec(three),
            },
            to: Point {
                x: self.to.x.sub_spec(self.control2.x).mul_spec(three),
                y: self.to.y.sub_spec(self.control2.y).mul_spec(three),
            },
        }
    }

    fn eval(&self, t: T) -> (r: Point<T>) {
        Point {
            x: cubic_coordinate(self.from.x, self.control1.x, self.control2.x, self.to.x, t),
            y: cubic_coordinate(self.from.y, self.control1.y, self.control2.y, self.to.y, t),
        }
    }

    fn split(self, index: T) -> (r: (Self, Self)) {
        let x = split_coordinate(self.from.x, self.control1.x, self.control2.x, self.to.x, index);
        let y = split_coordinate(self.from.y, self.control1.y, self.control2.y, self.to.y, index);
        let middle = Point { x: x.5, y: y.5 };
        (
            CubicBezier {
                from: self.from,
                control1: Point { x: x.0, y: y.0 },
                control2: Point { x: x.2, y: y.2 },
                to: middle,
            },
            CubicBezier {
                from: middle,
                control1: Point { x: x.4, y: y.4 },
                control2: Point { x: x.3, y: y.3 },
                to: self.to,
            },
        )
    }

    fn subsection(self, range: Range<T>) -> (r: Self) {
        let (t0, t1) = (range.start, range.end);
        let from = self.eval(t0);
        let to = self.eval(t1);
        let x = part_coordinate(
            from.x,
            to.x,
            self.from.x,
            self.control1.x,
            self.control2.x,
            self.to.x,
            t0,
            t1,
        );
        let y = part_coordinate(
            from.y,
            to.y,
            self.from.y,
            self.control1.y,
            self.control2.y,
            self.to.y,
            t0,
            t1,
        );
        CubicBezier {
            from,
            control1: Point { x: x.0, y: y.0 },
            control2: Point { x: x.1, y: y.1 },
            to,
        }
    }

    fn derivative(&self) -> (r: QuadraticBezier<T>) {
        proof {
            T::lemma_laws();
        }
        let three = T::one() + T::one() + T::one();
        QuadraticBezier::new(
            Point {
                x: (self.control1.x - self.from.x) * three,
                y: (self.control1.y - self.from.y) * three,
            },
            Point {
                x: (self.control2.x - self.control1.x) * three,
                y: (self.control2.y - self.control1.y) * three,
            },
            Point {
                x: (self.to.x - self.control2.x) * three,
                y: (self.to.y - self.control2.y) * three,
            },
        )
    }
}

} // verus!
