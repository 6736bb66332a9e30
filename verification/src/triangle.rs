//! Triangles.

use crate::line::{Line, LineSegment};
use crate::num::{lt, total_arithmetic, Real, Zero};
use crate::point::{dot_spec, offset_spec, Point};
use crate::ApproxEq;
use vstd::prelude::*;
use vstd::std_specs::ops::{AddSpec, DivSpec, MulSpec, SubSpec};

verus! {

/// A triangle, given by its three corners.
#[derive(Debug)]
pub struct Triangle<T: Copy> {
    /// The first corner.
    pub a: Point<T>,
    /// The second corner.
    pub b: Point<T>,
    /// The third corner.
    pub c: Point<T>,
}

impl<T: Copy> Clone for Triangle<T> {
    fn clone(&self) -> (r: Self)
        ensures
            r == *self,
    {
        *self
    }
}

impl<T: Copy> Copy for Triangle<T> {

}

impl<T: Copy> Triangle<T> {
    /// Create a new triangle from three points.
    pub fn new(a: Point<T>, b: Point<T>, c: Point<T>) -> (r: Self)
        ensures
            r == (Triangle { a, b, c }),
    {
        Triangle { a, b, c }
    }

    /// Get the first point of the triangle.
    pub fn a(&self) -> (r: Point<T>)
        ensures
            r == self.a,
    {
        self.a
    }

    /// Get the second point of the triangle.
    pub fn b(&self) -> (r: Point<T>)
        ensures
            r == self.b,
    {
        self.b
    }

    /// Get the third point of the triangle.
    pub fn c(&self) -> (r: Point<T>)
        ensures
            r == self.c,
    {
        self.c
    }

    /// Get the line segment between the first and second points.
    pub fn ab(&self) -> (r: LineSegment<T>)
        ensures
            r == (LineSegment { from: self.a, to: self.b }),
    {
        LineSegment::new(self.a(), self.b())
    }

    /// Get the line segment between the second and third points.
    pub fn bc(&self) -> (r: LineSegment<T>)
        ensures
            r == (LineSegment { from: self.b, to: self.c }),
    {
        LineSegment::new(self.b(), self.c())
    }

    /// Get the line segment between the third and first points.
    pub fn ca(&self) -> (r: LineSegment<T>)
        ensures
            r == (LineSegment { from: self.c, to: self.a }),
    {
        LineSegment::new(self.c(), self.a())
    }

    /// Convert this triangle into an array of points.
    pub fn into_array(self) -> (r: [Point<T>; 3])
        ensures
            r == [self.a, self.b, self.c],
    {
        [self.a, self.b, self.c]
    }

    /// Convert this triangle into an array of line segments: from the first
    /// corner to the second, from the second to the third, and from the
    /// third to the first.
    pub fn into_segments(self) -> (r: [LineSegment<T>; 3])
        ensures
            r == [
                LineSegment { from: self.a, to: self.b },
                LineSegment { from: self.b, to: self.c },
                LineSegment { from: self.c, to: self.a },
            ],
    {
        [self.ab(), self.bc(), self.ca()]
    }

    /// Convert this triangle into a tuple of points.
    pub fn into_tuple(self) -> (r: (Point<T>, Point<T>, Point<T>))
        ensures
            r == (self.a, self.b, self.c),
    {
        (self.a, self.b, self.c)
    }

    /// Create a new triangle with all three corners at zero.
    pub fn zero() -> (r: Self) where T: Zero
        ensures
            r.a == (Point { x: T::zero_spec(), y: T::zero_spec() }),
            r.b == r.a,
            r.c == r.a,
    {
        Triangle { a: Point::zero(), b: Point::zero(), c: Point::zero() }
    }
}

/// A triangle with one horizontal side at the height `y`, between `x1` and
/// `x2`, and a third corner.
#[derive(Debug)]
pub struct HalfTriangle<T: Copy> {
    /// The height of the horizontal side.
    pub y: T,
    /// The X coordinate of one end of the horizontal side.
    pub x1: T,
    /// The X coordinate of the other end of the horizontal side.
    pub x2: T,
    /// The corner that does not lie on the horizontal side.
    pub free: Point<T>,
}

impl<T: Copy> Clone for HalfTriangle<T> {
    fn clone(&self) -> (r: Self)
        ensures
            r == *self,
    {
        *self
    }
}

impl<T: Copy> Copy for HalfTriangle<T> {

}

/// The three points in the order of their heights; points of one height
/// stay in the order in which they are given.
pub open spec fn by_height<T: Real>(a: Point<T>, b: Point<T>, c: Point<T>) -> (
    Point<T>,
    Point<T>,
    Point<T>,
) {
    let (p, q) = if lt(b.y, a.y) {
        (b, a)
    } else {
        (a, b)
    };
    if lt(c.y, q.y) {
        if lt(c.y, p.y) {
            (c, p, q)
        } else {
            (p, c, q)
        }
    } else {
        (p, q, c)
    }
}

/// The three points in the order of their heights.
pub fn sort_by_height<T: Real>(a: Point<T>, b: Point<T>, c: Point<T>) -> (r: (
    Point<T>,
    Point<T>,
    Point<T>,
))
    ensures
        r == by_height(a, b, c),
{
    proof {
        T::lemma_laws();
    }
    let (p, q) = if b.y < a.y {
        (b, a)
    } else {
        (a, b)
    };
    if c.y < q.y {
        if c.y < p.y {
            (c, p, q)
        } else {
            (p, c, q)
        }
    } else {
        (p, q, c)
    }
}

impl<T: Real> HalfTriangle<T> {
    /// The area of the half triangle: its horizontal side times its height,
    /// halved.
    pub open spec fn area_spec(&self) -> T {
        self.x2.sub_spec(self.x1).abs_spec().mul_spec(
            self.free.y.sub_spec(self.y).abs_spec(),
        ).div_spec(T::one_spec().add_spec(T::one_spec()))
    }

    /// Get the area of the half triangle.
    pub fn area(&self) -> (r: T)
        ensures
            r == self.area_spec(),
    {
        proof {
            T::lemma_laws();
        }
        let b = (self.x2 - self.x1).abs();
        let h = (self.free.y() - self.y).abs();
        b * h / (T::one() + T::one())
    }
}

impl<T: Real + ApproxEq> Triangle<T> {
    /// Two of the corners lie at one height, within the tolerance.
    pub open spec fn has_level_side(&self) -> bool {
        self.a.y.approx_eq_spec(&self.b.y) || self.a.y.approx_eq_spec(&self.c.y)
            || self.b.y.approx_eq_spec(&self.c.y)
    }

    /// The line from the first corner to the third.
    pub open spec fn long_side(&self) -> Line<T> {
        Line { origin: self.a, direction: offset_spec(self.c, self.a) }
    }

    /// The half triangles that make up the triangle.
    ///
    /// A triangle with two corners at one height is its own half triangle.
    /// Any other is cut at the height of its middle corner, where the line
    /// from the first corner to the third passes.
    pub open spec fn halves(&self) -> Seq<HalfTriangle<T>> {
        let (a, b, c) = (self.a, self.b, self.c);
        if a.y.approx_eq_spec(&b.y) {
            seq![HalfTriangle { y: a.y, x1: a.x, x2: b.x, free: c }]
        } else if a.y.approx_eq_spec(&c.y) {
            seq![HalfTriangle { y: a.y, x1: a.x, x2: c.x, free: b }]
        } else if b.y.approx_eq_spec(&c.y) {
            seq![HalfTriangle { y: b.y, x1: b.x, x2: c.x, free: a }]
        } else {
            let points = by_height(a, b, c);
            let split_x = self.long_side().x_at_y(points.1.y);
            seq![
                HalfTriangle { y: points.1.y, x1: points.1.x, x2: split_x, free: points.0 },
                HalfTriangle { y: points.1.y, x1: split_x, x2: points.1.x, free: points.2 },
            ]
        }
    }

    /// Cut the triangle into half triangles.
    pub fn half_triangles(self) -> (r: Vec<HalfTriangle<T>>)
        requires
            !self.has_level_side() ==> !self.long_side().horizontal(),
        ensures
            r@ == self.halves(),
    {
        proof {
            T::lemma_laws();
        }
        let (a, b, c) = (self.a, self.b, self.c);
        let single_half = if a.y().approx_eq(&b.y()) {
            Some(HalfTriangle { y: a.y(), x1: a.x(), x2: b.x(), free: c })
        } else if a.y().approx_eq(&c.y()) {
            Some(HalfTriangle { y: a.y(), x1: a.x(), x2: c.x(), free: b })
        } else if b.y().approx_eq(&c.y()) {
            Some(HalfTriangle { y: b.y(), x1: b.x(), x2: c.x(), free: a })
        } else {
            None
        };
        if let Some(single_half) = single_half {
            let r = vec![single_half];
            assert(r@ =~= self.halves());
            return r;
        }
        // Sort points by Y coordinate.

        let points = sort_by_height(a, b, c);

        // Find the X coordinate where we split the triangle.
        let ac = LineSegment::new(a, c);
        let split_x = ac.line().point_at_y(points.1.y()).unwrap().x();
        let half1 = HalfTriangle {
            y: points.1.y(),
            x1: points.1.x(),
            x2: split_x,
            free: points.0,
        };
        let half2 = HalfTriangle {
            y: points.1.y(),
            x1: split_x,
            x2: points.1.x(),
            free: points.2,
        };
        let r = vec![half1, half2];
        assert(r@ =~= self.halves());
        r
    }

    /// The area of the triangle: the sum of the areas of its half
    /// triangles, from zero.
    pub open spec fn area_spec(&self) -> T {
        let halves = self.halves();
        if halves.len() == 1 {
            T::zero_spec().add_spec(halves[0].area_spec())
        } else {
            T::zero_spec().add_spec(halves[0].area_spec()).add_spec(halves[1].area_spec())
        }
    }

    /// Get the area of the triangle.
    pub fn area(self) -> (r: T)
        requires
            !self.has_level_side() ==> !self.long_side().horizontal(),
        ensures
            r == self.area_spec(),
    {
        proof {
            T::lemma_laws();
        }
        let halves = self.half_triangles();
        let mut acc = T::zero();
        let mut i: usize = 0;
        while i < halves.len()
            invariant
                0 <= i <= halves@.len(),
                halves@ == self.halves(),
                1 <= halves@.len() <= 2,
                total_arithmetic::<T>(),
                acc == (if i == 0 {
                    T::zero_spec()
                } else if i == 1 {
                    T::zero_spec().add_spec(halves@[0].area_spec())
                } else {
                    T::zero_spec().add_spec(halves@[0].area_spec()).add_spec(
                        halves@[1].area_spec(),
                    )
                }),
            decreases halves@.len() - i,
        {
            acc = acc + halves[i].area();
            i += 1;
        }
        acc
    }

    /// The length of the outline of the triangle: the lengths of its three
    /// sides, added up from zero.
    pub fn perimeter(self) -> (r: T)
        ensures
            r == T::zero_spec().add_spec(side_length(self.a, self.b)).add_spec(
                side_length(self.b, self.c),
            ).add_spec(side_length(self.c, self.a)),
    {
        proof {
            T::lemma_laws();
        }
        T::zero() + self.ab().length() + self.bc().length() + self.ca().length()
    }
}

/// The length of the side from `from` to `to`.
pub open spec fn side_length<T: Real>(from: Point<T>, to: Point<T>) -> T {
    dot_spec(offset_spec(to, from), offset_spec(to, from)).sqrt_spec()
}

} // verus!
