//! Affine transforms.

use super::Transform;
use crate::num::{One, Real, Zero};
use crate::point::Point;
use core::ops::{Add, Mul, Sub};
use vstd::prelude::*;
use vstd::std_specs::ops::{AddSpec, DivSpec, MulSpec, NegSpec, SubSpec};

verus! {

/// An affine transform: a matrix of four coefficients `a`, `b`, `c`, `d`
/// and a translation `e`, `f`.
#[derive(Debug)]
pub struct Affine<T: Copy> {
    /// The coefficients `a`, `b`, `c` and `d` of the matrix.
    pub matrix: [T; 4],
    /// The translation `e`, `f`.
    pub transform: [T; 2],
}

impl<T: Copy> Clone for Affine<T> {
    fn clone(&self) -> (r: Self)
        ensures
            r == *self,
    {
        *self
    }
}

impl<T: Copy> Copy for Affine<T> {

}

impl<T: Copy> Affine<T> {
    /// The six coefficients `a` to `f`.
    pub open spec fn coefficients(&self) -> Seq<T> {
        seq![
            self.matrix[0],
            self.matrix[1],
            self.matrix[2],
            self.matrix[3],
            self.transform[0],
            self.transform[1],
        ]
    }

    /// Create a new affine transform from its coefficients.
    #[inline]
    pub fn new(coefficients: [T; 6]) -> (r: Self)
        ensures
            r.coefficients() == coefficients@,
    {
        let r = Affine {
            matrix: [coefficients[0], coefficients[1], coefficients[2], coefficients[3]],
            transform: [coefficients[4], coefficients[5]],
        };
        assert(r.coefficients() =~= coefficients@);
        r
    }

    /// Get the coefficients of the transform.
    #[inline]
    pub fn as_coefficients(&self) -> (r: [T; 6])
        ensures
            r@ == self.coefficients(),
    {
        let r = [
            self.matrix[0],
            self.matrix[1],
            self.matrix[2],
            self.matrix[3],
            self.transform[0],
            self.transform[1],
        ];
        assert(r@ =~= self.coefficients());
        r
    }

    /// Create a new affine transform that scales by `x` and by `y`.
    #[inline]
    pub fn scale(x: T, y: T) -> (r: Self) where T: Zero
        ensures
            r.coefficients() == seq![
                x,
                T::zero_spec(),
                T::zero_spec(),
                y,
                T::zero_spec(),
                T::zero_spec(),
            ],
    {
        let r = Self::new([x, T::zero(), T::zero(), y, T::zero(), T::zero()]);
        assert(r.coefficients() =~= seq![
            x,
            T::zero_spec(),
            T::zero_spec(),
            y,
            T::zero_spec(),
            T::zero_spec(),
        ]);
        r
    }

    /// Create a new affine transform that moves by `x` and by `y`.
    #[inline]
    pub fn translate(x: T, y: T) -> (r: Self) where T: Zero + One
        ensures
            r.coefficients() == seq![
                T::one_spec(),
                T::zero_spec(),
                T::zero_spec(),
                T::one_spec(),
                x,
                y,
            ],
    {
        let r = Self::new([T::one(), T::zero(), T::zero(), T::one(), x, y]);
        assert(r.coefficients() =~= seq![
            T::one_spec(),
            T::zero_spec(),
            T::zero_spec(),
            T::one_spec(),
            x,
            y,
        ]);
        r
    }

    /// Get the determinant of the matrix, `a * d - b * c`.
    #[inline]
    pub fn determinant(&self) -> (r: T) where T: Sub<Output = T> + Mul<Output = T>
        requires
            T::obeys_mul_spec(),
            self.matrix[0].mul_req(self.matrix[3]),
            self.matrix[1].mul_req(self.matrix[2]),
            self.matrix[0].mul_spec(self.matrix[3]).sub_req(
                self.matrix[1].mul_spec(self.matrix[2]),
            ),
        ensures
            T::obeys_sub_spec() ==> r == self.matrix[0].mul_spec(self.matrix[3]).sub_spec(
                self.matrix[1].mul_spec(self.matrix[2]),
            ),
    {
        self.matrix[0] * self.matrix[3] - self.matrix[1] * self.matrix[2]
    }
}

impl<T: Real> Affine<T> {
    /// Create a new affine transform that turns by the angle with the
    /// given sine and cosine.
    pub fn rotation(sin: T, cos: T) -> (r: Self)
        ensures
            r.coefficients() == seq![
                cos,
                sin.neg_spec(),
                sin,
                cos,
                T::zero_spec(),
                T::zero_spec(),
            ],
    {
        proof {
            T::lemma_laws();
        }
        let r = Self::new([cos, sin.neg(), sin, cos, T::zero(), T::zero()]);
        assert(r.coefficients() =~= seq![
            cos,
            sin.neg_spec(),
            sin,
            cos,
            T::zero_spec(),
            T::zero_spec(),
        ]);
        r
    }

    /// The coefficients of the inverse of the transform with the given
    /// coefficients: with `i` one over the determinant `a * d - b * c`,
    /// they are `d * i`, `-b * i`, `-c * i`, `a * i`, `(c * f - d * e) * i`
    /// and `(b * e - a * f) * i`.
    pub open spec fn inverted(c: Seq<T>) -> Seq<T> {
        let det = c[0].mul_spec(c[3]).sub_spec(c[1].mul_spec(c[2]));
        let i = T::one_spec().div_spec(det);
        seq![
            c[3].mul_spec(i),
            c[1].neg_spec().mul_spec(i),
            c[2].neg_spec().mul_spec(i),
            c[0].mul_spec(i),
            c[2].mul_spec(c[5]).sub_spec(c[3].mul_spec(c[4])).mul_spec(i),
            c[1].mul_spec(c[4]).sub_spec(c[0].mul_spec(c[5])).mul_spec(i),
        ]
    }

    /// Get the inverse of the affine transform.
    pub fn inverse(&self) -> (r: Self)
        ensures
            r.coefficients() == Self::inverted(self.coefficients()),
    {
        proof {
            T::lemma_laws();
        }
        let inverse_det = T::one() / self.determinant();
        let a = self.matrix[0];
        let b = self.matrix[1];
        let c = self.matrix[2];
        let d = self.matrix[3];
        let e = self.transform[0];
        let f = self.transform[1];
        let r = Self::new(
            [
                d * inverse_det,
                b.neg() * inverse_det,
                c.neg() * inverse_det,
                a * inverse_det,
                (c * f - d * e) * inverse_det,
                (b * e - a * f) * inverse_det,
            ],
        );
        assert(r.coefficients() =~= Self::inverted(self.coefficients()));
        r
    }
}

impl<T: Copy + Zero + One> Default for Affine<T> {
    /// The transform that changes nothing.
    #[inline]
    fn default() -> (r: Self)
        ensures
            r.coefficients() == seq![
                T::one_spec(),
                T::zero_spec(),
                T::zero_spec(),
                T::one_spec(),
                T::zero_spec(),
                T::zero_spec(),
            ],
    {
        let r = Self::new([T::one(), T::zero(), T::zero(), T::one(), T::zero(), T::zero()]);
        assert(r.coefficients() =~= seq![
            T::one_spec(),
            T::zero_spec(),
            T::zero_spec(),
            T::one_spec(),
            T::zero_spec(),
            T::zero_spec(),
        ]);
        r
    }
}

impl<T: Copy + Mul<Output = T> + Add<Output = T>> Transform<T> for Affine<T> {
    open spec fn applies_to(&self, point: Point<T>) -> bool {
        &&& T::obeys_mul_spec()
        &&& T::obeys_add_spec()
        &&& self.matrix[0].mul_req(point.x)
        &&& self.matrix[1].mul_req(point.y)
        &&& self.matrix[2].mul_req(point.y)
        &&& self.matrix[3].mul_req(point.x)
        &&& self.matrix[0].mul_spec(point.x).add_req(self.matrix[2].mul_spec(point.y))
        &&& self.matrix[1].mul_spec(point.y).add_req(self.matrix[3].mul_spec(point.x))
        &&& self.matrix[0].mul_spec(point.x).add_spec(self.matrix[2].mul_spec(point.y)).add_req(
            self.transform[0],
        )
        &&& self.matrix[1].mul_spec(point.y).add_spec(self.matrix[3].mul_spec(point.x)).add_req(
            self.transform[1],
        )
    }

    open spec fn transformed(&self, point: Point<T>) -> Point<T> {
        Point {
            x: self.matrix[0].mul_spec(point.x).add_spec(self.matrix[2].mul_spec(point.y)).add_spec(
                self.transform[0],
            ),
            y: self.matrix[1].mul_spec(point.y).add_spec(self.matrix[3].mul_spec(point.x)).add_spec(
                self.transform[1],
            ),
        }
    }

    fn transform_point(&self, point: Point<T>) -> (r: Point<T>) {
        Point {
            x: (self.matrix[0] * point.x + self.matrix[2] * point.y) + self.transform[0],
            y: (self.matrix[1] * point.y + self.matrix[3] * point.x) + self.transform[1],
        }
    }
}

} // verus!
