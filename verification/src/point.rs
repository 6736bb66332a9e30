//! Points and vectors in the plane.

use crate::num::{gt, lerp_scalar, lt, mix, Real, Zero};
use crate::ApproxEq;
use core::ops::{Add, Div, Mul, Neg, Sub};
use vstd::prelude::*;
use vstd::std_specs::cmp::{PartialEqSpec, PartialOrdSpec};
use vstd::std_specs::ops::{AddSpec, DivSpec, MulSpec, NegSpec, SubSpec};

verus! {

/// `value` held between `min` and `max`: `min` where `value` is below it,
/// else `max` where `value` is above it, else `value`.
pub open spec fn clamp_scalar<T: PartialOrd>(value: T, min: T, max: T) -> T {
    if lt(value, min) {
        min
    } else if gt(value, max) {
        max
    } else {
        value
    }
}

/// A two-dimensional point in space.
#[derive(Debug)]
pub struct Point<T: Copy> {
    /// The X coordinate.
    pub x: T,
    /// The Y coordinate.
    pub y: T,
}

impl<T: Copy> Clone for Point<T> {
    fn clone(&self) -> (r: Self)
        ensures
            r == *self,
    {
        *self
    }
}

impl<T: Copy> Copy for Point<T> {

}

impl<T: Copy> Point<T> {
    /// Get the X coordinate.
    #[inline]
    pub fn x(self) -> (r: T)
        ensures
            r == self.x,
    {
        self.x
    }

    /// Get the Y coordinate.
    #[inline]
    pub fn y(self) -> (r: T)
        ensures
            r == self.y,
    {
        self.y
    }

    /// Constructor of two elements.
    #[inline]
    pub fn new(x: T, y: T) -> (r: Self)
        ensures
            r == (Point { x, y }),
    {
        Point { x, y }
    }

    /// Constructor with the same X and Y coordinates.
    #[inline]
    pub fn splat(value: T) -> (r: Self)
        ensures
            r == (Point { x: value, y: value }),
    {
        Point { x: value, y: value }
    }

    /// Constructor with an array of its coordinates.
    #[inline]
    pub fn from_array(array: [T; 2]) -> (r: Self)
        ensures
            r == (Point { x: array[0], y: array[1] }),
    {
        Point { x: array[0], y: array[1] }
    }

    /// Constructor with a tuple of its coordinates.
    #[inline]
    pub fn from_tuple(tuple: (T, T)) -> (r: Self)
        ensures
            r == (Point { x: tuple.0, y: tuple.1 }),
    {
        Point { x: tuple.0, y: tuple.1 }
    }

    /// The coordinates as an array, X first.
    #[inline]
    pub fn into_array(self) -> (r: [T; 2])
        ensures
            r == [self.x, self.y],
    {
        [self.x, self.y]
    }

    /// The coordinates as a tuple, X first.
    #[inline]
    pub fn into_tuple(self) -> (r: (T, T))
        ensures
            r == (self.x, self.y),
    {
        (self.x, self.y)
    }
}

impl<T: Copy + Zero> Point<T> {
    /// Constructor with zero coordinates.
    #[inline]
    pub fn zero() -> (r: Self)
        ensures
            r == (Point { x: T::zero_spec(), y: T::zero_spec() }),
    {
        Point { x: T::zero(), y: T::zero() }
    }
}

impl<T: Copy + PartialEq> PartialEq for Point<T> {
    fn eq(&self, other: &Self) -> (r: bool) {
        self.x == other.x && self.y == other.y
    }
}

impl<T: Copy + PartialEq> vstd::std_specs::cmp::PartialEqSpecImpl for Point<T> {
    open spec fn obeys_eq_spec() -> bool {
        T::obeys_eq_spec()
    }

    open spec fn eq_spec(&self, other: &Self) -> bool {
        self.x.eq_spec(&other.x) && self.y.eq_spec(&other.y)
    }
}

impl<T: Copy> From<[T; 2]> for Point<T> {
    #[inline]
    fn from(array: [T; 2]) -> (r: Self) {
        Point::from_array(array)
    }
}

impl<T: Copy> vstd::std_specs::convert::FromSpecImpl<[T; 2]> for Point<T> {
    open spec fn obeys_from_spec() -> bool {
        true
    }

    open spec fn from_spec(array: [T; 2]) -> Self {
        Point { x: array[0], y: array[1] }
    }
}

impl<T: Copy> From<(T, T)> for Point<T> {
    #[inline]
    fn from(tuple: (T, T)) -> (r: Self) {
        Point::from_tuple(tuple)
    }
}

impl<T: Copy> vstd::std_specs::convert::FromSpecImpl<(T, T)> for Point<T> {
    open spec fn obeys_from_spec() -> bool {
        true
    }

    open spec fn from_spec(tuple: (T, T)) -> Self {
        Point { x: tuple.0, y: tuple.1 }
    }
}

impl<T: Copy> From<Point<T>> for [T; 2] {
    #[inline]
    fn from(value: Point<T>) -> (r: Self) {
        value.into_array()
    }
}

impl<T: Copy> vstd::std_specs::convert::FromSpecImpl<Point<T>> for [T; 2] {
    open spec fn obeys_from_spec() -> bool {
        true
    }

    open spec fn from_spec(value: Point<T>) -> Self {
        [value.x, value.y]
    }
}

impl<T: Copy> From<Point<T>> for (T, T) {
    #[inline]
    fn from(value: Point<T>) -> (r: Self) {
        value.into_tuple()
    }
}

impl<T: Copy> vstd::std_specs::convert::FromSpecImpl<Point<T>> for (T, T) {
    open spec fn obeys_from_spec() -> bool {
        true
    }

    open spec fn from_spec(value: Point<T>) -> Self {
        (value.x, value.y)
    }
}

impl<T: Copy + Add<Output = T>> Add<Vector<T>> for Point<T> {
    type Output = Self;

    /// Adds the vector's coordinates to these, one by one.
    #[inline]
    fn add(self, other: Vector<T>) -> (r: Self) {
        Point { x: self.x + other.x, y: self.y + other.y }
    }
}

impl<T: Copy + Add<Output = T>> vstd::std_specs::ops::AddSpecImpl<Vector<T>> for Point<T> {
    open spec fn obeys_add_spec() -> bool {
        T::obeys_add_spec()
    }

    open spec fn add_req(self, other: Vector<T>) -> bool {
        self.x.add_req(other.x) && self.y.add_req(other.y)
    }

    open spec fn add_spec(self, other: Vector<T>) -> Self {
        Point { x: self.x.add_spec(other.x), y: self.y.add_spec(other.y) }
    }
}

impl<T: Copy + Sub<Output = T>> Sub<Vector<T>> for Point<T> {
    type Output = Self;

    /// Subtracts the vector's coordinates from these, one by one.
    #[inline]
    fn sub(self, other: Vector<T>) -> (r: Self) {
        Point { x: self.x - other.x, y: self.y - other.y }
    }
}

impl<T: Copy + Sub<Output = T>> vstd::std_specs::ops::SubSpecImpl<Vector<T>> for Point<T> {
    open spec fn obeys_sub_spec() -> bool {
        T::obeys_sub_spec()
    }

    open spec fn sub_req(self, other: Vector<T>) -> bool {
        self.x.sub_req(other.x) && self.y.sub_req(other.y)
    }

    open spec fn sub_spec(self, other: Vector<T>) -> Self {
        Point { x: self.x.sub_spec(other.x), y: self.y.sub_spec(other.y) }
    }
}

impl<T: Copy + Mul<Output = T>> Mul<T> for Point<T> {
    type Output = Self;

    /// Multiplies both coordinates by the scalar.
    #[inline]
    fn mul(self, other: T) -> (r: Self) {
        Point { x: self.x * other, y: self.y * other }
    }
}

impl<T: Copy + Mul<Output = T>> vstd::std_specs::ops::MulSpecImpl<T> for Point<T> {
    open spec fn obeys_mul_spec() -> bool {
        T::obeys_mul_spec()
    }

    open spec fn mul_req(self, other: T) -> bool {
        self.x.mul_req(other) && self.y.mul_req(other)
    }

    open spec fn mul_spec(self, other: T) -> Self {
        Point { x: self.x.mul_spec(other), y: self.y.mul_spec(other) }
    }
}

impl<T: Copy + Div<Output = T>> Div<T> for Point<T> {
    type Output = Self;

    /// Divides both coordinates by the scalar.
    #[inline]
    fn div(self, other: T) -> (r: Self) {
        Point { x: self.x / other, y: self.y / other }
    }
}

impl<T: Copy + Div<Output = T>> vstd::std_specs::ops::DivSpecImpl<T> for Point<T> {
    open spec fn obeys_div_spec() -> bool {
        T::obeys_div_spec()
    }

    open spec fn div_req(self, other: T) -> bool {
        self.x.div_req(other) && self.y.div_req(other)
    }

    open spec fn div_spec(self, other: T) -> Self {
        Point { x: self.x.div_spec(other), y: self.y.div_spec(other) }
    }
}

impl<T: Copy + Neg<Output = T>> Neg for Point<T> {
    type Output = Self;

    /// Negates both coordinates.
    #[inline]
    fn neg(self) -> (r: Self) {
        Point { x: self.x.neg(), y: self.y.neg() }
    }
}

impl<T: Copy + Neg<Output = T>> vstd::std_specs::ops::NegSpecImpl for Point<T> {
    open spec fn obeys_neg_spec() -> bool {
        T::obeys_neg_spec()
    }

    open spec fn neg_req(self) -> bool {
        self.x.neg_req() && self.y.neg_req()
    }

    open spec fn neg_spec(self) -> Self {
        Point { x: self.x.neg_spec(), y: self.y.neg_spec() }
    }
}

impl<T: Copy + PartialOrd> Point<T> {
    /// The lesser of each pair of coordinates; `other`'s where neither is
    /// below the other.
    #[inline]
    pub fn min(self, other: Self) -> (r: Self)
        requires
            T::obeys_partial_cmp_spec(),
        ensures
            r.x == (if lt(self.x, other.x) { self.x } else { other.x }),
            r.y == (if lt(self.y, other.y) { self.y } else { other.y }),
    {
        Point {
            x: if self.x < other.x { self.x } else { other.x },
            y: if self.y < other.y { self.y } else { other.y },
        }
    }

    /// The greater of each pair of coordinates; `other`'s where neither is
    /// above the other.
    #[inline]
    pub fn max(self, other: Self) -> (r: Self)
        requires
            T::obeys_partial_cmp_spec(),
        ensures
            r.x == (if gt(self.x, other.x) { self.x } else { other.x }),
            r.y == (if gt(self.y, other.y) { self.y } else { other.y }),
    {
        Point {
            x: if self.x > other.x { self.x } else { other.x },
            y: if self.y > other.y { self.y } else { other.y },
        }
    }

    /// Clamp the coordinates to the range `[min, max]`.
    #[inline]
    pub fn clamp(self, min: Self, max: Self) -> (r: Self)
        requires
            T::obeys_partial_cmp_spec(),
        ensures
            r.x == clamp_scalar(self.x, min.x, max.x),
            r.y == clamp_scalar(self.y, min.y, max.y),
    {
        Point {
            x: if self.x < min.x { min.x } else if self.x > max.x { max.x } else { self.x },
            y: if self.y < min.y { min.y } else if self.y > max.y { max.y } else { self.y },
        }
    }
}

impl<T: Copy + ApproxEq> Point<T> {
    /// Check if all coordinates are approximately equal to another's.
    #[inline]
    pub fn approx_eq(&self, other: &Self) -> (r: bool)
        ensures
            r == (self.x.approx_eq_spec(&other.x) && self.y.approx_eq_spec(&other.y)),
    {
        self.x.approx_eq(&other.x) && self.y.approx_eq(&other.y)
    }
}
/// A two-dimensional vector describing the distance between two points.
#[derive(Debug)]
pub struct Vector<T: Copy> {
    /// The X coordinate.
    pub x: T,
    /// The Y coordinate.
    pub y: T,
}

impl<T: Copy> Clone for Vector<T> {
    fn clone(&self) -> (r: Self)
        ensures
            r == *self,
    {
        *self
    }
}

impl<T: Copy> Copy for Vector<T> {

}

impl<T: Copy> Vector<T> {
    /// Get the X coordinate.
    #[inline]
    pub fn x(self) -> (r: T)
        ensures
            r == self.x,
    {
        self.x
    }

    /// Get the Y coordinate.
    #[inline]
    pub fn y(self) -> (r: T)
        ensures
            r == self.y,
    {
        self.y
    }

    /// Constructor of two elements.
    #[inline]
    pub fn new(x: T, y: T) -> (r: Self)
        ensures
            r == (Vector { x, y }),
    {
        Vector { x, y }
    }

    /// Constructor with the same X and Y coordinates.
    #[inline]
    pub fn splat(value: T) -> (r: Self)
        ensures
            r == (Vector { x: value, y: value }),
    {
        Vector { x: value, y: value }
    }

    /// Constructor with an array of its coordinates.
    #[inline]
    pub fn from_array(array: [T; 2]) -> (r: Self)
        ensures
            r == (Vector { x: array[0], y: array[1] }),
    {
        Vector { x: array[0], y: array[1] }
    }

    /// Constructor with a tuple of its coordinates.
    #[inline]
    pub fn from_tuple(tuple: (T, T)) -> (r: Self)
        ensures
            r == (Vector { x: tuple.0, y: tuple.1 }),
    {
        Vector { x: tuple.0, y: tuple.1 }
    }

    /// The coordinates as an array, X first.
    #[inline]
    pub fn into_array(self) -> (r: [T; 2])
        ensures
            r == [self.x, self.y],
    {
        [self.x, self.y]
    }

    /// The coordinates as a tuple, X first.
    #[inline]
    pub fn into_tuple(self) -> (r: (T, T))
        ensures
            r == (self.x, self.y),
    {
        (self.x, self.y)
    }
}

impl<T: Copy + Zero> Vector<T> {
    /// Constructor with zero coordinates.
    #[inline]
    pub fn zero() -> (r: Self)
        ensures
            r == (Vector { x: T::zero_spec(), y: T::zero_spec() }),
    {
        Vector { x: T::zero(), y: T::zero() }
    }
}

impl<T: Copy + PartialEq> PartialEq for Vector<T> {
    fn eq(&self, other: &Self) -> (r: bool) {
        self.x == other.x && self.y == other.y
    }
}

impl<T: Copy + PartialEq> vstd::std_specs::cmp::PartialEqSpecImpl for Vector<T> {
    open spec fn obeys_eq_spec() -> bool {
        T::obeys_eq_spec()
    }

    open spec fn eq_spec(&self, other: &Self) -> bool {
        self.x.eq_spec(&other.x) && self.y.eq_spec(&other.y)
    }
}

impl<T: Copy> From<[T; 2]> for Vector<T> {
    #[inline]
    fn from(array: [T; 2]) -> (r: Self) {
        Vector::from_array(array)
    }
}

impl<T: Copy> vstd::std_specs::convert::FromSpecImpl<[T; 2]> for Vector<T> {
    open spec fn obeys_from_spec() -> bool {
        true
    }

    open spec fn from_spec(array: [T; 2]) -> Self {
        Vector { x: array[0], y: array[1] }
    }
}

impl<T: Copy> From<(T, T)> for Vector<T> {
    #[inline]
    fn from(tuple: (T, T)) -> (r: Self) {
        Vector::from_tuple(tuple)
    }
}

impl<T: Copy> vstd::std_specs::convert::FromSpecImpl<(T, T)> for Vector<T> {
    open spec fn obeys_from_spec() -> bool {
        true
    }

    open spec fn from_spec(tuple: (T, T)) -> Self {
        Vector { x: tuple.0, y: tuple.1 }
    }
}

impl<T: Copy> From<Vector<T>> for [T; 2] {
    #[inline]
    fn from(value: Vector<T>) -> (r: Self) {
        value.into_array()
    }
}

impl<T: Copy> vstd::std_specs::convert::FromSpecImpl<Vector<T>> for [T; 2] {
    open spec fn obeys_from_spec() -> bool {
        true
    }

    open spec fn from_spec(value: Vector<T>) -> Self {
        [value.x, value.y]
    }
}

impl<T: Copy> From<Vector<T>> for (T, T) {
    #[inline]
    fn from(value: Vector<T>) -> (r: Self) {
        value.into_tuple()
    }
}

impl<T: Copy> vstd::std_specs::convert::FromSpecImpl<Vector<T>> for (T, T) {
    open spec fn obeys_from_spec() -> bool {
        true
    }

    open spec fn from_spec(value: Vector<T>) -> Self {
        (value.x, value.y)
    }
}

impl<T: Copy + Add<Output = T>> Add<Vector<T>> for Vector<T> {
    type Output = Self;

    /// Adds the vector's coordinates to these, one by one.
    #[inline]
    fn add(self, other: Vector<T>) -> (r: Self) {
        Vector { x: self.x + other.x, y: self.y + other.y }
    }
}

impl<T: Copy + Add<Output = T>> vstd::std_specs::ops::AddSpecImpl<Vector<T>> for Vector<T> {
    open spec fn obeys_add_spec() -> bool {
        T::obeys_add_spec()
    }

    open spec fn add_req(self, other: Vector<T>) -> bool {
        self.x.add_req(other.x) && self.y.add_req(other.y)
    }

    open spec fn add_spec(self, other: Vector<T>) -> Self {
        Vector { x: self.x.add_spec(other.x), y: self.y.add_spec(other.y) }
    }
}

impl<T: Copy + Sub<Output = T>> Sub<Vector<T>> for Vector<T> {
    type Output = Self;

    /// Subtracts the vector's coordinates from these, one by one.
    #[inline]
    fn sub(self, other: Vector<T>) -> (r: Self) {
        Vector { x: self.x - other.x, y: self.y - other.y }
    }
}

impl<T: Copy + Sub<Output = T>> vstd::std_specs::ops::SubSpecImpl<Vector<T>> for Vector<T> {
    open spec fn obeys_sub_spec() -> bool {
        T::obeys_sub_spec()
    }

    open spec fn sub_req(self, other: Vector<T>) -> bool {
        self.x.sub_req(other.x) && self.y.sub_req(other.y)
    }

    open spec fn sub_spec(self, other: Vector<T>) -> Self {
        Vector { x: self.x.sub_spec(other.x), y: self.y.sub_spec(other.y) }
    }
}

impl<T: Copy + Mul<Output = T>> Mul<T> for Vector<T> {
    type Output = Self;

    /// Multiplies both coordinates by the scalar.
    #[inline]
    fn mul(self, other: T) -> (r: Self) {
        Vector { x: self.x * other, y: self.y * other }
    }
}

impl<T: Copy + Mul<Output = T>> vstd::std_specs::ops::MulSpecImpl<T> for Vector<T> {
    open spec fn obeys_mul_spec() -> bool {
        T::obeys_mul_spec()
    }

    open spec fn mul_req(self, other: T) -> bool {
        self.x.mul_req(other) && self.y.mul_req(other)
    }

    open spec fn mul_spec(self, other: T) -> Self {
        Vector { x: self.x.mul_spec(other), y: self.y.mul_spec(other) }
    }
}

impl<T: Copy + Div<Output = T>> Div<T> for Vector<T> {
    type Output = Self;

    /// Divides both coordinates by the scalar.
    #[inline]
    fn div(self, other: T) -> (r: Self) {
        Vector { x: self.x / other, y: self.y / other }
    }
}

impl<T: Copy + Div<Output = T>> vstd::std_specs::ops::DivSpecImpl<T> for Vector<T> {
    open spec fn obeys_div_spec() -> bool {
        T::obeys_div_spec()
    }

    open spec fn div_req(self, other: T) -> bool {
        self.x.div_req(other) && self.y.div_req(other)
    }

    open spec fn div_spec(self, other: T) -> Self {
        Vector { x: self.x.div_spec(other), y: self.y.div_spec(other) }
    }
}

impl<T: Copy + Neg<Output = T>> Neg for Vector<T> {
    type Output = Self;

    /// Negates both coordinates.
    #[inline]
    fn neg(self) -> (r: Self) {
        Vector { x: self.x.neg(), y: self.y.neg() }
    }
}

impl<T: Copy + Neg<Output = T>> vstd::std_specs::ops::NegSpecImpl for Vector<T> {
    open spec fn obeys_neg_spec() -> bool {
        T::obeys_neg_spec()
    }

    open spec fn neg_req(self) -> bool {
        self.x.neg_req() && self.y.neg_req()
    }

    open spec fn neg_spec(self) -> Self {
        Vector { x: self.x.neg_spec(), y: self.y.neg_spec() }
    }
}

impl<T: Copy + PartialOrd> Vector<T> {
    /// The lesser of each pair of coordinates; `other`'s where neither is
    /// below the other.
    #[inline]
    pub fn min(self, other: Self) -> (r: Self)
        requires
            T::obeys_partial_cmp_spec(),
        ensures
            r.x == (if lt(self.x, other.x) { self.x } else { other.x }),
            r.y == (if lt(self.y, other.y) { self.y } else { other.y }),
    {
        Vector {
            x: if self.x < other.x { self.x } else { other.x },
            y: if self.y < other.y { self.y } else { other.y },
        }
    }

    /// The greater of each pair of coordinates; `other`'s where neither is
    /// above the other.
    #[inline]
    pub fn max(self, other: Self) -> (r: Self)
        requires
            T::obeys_partial_cmp_spec(),
        ensures
            r.x == (if gt(self.x, other.x) { self.x } else { other.x }),
            r.y == (if gt(self.y, other.y) { self.y } else { other.y }),
    {
        Vector {
            x: if self.x > other.x { self.x } else { other.x },
            y: if self.y > other.y { self.y } else { other.y },
        }
    }

    /// Clamp the coordinates to the range `[min, max]`.
    #[inline]
    pub fn clamp(self, min: Self, max: Self) -> (r: Self)
        requires
            T::obeys_partial_cmp_spec(),
        ensures
            r.x == clamp_scalar(self.x, min.x, max.x),
            r.y == clamp_scalar(self.y, min.y, max.y),
    {
        Vector {
            x: if self.x < min.x { min.x } else if self.x > max.x { max.x } else { self.x },
            y: if self.y < min.y { min.y } else if self.y > max.y { max.y } else { self.y },
        }
    }
}

impl<T: Copy + ApproxEq> Vector<T> {
    /// Check if all coordinates are approximately equal to another's.
    #[inline]
    pub fn approx_eq(&self, other: &Self) -> (r: bool)
        ensures
            r == (self.x.approx_eq_spec(&other.x) && self.y.approx_eq_spec(&other.y)),
    {
        self.x.approx_eq(&other.x) && self.y.approx_eq(&other.y)
    }
}

impl<T: Copy + Sub<Output = T>> Sub<Point<T>> for Point<T> {
    type Output = Vector<T>;

    /// The vector that leads from `other` to this point.
    #[inline]
    fn sub(self, other: Point<T>) -> (r: Vector<T>) {
        Vector { x: self.x - other.x, y: self.y - other.y }
    }
}

impl<T: Copy + Sub<Output = T>> vstd::std_specs::ops::SubSpecImpl<Point<T>> for Point<T> {
    open spec fn obeys_sub_spec() -> bool {
        T::obeys_sub_spec()
    }

    open spec fn sub_req(self, other: Point<T>) -> bool {
        self.x.sub_req(other.x) && self.y.sub_req(other.y)
    }

    open spec fn sub_spec(self, other: Point<T>) -> Vector<T> {
        Vector { x: self.x.sub_spec(other.x), y: self.y.sub_spec(other.y) }
    }
}

impl<T: Copy> From<Vector<T>> for Point<T> {
    #[inline]
    fn from(vector: Vector<T>) -> (r: Self) {
        Point { x: vector.x, y: vector.y }
    }
}

impl<T: Copy> vstd::std_specs::convert::FromSpecImpl<Vector<T>> for Point<T> {
    open spec fn obeys_from_spec() -> bool {
        true
    }

    open spec fn from_spec(vector: Vector<T>) -> Self {
        Point { x: vector.x, y: vector.y }
    }
}

impl<T: Copy> From<Point<T>> for Vector<T> {
    #[inline]
    fn from(point: Point<T>) -> (r: Self) {
        Vector { x: point.x, y: point.y }
    }
}

impl<T: Copy> vstd::std_specs::convert::FromSpecImpl<Point<T>> for Vector<T> {
    open spec fn obeys_from_spec() -> bool {
        true
    }

    open spec fn from_spec(point: Point<T>) -> Self {
        Vector { x: point.x, y: point.y }
    }
}

impl<T: Copy> Point<T> {
    /// Convert this point to a vector.
    pub fn into_vector(self) -> (r: Vector<T>)
        ensures
            r == (Vector { x: self.x, y: self.y }),
    {
        Vector { x: self.x, y: self.y }
    }
}

impl<T: Copy> Vector<T> {
    /// Convert this vector to a point.
    pub fn into_point(self) -> (r: Point<T>)
        ensures
            r == (Point { x: self.x, y: self.y }),
    {
        Point { x: self.x, y: self.y }
    }
}

/// The vector that leads from `b` to `a`.
pub open spec fn offset_spec<T: Copy + Sub<Output = T>>(a: Point<T>, b: Point<T>) -> Vector<T> {
    Vector { x: a.x.sub_spec(b.x), y: a.y.sub_spec(b.y) }
}

/// The dot product `ax * bx + ay * by`.
pub open spec fn dot_spec<T: Copy + Add<Output = T> + Mul<Output = T>>(
    a: Vector<T>,
    b: Vector<T>,
) -> T {
    a.x.mul_spec(b.x).add_spec(a.y.mul_spec(b.y))
}

/// The cross product `ax * by - ay * bx`.
pub open spec fn cross_spec<T: Copy + Sub<Output = T> + Mul<Output = T>>(
    a: Vector<T>,
    b: Vector<T>,
) -> T {
    a.x.mul_spec(b.y).sub_spec(a.y.mul_spec(b.x))
}

impl<T: Copy> Vector<T> {
    /// Get the dot product of two vectors.
    #[inline]
    pub fn dot(self, other: Self) -> (r: T) where T: Add<Output = T> + Mul<Output = T>
        requires
            T::obeys_mul_spec(),
            self.x.mul_req(other.x),
            self.y.mul_req(other.y),
            self.x.mul_spec(other.x).add_req(self.y.mul_spec(other.y)),
        ensures
            T::obeys_add_spec() ==> r == dot_spec(self, other),
    {
        self.x * other.x + self.y * other.y
    }

    /// Get the cross product of two vectors.
    #[inline]
    pub fn cross(self, other: Self) -> (r: T) where T: Sub<Output = T> + Mul<Output = T>
        requires
            T::obeys_mul_spec(),
            self.x.mul_req(other.y),
            self.y.mul_req(other.x),
            self.x.mul_spec(other.y).sub_req(self.y.mul_spec(other.x)),
        ensures
            T::obeys_sub_spec() ==> r == cross_spec(self, other),
    {
        self.x * other.y - self.y * other.x
    }

    /// Get the square length of this vector.
    #[inline]
    pub fn length_squared(self) -> (r: T) where T: Add<Output = T> + Mul<Output = T>
        requires
            T::obeys_mul_spec(),
            self.x.mul_req(self.x),
            self.y.mul_req(self.y),
            self.x.mul_spec(self.x).add_req(self.y.mul_spec(self.y)),
        ensures
            T::obeys_add_spec() ==> r == dot_spec(self, self),
    {
        self.dot(self)
    }

    /// Get the length of the vector.
    #[inline]
    pub fn length(self) -> (r: T) where T: Real
        ensures
            r == dot_spec(self, self).sqrt_spec(),
    {
        proof {
            T::lemma_laws();
        }
        self.length_squared().sqrt()
    }

    /// Normalize this vector so that it has a length of one.
    #[inline]
    pub fn normalize(self) -> (r: Self) where T: Real
        ensures
            r.x == self.x.div_spec(dot_spec(self, self).sqrt_spec()),
            r.y == self.y.div_spec(dot_spec(self, self).sqrt_spec()),
    {
        proof {
            T::lemma_laws();
        }
        self / self.length()
    }

    /// Project this vector onto another vector: the other vector, scaled
    /// by the dot product of the two over the square length of the other.
    #[inline]
    pub fn project(self, other: Self) -> (r: Self) where T: Real
        ensures
            r.x == other.x.mul_spec(dot_spec(self, other).div_spec(dot_spec(other, other))),
            r.y == other.y.mul_spec(dot_spec(self, other).div_spec(dot_spec(other, other))),
    {
        proof {
            T::lemma_laws();
        }
        let factor = self.dot(other) / other.length_squared();
        Vector { x: other.x * factor, y: other.y * factor }
    }
}

impl<T: Copy> Point<T> {
    /// Get the distance between this point and another point.
    #[inline]
    pub fn distance(self, other: Self) -> (r: T) where T: Real
        ensures
            r == dot_spec(offset_spec(self, other), offset_spec(self, other)).sqrt_spec(),
    {
        proof {
            T::lemma_laws();
        }
        (self - other).length()
    }

    /// Get the distance squared between this point and another point.
    #[inline]
    pub fn distance_squared(self, other: Self) -> (r: T) where
        T: Add<Output = T> + Sub<Output = T> + Mul<Output = T>,

        requires
            T::obeys_sub_spec(),
            T::obeys_mul_spec(),
            self.sub_req(other),
            ({
                let d = offset_spec(self, other);
                &&& d.x.mul_req(d.x)
                &&& d.y.mul_req(d.y)
                &&& d.x.mul_spec(d.x).add_req(d.y.mul_spec(d.y))
            }),
        ensures
            T::obeys_add_spec() ==> r == dot_spec(offset_spec(self, other), offset_spec(self, other)),
    {
        (self - other).length_squared()
    }

    /// Get the midpoint between this point and another point.
    #[inline]
    pub fn midpoint(self, other: Self) -> (r: Self) where T: Real
        ensures
            r.x == self.x.add_spec(other.x).div_spec(T::one_spec().add_spec(T::one_spec())),
            r.y == self.y.add_spec(other.y).div_spec(T::one_spec().add_spec(T::one_spec())),
    {
        proof {
            T::lemma_laws();
        }
        let two = T::one() + T::one();
        Point { x: (self.x + other.x) / two, y: (self.y + other.y) / two }
    }
}

impl<T: Real> Point<T> {
    /// Get the absolute value of both components.
    #[inline]
    pub fn abs(self) -> (r: Self)
        ensures
            r == (Point { x: self.x.abs_spec(), y: self.y.abs_spec() }),
    {
        Point { x: self.x.abs(), y: self.y.abs() }
    }

    /// Linearly interpolate between this and another, component by
    /// component.
    #[inline]
    pub fn lerp(self, other: Self, t: T) -> (r: Self)
        ensures
            r == (Point {
                x: mix(self.x, other.x, t),
                y: mix(self.y, other.y, t),
            }),
    {
        Point {
            x: lerp_scalar(self.x, other.x, t),
            y: lerp_scalar(self.y, other.y, t),
        }
    }
}

impl<T: Real> Vector<T> {
    /// Get the absolute value of both components.
    #[inline]
    pub fn abs(self) -> (r: Self)
        ensures
            r == (Vector { x: self.x.abs_spec(), y: self.y.abs_spec() }),
    {
        Vector { x: self.x.abs(), y: self.y.abs() }
    }

    /// Linearly interpolate between this and another, component by
    /// component.
    #[inline]
    pub fn lerp(self, other: Self, t: T) -> (r: Self)
        ensures
            r == (Vector {
                x: mix(self.x, other.x, t),
                y: mix(self.y, other.y, t),
            }),
    {
        Vector {
            x: lerp_scalar(self.x, other.x, t),
            y: lerp_scalar(self.y, other.y, t),
        }
    }
}

} // verus!
