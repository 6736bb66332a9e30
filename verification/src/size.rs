//! A width and a height.

use crate::num::{gt, lerp_scalar, lt, mix, Real, Zero};
use crate::point::{clamp_scalar, Point};
use crate::ApproxEq;
use core::ops::{Add, Div, Mul, Neg, Sub};
use vstd::prelude::*;
use vstd::std_specs::cmp::{PartialEqSpec, PartialOrdSpec};
use vstd::std_specs::ops::{AddSpec, DivSpec, MulSpec, NegSpec, SubSpec};

verus! {

/// A two-dimensional size, made of a width and a height.
#[derive(Debug)]
pub struct Size<T: Copy> {
    /// The width.
    pub width: T,
    /// The height.
    pub height: T,
}

impl<T: Copy> Clone for Size<T> {
    fn clone(&self) -> (r: Self)
        ensures
            r == *self,
    {
        *self
    }
}

impl<T: Copy> Copy for Size<T> {

}

impl<T: Copy> Size<T> {
    /// Get the width.
    #[inline]
    pub fn width(&self) -> (r: T)
        ensures
            r == self.width,
    {
        self.width
    }

    /// Get the height.
    #[inline]
    pub fn height(&self) -> (r: T)
        ensures
            r == self.height,
    {
        self.height
    }

    /// Constructor of two elements.
    #[inline]
    pub fn new(width: T, height: T) -> (r: Self)
        ensures
            r == (Size { width, height }),
    {
        Size { width, height }
    }

    /// Constructor with the same width and height.
    #[inline]
    pub fn splat(value: T) -> (r: Self)
        ensures
            r == (Size { width: value, height: value }),
    {
        Size { width: value, height: value }
    }

    /// Constructor with an array of the width and the height.
    #[inline]
    pub fn from_array(array: [T; 2]) -> (r: Self)
        ensures
            r == (Size { width: array[0], height: array[1] }),
    {
        Size { width: array[0], height: array[1] }
    }

    /// Constructor with a tuple of the width and the height.
    #[inline]
    pub fn from_tuple(tuple: (T, T)) -> (r: Self)
        ensures
            r == (Size { width: tuple.0, height: tuple.1 }),
    {
        Size { width: tuple.0, height: tuple.1 }
    }

    /// The width and the height as an array.
    #[inline]
    pub fn into_array(self) -> (r: [T; 2])
        ensures
            r == [self.width, self.height],
    {
        [self.width, self.height]
    }

    /// The width and the height as a tuple.
    #[inline]
    pub fn into_tuple(self) -> (r: (T, T))
        ensures
            r == (self.width, self.height),
    {
        (self.width, self.height)
    }
}

impl<T: Copy + Zero> Size<T> {
    /// Constructor with zero width and height.
    #[inline]
    pub fn zero() -> (r: Self)
        ensures
            r == (Size { width: T::zero_spec(), height: T::zero_spec() }),
    {
        Size { width: T::zero(), height: T::zero() }
    }
}

impl<T: Copy + PartialEq> PartialEq for Size<T> {
    fn eq(&self, other: &Self) -> (r: bool) {
        self.width == other.width && self.height == other.height
    }
}

impl<T: Copy + PartialEq> vstd::std_specs::cmp::PartialEqSpecImpl for Size<T> {
    open spec fn obeys_eq_spec() -> bool {
        T::obeys_eq_spec()
    }

    open spec fn eq_spec(&self, other: &Self) -> bool {
        self.width.eq_spec(&other.width) && self.height.eq_spec(&other.height)
    }
}

impl<T: Copy> From<[T; 2]> for Size<T> {
    #[inline]
    fn from(array: [T; 2]) -> (r: Self) {
        Size::from_array(array)
    }
}

impl<T: Copy> vstd::std_specs::convert::FromSpecImpl<[T; 2]> for Size<T> {
    open spec fn obeys_from_spec() -> bool {
        true
    }

    open spec fn from_spec(array: [T; 2]) -> Self {
        Size { width: array[0], height: array[1] }
    }
}

impl<T: Copy> From<(T, T)> for Size<T> {
    #[inline]
    fn from(tuple: (T, T)) -> (r: Self) {
        Size::from_tuple(tuple)
    }
}

impl<T: Copy> vstd::std_specs::convert::FromSpecImpl<(T, T)> for Size<T> {
    open spec fn obeys_from_spec() -> bool {
        true
    }

    open spec fn from_spec(tuple: (T, T)) -> Self {
        Size { width: tuple.0, height: tuple.1 }
    }
}

impl<T: Copy> From<Size<T>> for [T; 2] {
    #[inline]
    fn from(value: Size<T>) -> (r: Self) {
        value.into_array()
    }
}

impl<T: Copy> vstd::std_specs::convert::FromSpecImpl<Size<T>> for [T; 2] {
    open spec fn obeys_from_spec() -> bool {
        true
    }

    open spec fn from_spec(value: Size<T>) -> Self {
        [value.width, value.height]
    }
}

impl<T: Copy> From<Size<T>> for (T, T) {
    #[inline]
    fn from(value: Size<T>) -> (r: Self) {
        value.into_tuple()
    }
}

impl<T: Copy> vstd::std_specs::convert::FromSpecImpl<Size<T>> for (T, T) {
    open spec fn obeys_from_spec() -> bool {
        true
    }

    open spec fn from_spec(value: Size<T>) -> Self {
        (value.width, value.height)
    }
}

impl<T: Copy + Add<Output = T>> Add<Size<T>> for Size<T> {
    type Output = Self;

    /// Adds the other's width and height to these.
    #[inline]
    fn add(self, other: Size<T>) -> (r: Self) {
        Size { width: self.width + other.width, height: self.height + other.height }
    }
}

impl<T: Copy + Add<Output = T>> vstd::std_specs::ops::AddSpecImpl<Size<T>> for Size<T> {
    open spec fn obeys_add_spec() -> bool {
        T::obeys_add_spec()
    }

    open spec fn add_req(self, other: Size<T>) -> bool {
        self.width.add_req(other.width) && self.height.add_req(other.height)
    }

    open spec fn add_spec(self, other: Size<T>) -> Self {
        Size { width: self.width.add_spec(other.width), height: self.height.add_spec(other.height) }
    }
}

impl<T: Copy + Sub<Output = T>> Sub<Size<T>> for Size<T> {
    type Output = Self;

    /// Subtracts the other's width and height from these.
    #[inline]
    fn sub(self, other: Size<T>) -> (r: Self) {
        Size { width: self.width - other.width, height: self.height - other.height }
    }
}

impl<T: Copy + Sub<Output = T>> vstd::std_specs::ops::SubSpecImpl<Size<T>> for Size<T> {
    open spec fn obeys_sub_spec() -> bool {
        T::obeys_sub_spec()
    }

    open spec fn sub_req(self, other: Size<T>) -> bool {
        self.width.sub_req(other.width) && self.height.sub_req(other.height)
    }

    open spec fn sub_spec(self, other: Size<T>) -> Self {
        Size { width: self.width.sub_spec(other.width), height: self.height.sub_spec(other.height) }
    }
}

impl<T: Copy + Div<Output = T>> Div<T> for Size<T> {
    type Output = Self;

    /// Divides both components by the scalar.
    #[inline]
    fn div(self, other: T) -> (r: Self) {
        Size { width: self.width / other, height: self.height / other }
    }
}

impl<T: Copy + Div<Output = T>> vstd::std_specs::ops::DivSpecImpl<T> for Size<T> {
    open spec fn obeys_div_spec() -> bool {
        T::obeys_div_spec()
    }

    open spec fn div_req(self, other: T) -> bool {
        self.width.div_req(other) && self.height.div_req(other)
    }

    open spec fn div_spec(self, other: T) -> Self {
        Size { width: self.width.div_spec(other), height: self.height.div_spec(other) }
    }
}

impl<T: Copy + Neg<Output = T>> Neg for Size<T> {
    type Output = Self;

    /// Negates both components.
    #[inline]
    fn neg(self) -> (r: Self) {
        Size { width: self.width.neg(), height: self.height.neg() }
    }
}

impl<T: Copy + Neg<Output = T>> vstd::std_specs::ops::NegSpecImpl for Size<T> {
    open spec fn obeys_neg_spec() -> bool {
        T::obeys_neg_spec()
    }

    open spec fn neg_req(self) -> bool {
        self.width.neg_req() && self.height.neg_req()
    }

    open spec fn neg_spec(self) -> Self {
        Size { width: self.width.neg_spec(), height: self.height.neg_spec() }
    }
}

impl<T: Copy + PartialOrd> Size<T> {
    /// The lesser of each pair of components; `other`'s where neither is
    /// below the other.
    #[inline]
    pub fn min(self, other: Self) -> (r: Self)
        requires
            T::obeys_partial_cmp_spec(),
        ensures
            r.width == (if lt(self.width, other.width) { self.width } else { other.width }),
            r.height == (if lt(self.height, other.height) { self.height } else { other.height }),
    {
        Size {
            width: if self.width < other.width { self.width } else { other.width },
            height: if self.height < other.height { self.height } else { other.height },
        }
    }

    /// The greater of each pair of components; `other`'s where neither is
    /// above the other.
    #[inline]
    pub fn max(self, other: Self) -> (r: Self)
        requires
            T::obeys_partial_cmp_spec(),
        ensures
            r.width == (if gt(self.width, other.width) { self.width } else { other.width }),
            r.height == (if gt(self.height, other.height) { self.height } else { other.height }),
    {
        Size {
            width: if self.width > other.width { self.width } else { other.width },
            height: if self.height > other.height { self.height } else { other.height },
        }
    }

    /// Clamp the components to the range `[min, max]`.
    #[inline]
    pub fn clamp(self, min: Self, max: Self) -> (r: Self)
        requires
            T::obeys_partial_cmp_spec(),
        ensures
            r.width == clamp_scalar(self.width, min.width, max.width),
            r.height == clamp_scalar(self.height, min.height, max.height),
    {
        Size {
            width: if self.width < min.width { min.width } else if self.width > max.width { max.width } else { self.width },
            height: if self.height < min.height { min.height } else if self.height > max.height { max.height } else { self.height },
        }
    }
}

impl<T: Copy + ApproxEq> Size<T> {
    /// Check if all components are approximately equal to another's.
    #[inline]
    pub fn approx_eq(&self, other: &Self) -> (r: bool)
        ensures
            r == (self.width.approx_eq_spec(&other.width) && self.height.approx_eq_spec(&other.height)),
    {
        self.width.approx_eq(&other.width) && self.height.approx_eq(&other.height)
    }
}

impl<T: Copy + Add<Output = T>> Add<Size<T>> for Point<T> {
    type Output = Point<T>;

    /// Moves the point right by the width and down by the height.
    #[inline]
    fn add(self, other: Size<T>) -> (r: Point<T>) {
        Point { x: self.x + other.width, y: self.y + other.height }
    }
}

impl<T: Copy + Add<Output = T>> vstd::std_specs::ops::AddSpecImpl<Size<T>> for Point<T> {
    open spec fn obeys_add_spec() -> bool {
        T::obeys_add_spec()
    }

    open spec fn add_req(self, other: Size<T>) -> bool {
        self.x.add_req(other.width) && self.y.add_req(other.height)
    }

    open spec fn add_spec(self, other: Size<T>) -> Point<T> {
        Point { x: self.x.add_spec(other.width), y: self.y.add_spec(other.height) }
    }
}

impl<T: Copy + Sub<Output = T>> Sub<Size<T>> for Point<T> {
    type Output = Point<T>;

    /// Moves the point left by the width and up by the height.
    #[inline]
    fn sub(self, other: Size<T>) -> (r: Point<T>) {
        Point { x: self.x - other.width, y: self.y - other.height }
    }
}

impl<T: Copy + Sub<Output = T>> vstd::std_specs::ops::SubSpecImpl<Size<T>> for Point<T> {
    open spec fn obeys_sub_spec() -> bool {
        T::obeys_sub_spec()
    }

    open spec fn sub_req(self, other: Size<T>) -> bool {
        self.x.sub_req(other.width) && self.y.sub_req(other.height)
    }

    open spec fn sub_spec(self, other: Size<T>) -> Point<T> {
        Point { x: self.x.sub_spec(other.width), y: self.y.sub_spec(other.height) }
    }
}

impl<T: Copy> Size<T> {
    /// Get the area of the size.
    #[inline]
    pub fn area(self) -> (r: T) where T: Mul<Output = T>
        requires
            self.width.mul_req(self.height),
        ensures
            T::obeys_mul_spec() ==> r == self.width.mul_spec(self.height),
    {
        self.width * self.height
    }
}

impl<T: Real> Size<T> {
    /// Get the absolute value of both components.
    #[inline]
    pub fn abs(self) -> (r: Self)
        ensures
            r == (Size { width: self.width.abs_spec(), height: self.height.abs_spec() }),
    {
        Size { width: self.width.abs(), height: self.height.abs() }
    }

    /// Linearly interpolate between this and another, component by
    /// component.
    #[inline]
    pub fn lerp(self, other: Self, t: T) -> (r: Self)
        ensures
            r == (Size {
                width: mix(self.width, other.width, t),
                height: mix(self.height, other.height, t),
            }),
    {
        Size {
            width: lerp_scalar(self.width, other.width, t),
            height: lerp_scalar(self.height, other.height, t),
        }
    }
}

} // verus!
