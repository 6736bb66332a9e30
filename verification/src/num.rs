//! The numeric interface that the geometry is generic over.

pub mod sat_int;

use core::cmp::Ordering;
use core::ops::{Add, Div, Mul, Neg, Sub};
use vstd::prelude::*;
use vstd::std_specs::cmp::PartialOrdSpec;
use vstd::std_specs::ops::{AddSpec, DivSpec, MulSpec, NegSpec, SubSpec};

verus! {

/// A type with an additive identity.
pub trait Zero: Sized {
    /// The additive identity.
    spec fn zero_spec() -> Self;

    /// Returns the additive identity.
    fn zero() -> (r: Self)
        ensures
            r == Self::zero_spec(),
    ;
}

/// A type with a multiplicative identity.
pub trait One: Sized {
    /// The multiplicative identity.
    spec fn one_spec() -> Self;

    /// Returns the multiplicative identity.
    fn one() -> (r: Self)
        ensures
            r == Self::one_spec(),
    ;
}

/// The comparison operators of the type return what the specification of
/// its order says.
pub open spec fn comparable<T: PartialOrd>() -> bool {
    T::obeys_partial_cmp_spec()
}

/// `a` is strictly below `b`.
pub open spec fn lt<T: PartialOrd>(a: T, b: T) -> bool {
    a.partial_cmp_spec(&b) == Some(Ordering::Less)
}

/// `a` is strictly above `b`.
pub open spec fn gt<T: PartialOrd>(a: T, b: T) -> bool {
    a.partial_cmp_spec(&b) == Some(Ordering::Greater)
}

/// `a` is below `b` or ranks equal to it.
pub open spec fn le<T: PartialOrd>(a: T, b: T) -> bool {
    a.partial_cmp_spec(&b) == Some(Ordering::Less) || a.partial_cmp_spec(&b) == Some(
        Ordering::Equal,
    )
}

/// Every pair of scalars can be added, subtracted, multiplied, divided and
/// negated, and the operators return what their specifications say.
pub open spec fn total_arithmetic<
    T: Add<Output = T> + Sub<Output = T> + Mul<Output = T> + Div<Output = T> + Neg<Output = T>,
>() -> bool {
    &&& T::obeys_add_spec()
    &&& T::obeys_sub_spec()
    &&& T::obeys_mul_spec()
    &&& T::obeys_div_spec()
    &&& T::obeys_neg_spec()
    &&& forall|a: T, b: T| #[trigger] a.add_req(b)
    &&& forall|a: T, b: T| #[trigger] a.sub_req(b)
    &&& forall|a: T, b: T| #[trigger] a.mul_req(b)
    &&& forall|a: T, b: T| #[trigger] a.div_req(b)
    &&& forall|a: T| #[trigger] a.neg_req()
}

/// The comparison is a total preorder: any two scalars are comparable, and
/// `le` is transitive.
pub open spec fn total_order<T: PartialOrd>() -> bool {
    &&& T::obeys_partial_cmp_spec()
    &&& forall|a: T, b: T| (#[trigger] a.partial_cmp_spec(&b)).is_some()
    &&& forall|a: T, b: T|
        a.partial_cmp_spec(&b) == Some(Ordering::Greater) <==> #[trigger] b.partial_cmp_spec(&a)
            == Some(Ordering::Less)
    &&& forall|a: T, b: T|
        a.partial_cmp_spec(&b) == Some(Ordering::Equal) ==> #[trigger] b.partial_cmp_spec(&a)
            == Some(Ordering::Equal)
    &&& forall|a: T| #[trigger] a.partial_cmp_spec(&a) == Some(Ordering::Equal)
    &&& forall|a: T, b: T, c: T| #[trigger] le(a, b) && #[trigger] le(b, c) ==> le(a, c)
}

/// A totally ordered scalar with the field operations, an absolute value
/// and a square root.
///
/// The operators are total: no pair of operands is refused.
pub trait Real:
    Copy + PartialOrd + Zero + One + Add<Output = Self> + Sub<Output = Self> + Mul<
    Output = Self,
> + Div<Output = Self> + Neg<Output = Self> {
    /// The tolerance below which a determinant counts as zero.
    spec fn epsilon_spec() -> Self;

    /// The least value of the type.
    spec fn min_value_spec() -> Self;

    /// The greatest value of the type.
    spec fn max_value_spec() -> Self;

    /// The absolute value.
    spec fn abs_spec(self) -> Self;

    /// The square root.
    spec fn sqrt_spec(self) -> Self;

    /// Returns the tolerance below which a determinant counts as zero.
    fn epsilon() -> (r: Self)
        ensures
            r == Self::epsilon_spec(),
    ;

    /// Returns the least value of the type.
    fn min_value() -> (r: Self)
        ensures
            r == Self::min_value_spec(),
    ;

    /// Returns the greatest value of the type.
    fn max_value() -> (r: Self)
        ensures
            r == Self::max_value_spec(),
    ;

    /// Returns the absolute value of the number.
    fn abs(self) -> (r: Self)
        ensures
            r == self.abs_spec(),
    ;

    /// Returns the square root of the number.
    fn sqrt(self) -> (r: Self)
        ensures
            r == self.sqrt_spec(),
    ;

    /// The operators are total and the order is a total preorder.
    proof fn lemma_laws()
        ensures
            total_arithmetic::<Self>(),
            total_order::<Self>(),
    ;
}

/// `a` and `b` rank equal.
pub open spec fn same_rank<T: PartialOrd>(a: T, b: T) -> bool {
    a.partial_cmp_spec(&b) == Some(Ordering::Equal)
}

/// What the laws of the scalar say of the order of three of its values:
/// of two values exactly one is below the other or they rank equal, and
/// both "below" and "ranks equal" carry over from one pair to the next.
pub proof fn lemma_scalar_order<T: Real>(a: T, b: T, c: T)
    ensures
        lt(a, b) || same_rank(a, b) || lt(b, a),
        !(lt(a, b) && lt(b, a)),
        !(lt(a, b) && same_rank(a, b)),
        same_rank(a, b) == same_rank(b, a),
        same_rank(a, a),
        lt(a, b) == gt(b, a),
        lt(a, b) && lt(b, c) ==> lt(a, c),
        lt(a, b) && same_rank(b, c) ==> lt(a, c),
        same_rank(a, b) && lt(b, c) ==> lt(a, c),
        same_rank(a, b) && same_rank(b, c) ==> same_rank(a, c),
{
    T::lemma_laws();
    assert(a.partial_cmp_spec(&b).is_some());
    assert(b.partial_cmp_spec(&a).is_some());
    assert(b.partial_cmp_spec(&c).is_some());
    assert(c.partial_cmp_spec(&b).is_some());
    assert(a.partial_cmp_spec(&c).is_some());
    assert(c.partial_cmp_spec(&a).is_some());
    assert(a.partial_cmp_spec(&a) == Some(Ordering::Equal));
    let o = a.partial_cmp_spec(&b).unwrap();
    assert(o == Ordering::Less || o == Ordering::Equal || o == Ordering::Greater);
    assert(a.partial_cmp_spec(&b) == Some(Ordering::Greater) <==> b.partial_cmp_spec(&a) == Some(
        Ordering::Less,
    ));
    assert(le(a, b) && le(b, c) ==> le(a, c));
    assert(le(b, c) && le(c, a) ==> le(b, a));
    assert(le(c, a) && le(a, b) ==> le(c, b));
    assert(le(c, b) && le(b, a) ==> le(c, a));
}


/// The value between `a` and `b` at `t`: `a * (1 - t) + b * t`.
pub open spec fn mix<T: Real>(a: T, b: T, t: T) -> T {
    a.mul_spec(T::one_spec().sub_spec(t)).add_spec(b.mul_spec(t))
}


/// Linearly interpolate between two scalars.
pub fn lerp_scalar<T: Real>(a: T, b: T, t: T) -> (r: T)
    ensures
        r == mix(a, b, t),
{
    proof {
        T::lemma_laws();
    }
    let one_t = T::one() - t;
    a * one_t + b * t
}


impl Zero for i8 {
    open spec fn zero_spec() -> Self {
        0
    }

    #[inline]
    fn zero() -> (r: Self) {
        0
    }
}

impl One for i8 {
    open spec fn one_spec() -> Self {
        1
    }

    #[inline]
    fn one() -> (r: Self) {
        1
    }
}

impl Zero for i16 {
    open spec fn zero_spec() -> Self {
        0
    }

    #[inline]
    fn zero() -> (r: Self) {
        0
    }
}

impl One for i16 {
    open spec fn one_spec() -> Self {
        1
    }

    #[inline]
    fn one() -> (r: Self) {
        1
    }
}

impl Zero for i32 {
    open spec fn zero_spec() -> Self {
        0
    }

    #[inline]
    fn zero() -> (r: Self) {
        0
    }
}

impl One for i32 {
    open spec fn one_spec() -> Self {
        1
    }

    #[inline]
    fn one() -> (r: Self) {
        1
    }
}

impl Zero for i64 {
    open spec fn zero_spec() -> Self {
        0
    }

    #[inline]
    fn zero() -> (r: Self) {
        0
    }
}

impl One for i64 {
    open spec fn one_spec() -> Self {
        1
    }

    #[inline]
    fn one() -> (r: Self) {
        1
    }
}

impl Zero for isize {
    open spec fn zero_spec() -> Self {
        0
    }

    #[inline]
    fn zero() -> (r: Self) {
        0
    }
}

impl One for isize {
    open spec fn one_spec() -> Self {
        1
    }

    #[inline]
    fn one() -> (r: Self) {
        1
    }
}

impl Zero for u8 {
    open spec fn zero_spec() -> Self {
        0
    }

    #[inline]
    fn zero() -> (r: Self) {
        0
    }
}

impl One for u8 {
    open spec fn one_spec() -> Self {
        1
    }

    #[inline]
    fn one() -> (r: Self) {
        1
    }
}

impl Zero for u16 {
    open spec fn zero_spec() -> Self {
        0
    }

    #[inline]
    fn zero() -> (r: Self) {
        0
    }
}

impl One for u16 {
    open spec fn one_spec() -> Self {
        1
    }

    #[inline]
    fn one() -> (r: Self) {
        1
    }
}

impl Zero for u32 {
    open spec fn zero_spec() -> Self {
        0
    }

    #[inline]
    fn zero() -> (r: Self) {
        0
    }
}

impl One for u32 {
    open spec fn one_spec() -> Self {
        1
    }

    #[inline]
    fn one() -> (r: Self) {
        1
    }
}

impl Zero for u64 {
    open spec fn zero_spec() -> Self {
        0
    }

    #[inline]
    fn zero() -> (r: Self) {
        0
    }
}

impl One for u64 {
    open spec fn one_spec() -> Self {
        1
    }

    #[inline]
    fn one() -> (r: Self) {
        1
    }
}

impl Zero for usize {
    open spec fn zero_spec() -> Self {
        0
    }

    #[inline]
    fn zero() -> (r: Self) {
        0
    }
}

impl One for usize {
    open spec fn one_spec() -> Self {
        1
    }

    #[inline]
    fn one() -> (r: Self) {
        1
    }
}

} // verus!
