//! A scalar of whole numbers whose arithmetic saturates.

use super::{total_arithmetic, total_order, One, Real, Zero};
use crate::ApproxEq;
use core::cmp::Ordering;
use core::ops::{Add, Div, Mul, Neg, Sub};
use vstd::prelude::*;

verus! {

/// A whole number between `i64::MIN` and `i64::MAX`.
///
/// Sums, differences and products that leave this range take its nearest
/// end. A quotient is rounded towards zero; dividing by zero gives the end
/// of the range on the side of the dividend, and zero for zero. The square
/// root is rounded down, and that of a negative number is zero.
#[derive(Debug)]
pub struct SatInt {
    /// The number.
    pub value: i64,
}

impl Clone for SatInt {
    fn clone(&self) -> (r: Self)
        ensures
            r == *self,
    {
        *self
    }
}

impl Copy for SatInt {

}

/// The number of the range of `i64` that is nearest to `n`.
pub open spec fn saturated(n: int) -> i64 {
    if n < i64::MIN {
        i64::MIN
    } else if n > i64::MAX {
        i64::MAX
    } else {
        n as i64
    }
}

/// The absolute value of `n`.
pub open spec fn magnitude(n: int) -> int {
    if n < 0 {
        -n
    } else {
        n
    }
}

/// The quotient of `a` by `b`, rounded towards zero. Division by zero
/// gives a number beyond the range of `i64` on the side of `a`, and zero
/// for zero.
pub open spec fn quotient(a: int, b: int) -> int {
    if b == 0 {
        if a > 0 {
            i64::MAX + 1
        } else if a < 0 {
            i64::MIN - 1
        } else {
            0
        }
    } else if (a < 0) == (b < 0) {
        magnitude(a) / magnitude(b)
    } else {
        -(magnitude(a) / magnitude(b))
    }
}

/// `r` is the square root of `n`, rounded down.
pub open spec fn is_root(n: int, r: int) -> bool {
    0 <= r && r * r <= n < (r + 1) * (r + 1)
}

/// The square root of `n`, rounded down; zero for a negative number.
pub open spec fn root(n: int) -> int {
    if n < 0 {
        0
    } else {
        choose|r: int| is_root(n, r)
    }
}

/// A number has no more than one square root.
pub proof fn lemma_root_is_unique(n: int, r: int, s: int)
    requires
        is_root(n, r),
        is_root(n, s),
    ensures
        r == s,
{
    if r < s {
        assert((r + 1) * (r + 1) <= s * s) by (nonlinear_arith)
            requires
                0 <= r + 1 <= s,
        ;
    } else if s < r {
        assert((s + 1) * (s + 1) <= r * r) by (nonlinear_arith)
            requires
                0 <= s + 1 <= r,
        ;
    }
}

/// The number of the range of `i64` that is nearest to `n`.
pub fn saturate(n: i128) -> (r: i64)
    ensures
        r == saturated(n as int),
{
    if n < i64::MIN as i128 {
        i64::MIN
    } else if n > i64::MAX as i128 {
        i64::MAX
    } else {
        n as i64
    }
}

/// The absolute value of `n`.
pub fn magnitude_of(n: i64) -> (r: u64)
    ensures
        r == magnitude(n as int),
{
    if n < 0 {
        if n == i64::MIN {
            9223372036854775808u64
        } else {
            (-n) as u64
        }
    } else {
        n as u64
    }
}

/// The square root of `n`, rounded down.
pub fn root_of(n: u64) -> (r: u64)
    ensures
        is_root(n as int, r as int),
{
    let mut lo: u64 = 0;
    let mut hi: u64 = 4294967296;
    assert(4294967296 * 4294967296 > u64::MAX) by (nonlinear_arith);
    while hi - lo > 1
        invariant
            0 <= lo < hi <= 4294967296,
            lo * lo <= n < hi * hi,
        decreases hi - lo,
    {
        let mid = lo + (hi - lo) / 2;
        assert(mid * mid <= 4294967295 * 4294967295) by (nonlinear_arith)
            requires
                0 <= mid <= 4294967295,
        ;
        if mid * mid <= n {
            lo = mid;
        } else {
            hi = mid;
        }
    }
    lo
}

impl SatInt {
    /// The scalar of the given number.
    pub fn new(value: i64) -> (r: Self)
        ensures
            r.value == value,
    {
        SatInt { value }
    }

    /// The number of the scalar.
    pub fn value(self) -> (r: i64)
        ensures
            r == self.value,
    {
        self.value
    }
}

impl Add for SatInt {
    type Output = SatInt;

    fn add(self, rhs: SatInt) -> (r: SatInt) {
        SatInt { value: saturate(self.value as i128 + rhs.value as i128) }
    }
}

impl vstd::std_specs::ops::AddSpecImpl for SatInt {
    open spec fn obeys_add_spec() -> bool {
        true
    }

    open spec fn add_req(self, rhs: SatInt) -> bool {
        true
    }

    open spec fn add_spec(self, rhs: SatInt) -> SatInt {
        SatInt { value: saturated(self.value + rhs.value) }
    }
}

impl Sub for SatInt {
    type Output = SatInt;

    fn sub(self, rhs: SatInt) -> (r: SatInt) {
        SatInt { value: saturate(self.value as i128 - rhs.value as i128) }
    }
}

impl vstd::std_specs::ops::SubSpecImpl for SatInt {
    open spec fn obeys_sub_spec() -> bool {
        true
    }

    open spec fn sub_req(self, rhs: SatInt) -> bool {
        true
    }

    open spec fn sub_spec(self, rhs: SatInt) -> SatInt {
        SatInt { value: saturated(self.value - rhs.value) }
    }
}

impl Mul for SatInt {
    type Output = SatInt;

    fn mul(self, rhs: SatInt) -> (r: SatInt) {
        let a = self.value as i128;
        let b = rhs.value as i128;
        assert(-0x4000_0000_0000_0000_0000_0000_0000_0000 <= a * b
            <= 0x4000_0000_0000_0000_0000_0000_0000_0000) by (nonlinear_arith)
            requires
                -0x8000_0000_0000_0000 <= a <= 0x7fff_ffff_ffff_ffff,
                -0x8000_0000_0000_0000 <= b <= 0x7fff_ffff_ffff_ffff,
        ;
        SatInt { value: saturate(a * b) }
    }
}

impl vstd::std_specs::ops::MulSpecImpl for SatInt {
    open spec fn obeys_mul_spec() -> bool {
        true
    }

    open spec fn mul_req(self, rhs: SatInt) -> bool {
        true
    }

    open spec fn mul_spec(self, rhs: SatInt) -> SatInt {
        SatInt { value: saturated(self.value * rhs.value) }
    }
}

impl Div for SatInt {
    type Output = SatInt;

    fn div(self, rhs: SatInt) -> (r: SatInt) {
        if rhs.value == 0 {
            if self.value > 0 {
                SatInt { value: i64::MAX }
            } else if self.value < 0 {
                SatInt { value: i64::MIN }
            } else {
                SatInt { value: 0 }
            }
        } else {
            let q = (magnitude_of(self.value) / magnitude_of(rhs.value)) as i128;
            if (self.value < 0) == (rhs.value < 0) {
                SatInt { value: saturate(q) }
            } else {
                SatInt { value: saturate(-q) }
            }
        }
    }
}

impl vstd::std_specs::ops::DivSpecImpl for SatInt {
    open spec fn obeys_div_spec() -> bool {
        true
    }

    open spec fn div_req(self, rhs: SatInt) -> bool {
        true
    }

    open spec fn div_spec(self, rhs: SatInt) -> SatInt {
        SatInt { value: saturated(quotient(self.value as int, rhs.value as int)) }
    }
}

impl Neg for SatInt {
    type Output = SatInt;

    fn neg(self) -> (r: SatInt) {
        SatInt { value: saturate(-(self.value as i128)) }
    }
}

impl vstd::std_specs::ops::NegSpecImpl for SatInt {
    open spec fn obeys_neg_spec() -> bool {
        true
    }

    open spec fn neg_req(self) -> bool {
        true
    }

    open spec fn neg_spec(self) -> SatInt {
        SatInt { value: saturated(-self.value) }
    }
}

impl PartialEq for SatInt {
    fn eq(&self, other: &Self) -> (r: bool) {
        self.value == other.value
    }
}

impl vstd::std_specs::cmp::PartialEqSpecImpl for SatInt {
    open spec fn obeys_eq_spec() -> bool {
        true
    }

    open spec fn eq_spec(&self, other: &Self) -> bool {
        self.value == other.value
    }
}

impl PartialOrd for SatInt {
    fn partial_cmp(&self, other: &Self) -> (r: Option<Ordering>) {
        if self.value < other.value {
            Some(Ordering::Less)
        } else if self.value > other.value {
            Some(Ordering::Greater)
        } else {
            Some(Ordering::Equal)
        }
    }
}

impl vstd::std_specs::cmp::PartialOrdSpecImpl for SatInt {
    open spec fn obeys_partial_cmp_spec() -> bool {
        true
    }

    open spec fn partial_cmp_spec(&self, other: &Self) -> Option<Ordering> {
        if self.value < other.value {
            Some(Ordering::Less)
        } else if self.value > other.value {
            Some(Ordering::Greater)
        } else {
            Some(Ordering::Equal)
        }
    }
}

impl Zero for SatInt {
    open spec fn zero_spec() -> Self {
        SatInt { value: 0 }
    }

    fn zero() -> (r: Self) {
        SatInt { value: 0 }
    }
}

impl One for SatInt {
    open spec fn one_spec() -> Self {
        SatInt { value: 1 }
    }

    fn one() -> (r: Self) {
        SatInt { value: 1 }
    }
}

impl ApproxEq for SatInt {
    open spec fn approx_eq_spec(&self, other: &Self) -> bool {
        self.value == other.value
    }

    fn approx_eq(&self, other: &Self) -> (r: bool) {
        self.value == other.value
    }
}

impl Real for SatInt {
    open spec fn epsilon_spec() -> Self {
        SatInt { value: 0 }
    }

    open spec fn min_value_spec() -> Self {
        SatInt { value: i64::MIN }
    }

    open spec fn max_value_spec() -> Self {
        SatInt { value: i64::MAX }
    }

    open spec fn abs_spec(self) -> Self {
        SatInt { value: saturated(magnitude(self.value as int)) }
    }

    open spec fn sqrt_spec(self) -> Self {
        SatInt { value: saturated(root(self.value as int)) }
    }

    fn epsilon() -> (r: Self) {
        SatInt { value: 0 }
    }

    fn min_value() -> (r: Self) {
        SatInt { value: i64::MIN }
    }

    fn max_value() -> (r: Self) {
        SatInt { value: i64::MAX }
    }

    fn abs(self) -> (r: Self) {
        let m = magnitude_of(self.value);
        if m > 9223372036854775807u64 {
            SatInt { value: i64::MAX }
        } else {
            SatInt { value: m as i64 }
        }
    }

    fn sqrt(self) -> (r: Self) {
        if self.value < 0 {
            SatInt { value: 0 }
        } else {
            let found = root_of(self.value as u64);
            proof {
                let n = self.value as int;
                lemma_root_is_unique(n, found as int, root(n));
                assert(found * found <= n);
                assert(found <= n) by (nonlinear_arith)
                    requires
                        found * found <= n,
                        0 <= found,
                ;
            }
            SatInt { value: found as i64 }
        }
    }

    proof fn lemma_laws() {
        assert(total_arithmetic::<SatInt>());
        assert(total_order::<SatInt>());
    }
}

} // verus!
