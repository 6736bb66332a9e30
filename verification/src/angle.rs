//! Angles, kept in radians.

use crate::num::{lt, Zero};
use core::ops::{Add, Div, Mul, Neg, Rem, Sub};
use vstd::prelude::*;
use vstd::std_specs::ops::{AddSpec, DivSpec, MulSpec, NegSpec, RemSpec, SubSpec};

verus! {

/// An angle, in radians.
#[derive(Debug)]
pub struct Angle<T> {
    /// The angle in radians.
    pub radians: T,
}

impl<T: Copy> Clone for Angle<T> {
    fn clone(&self) -> (r: Self)
        ensures
            r == *self,
    {
        *self
    }
}

impl<T: Copy> Copy for Angle<T> {

}

impl<T> Angle<T> {
    /// Create a new angle from radians.
    pub fn from_radians(radians: T) -> (r: Self)
        ensures
            r.radians == radians,
    {
        Angle { radians }
    }

    /// Get the angle in radians.
    pub fn radians(self) -> (r: T)
        ensures
            r == self.radians,
    {
        self.radians
    }
}

/// The angle between zero and a full turn that `radians` stands for, where
/// `pi` is half a turn: the remainder of `radians` by the full turn, plus a
/// full turn where the remainder is below zero.
pub open spec fn wound<T: Rem<Output = T> + Add<Output = T> + Zero + PartialOrd + Copy>(
    radians: T,
    pi: T,
) -> T {
    let two_pi = pi.add_spec(pi);
    let rest = radians.rem_spec(two_pi);
    if lt(rest, T::zero_spec()) {
        rest.add_spec(two_pi)
    } else {
        rest
    }
}

impl<T> Angle<T> where
    T: Rem<Output = T> + Sub<Output = T> + Add<Output = T> + Zero + PartialOrd + Copy,
 {
    /// Convert this angle to the same angle between zero and a full turn,
    /// where `pi` is half a turn.
    pub fn positive(self, pi: T) -> (r: Self)
        requires
            T::obeys_add_spec(),
            T::obeys_rem_spec(),
            crate::num::comparable::<T>(),
            pi.add_req(pi),
            self.radians.rem_req(pi.add_spec(pi)),
            lt(self.radians.rem_spec(pi.add_spec(pi)), T::zero_spec())
                ==> self.radians.rem_spec(pi.add_spec(pi)).add_req(pi.add_spec(pi)),
        ensures
            r.radians == wound(self.radians, pi),
    {
        let two_pi = pi + pi;
        let mut angle = self.radians % two_pi;

        // If the angle is negative, add 2*pi to it.
        if angle < T::zero() {
            angle = angle + two_pi;
        }
        Angle::from_radians(angle)
    }
}

impl<T: Add<Output = T>> Add for Angle<T> {
    type Output = Self;

    /// The sum of the two angles.
    fn add(self, rhs: Self) -> (r: Self) {
        Angle { radians: self.radians + rhs.radians }
    }
}

impl<T: Add<Output = T>> vstd::std_specs::ops::AddSpecImpl for Angle<T> {
    open spec fn obeys_add_spec() -> bool {
        T::obeys_add_spec()
    }

    open spec fn add_req(self, rhs: Self) -> bool {
        self.radians.add_req(rhs.radians)
    }

    open spec fn add_spec(self, rhs: Self) -> Self {
        Angle { radians: self.radians.add_spec(rhs.radians) }
    }
}

impl<T: Sub<Output = T>> Sub for Angle<T> {
    type Output = Self;

    /// The difference of the two angles.
    fn sub(self, rhs: Self) -> (r: Self) {
        Angle { radians: self.radians - rhs.radians }
    }
}

impl<T: Sub<Output = T>> vstd::std_specs::ops::SubSpecImpl for Angle<T> {
    open spec fn obeys_sub_spec() -> bool {
        T::obeys_sub_spec()
    }

    open spec fn sub_req(self, rhs: Self) -> bool {
        self.radians.sub_req(rhs.radians)
    }

    open spec fn sub_spec(self, rhs: Self) -> Self {
        Angle { radians: self.radians.sub_spec(rhs.radians) }
    }
}

impl<T: Mul<Output = T>> Mul for Angle<T> {
    type Output = Self;

    /// The product of the two angles.
    fn mul(self, rhs: Self) -> (r: Self) {
        Angle { radians: self.radians * rhs.radians }
    }
}

impl<T: Mul<Output = T>> vstd::std_specs::ops::MulSpecImpl for Angle<T> {
    open spec fn obeys_mul_spec() -> bool {
        T::obeys_mul_spec()
    }

    open spec fn mul_req(self, rhs: Self) -> bool {
        self.radians.mul_req(rhs.radians)
    }

    open spec fn mul_spec(self, rhs: Self) -> Self {
        Angle { radians: self.radians.mul_spec(rhs.radians) }
    }
}

impl<T: Div<Output = T>> Div for Angle<T> {
    type Output = Self;

    /// The quotient of the two angles.
    fn div(self, rhs: Self) -> (r: Self) {
        Angle { radians: self.radians / rhs.radians }
    }
}

impl<T: Div<Output = T>> vstd::std_specs::ops::DivSpecImpl for Angle<T> {
    open spec fn obeys_div_spec() -> bool {
        T::obeys_div_spec()
    }

    open spec fn div_req(self, rhs: Self) -> bool {
        self.radians.div_req(rhs.radians)
    }

    open spec fn div_spec(self, rhs: Self) -> Self {
        Angle { radians: self.radians.div_spec(rhs.radians) }
    }
}

impl<T: Neg<Output = T>> Neg for Angle<T> {
    type Output = Self;

    /// The angle turned the other way.
    fn neg(self) -> (r: Self) {
        Angle { radians: self.radians.neg() }
    }
}

impl<T: Neg<Output = T>> vstd::std_specs::ops::NegSpecImpl for Angle<T> {
    open spec fn obeys_neg_spec() -> bool {
        T::obeys_neg_spec()
    }

    open spec fn neg_req(self) -> bool {
        self.radians.neg_req()
    }

    open spec fn neg_spec(self) -> Self {
        Angle { radians: self.radians.neg_spec() }
    }
}

} // verus!
