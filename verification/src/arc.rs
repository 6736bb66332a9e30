//! A geometric arc.

use crate::angle::Angle;
use crate::point::Point;
use core::ops::{Add, Rem};
use vstd::prelude::*;
use vstd::std_specs::ops::{AddSpec, RemSpec};

verus! {

/// A geometric arc: the part of a circle between two angles.
#[derive(Debug)]
pub struct Arc<T: Copy> {
    /// The center of the circle.
    pub center: Point<T>,
    /// The radius of the circle.
    pub radius: T,
    /// The angle at which the arc starts.
    pub start_angle: Angle<T>,
    /// The angle at which the arc ends.
    pub end_angle: Angle<T>,
}

impl<T: Copy> Clone for Arc<T> {
    fn clone(&self) -> (r: Self)
        ensures
            r == *self,
    {
        *self
    }
}

impl<T: Copy> Copy for Arc<T> {

}

/// The walk along the path of an arc.
pub struct ArcPathIter<T: Copy> {
    /// The arc that is walked along.
    pub arc: Arc<T>,
}

impl<T: Copy> Arc<T> {
    /// Create a new arc.
    pub fn new(center: Point<T>, radius: T, start_angle: Angle<T>, end_angle: Angle<T>) -> (r:
        Self)
        ensures
            r == (Arc { center, radius, start_angle, end_angle }),
    {
        Arc { center, radius, start_angle, end_angle }
    }

    /// Get the center of the arc.
    pub fn center(self) -> (r: Point<T>)
        ensures
            r == self.center,
    {
        self.center
    }

    /// Get the radius of the arc.
    pub fn radius(self) -> (r: T)
        ensures
            r == self.radius,
    {
        self.radius
    }

    /// Get the start angle of the arc.
    pub fn start_angle(self) -> (r: Angle<T>)
        ensures
            r == self.start_angle,
    {
        self.start_angle
    }

    /// Get the end angle of the arc.
    pub fn end_angle(self) -> (r: Angle<T>)
        ensures
            r == self.end_angle,
    {
        self.end_angle
    }

    /// The walk along the path of this arc.
    pub fn path_iter(self) -> (r: ArcPathIter<T>)
        ensures
            r.arc == self,
    {
        ArcPathIter { arc: self }
    }
}

impl<T: Copy + Add<Output = T> + Rem<Output = T>> Arc<T> {
    /// Reverse the direction of the arc, where `full_circle` is a full
    /// turn: the arc starts where it ended, and ends at its start angle,
    /// moved on by a full turn and reduced by full turns.
    pub fn reverse(self, full_circle: T) -> (r: Self)
        requires
            T::obeys_add_spec(),
            self.start_angle.radians.add_req(full_circle),
            self.start_angle.radians.add_spec(full_circle).rem_req(full_circle),
        ensures
            T::obeys_rem_spec() ==> r == (Arc {
                center: self.center,
                radius: self.radius,
                start_angle: self.end_angle,
                end_angle: Angle {
                    radians: self.start_angle.radians.add_spec(full_circle).rem_spec(full_circle),
                },
            }),
    {
        Arc {
            center: self.center,
            radius: self.radius,
            start_angle: self.end_angle,
            end_angle: Angle::from_radians(
                (self.start_angle().radians() + full_circle) % full_circle,
            ),
        }
    }
}

} // verus!
