//! Axis-aligned boxes.

use crate::num::{comparable, gt, lerp_scalar, lt, mix, Real, Zero};
use crate::point::{Point, Vector};
use crate::rect::Rect;
use crate::size::Size;
use crate::triangle::Triangle;
use core::cmp::Ordering;
use core::ops::{Add, Mul, Range, Sub};
use vstd::std_specs::ops::DivSpec;
use vstd::prelude::*;
use vstd::std_specs::cmp::PartialOrdSpec;
use vstd::std_specs::ops::{AddSpec, MulSpec, SubSpec};

verus! {

/// A two-dimensional axis-aligned box, given by its least and its greatest
/// corner.
#[derive(Debug)]
pub struct Box<T: Copy> {
    /// The corner with the least coordinates.
    pub min: Point<T>,
    /// The corner with the greatest coordinates.
    pub max: Point<T>,
}

impl<T: Copy> Clone for Box<T> {
    fn clone(&self) -> (r: Self)
        ensures
            r == *self,
    {
        *self
    }
}

impl<T: Copy> Copy for Box<T> {

}

/// How the point `a` compares with `b`: by the X coordinates, and by the Y
/// coordinates where those rank equal.
pub open spec fn point_order<T: Copy + PartialOrd>(a: Point<T>, b: Point<T>) -> Option<Ordering> {
    if a.x.partial_cmp_spec(&b.x) == Some(Ordering::Equal) {
        a.y.partial_cmp_spec(&b.y)
    } else {
        a.x.partial_cmp_spec(&b.x)
    }
}

/// Compares two points by their X coordinates, and by their Y coordinates
/// where those rank equal.
pub fn compare_points<T: Copy + PartialOrd>(a: Point<T>, b: Point<T>) -> (r: Option<Ordering>)
    requires
        T::obeys_partial_cmp_spec(),
    ensures
        r == point_order(a, b),
{
    match a.x.partial_cmp(&b.x) {
        Some(Ordering::Equal) => a.y.partial_cmp(&b.y),
        other => other,
    }
}

/// The lesser of two scalars; `b` where neither is below the other.
pub open spec fn lesser<T: PartialOrd>(a: T, b: T) -> T {
    if lt(a, b) {
        a
    } else {
        b
    }
}

/// The greater of two scalars; `b` where neither is above the other.
pub open spec fn greater<T: PartialOrd>(a: T, b: T) -> T {
    if gt(a, b) {
        a
    } else {
        b
    }
}

impl<T: Copy> Box<T> {
    /// Get the minimum point of the box.
    pub fn min(&self) -> (r: Point<T>)
        ensures
            r == self.min,
    {
        self.min
    }

    /// Get the maximum point of the box.
    pub fn max(&self) -> (r: Point<T>)
        ensures
            r == self.max,
    {
        self.max
    }

    /// The corner with the least X and the greatest Y coordinate.
    pub fn bottom_right(&self) -> (r: Point<T>)
        ensures
            r == (Point { x: self.min.x, y: self.max.y }),
    {
        Point::new(self.min.x, self.max.y)
    }

    /// The corner with the greatest X and the least Y coordinate.
    pub fn top_left(&self) -> (r: Point<T>)
        ensures
            r == (Point { x: self.max.x, y: self.min.y }),
    {
        Point::new(self.max.x, self.min.y)
    }

    /// Get the minimum and maximum points of the box.
    pub fn min_max(&self) -> (r: (Point<T>, Point<T>))
        ensures
            r == (self.min, self.max),
    {
        (self.min, self.max)
    }

    /// Create a new box from the minimum and maximum points.
    pub fn new(min: Point<T>, max: Point<T>) -> (r: Self)
        ensures
            r == (Box { min, max }),
    {
        Box { min, max }
    }

    /// Create a new box from an origin point and a size.
    pub fn from_origin_and_size(origin: Point<T>, size: Size<T>) -> (r: Self) where
        T: Add<Output = T>,

        requires
            origin.x.add_req(size.width),
            origin.y.add_req(size.height),
        ensures
            T::obeys_add_spec() ==> r == (Box {
                min: origin,
                max: Point { x: origin.x.add_spec(size.width), y: origin.y.add_spec(size.height) },
            }),
    {
        let max = origin + size;
        Self::new(origin, max)
    }

    /// Create a new box from a size, with its least corner at zero.
    pub fn from_size(size: Size<T>) -> (r: Self) where T: Zero
        ensures
            r == (Box {
                min: Point { x: T::zero_spec(), y: T::zero_spec() },
                max: Point { x: size.width, y: size.height },
            }),
    {
        Self::new(Point::zero(), Point::new(size.width, size.height))
    }

    /// Create a new box with all four coordinates zero.
    pub fn zero() -> (r: Self) where T: Zero
        ensures
            r == (Box {
                min: Point { x: T::zero_spec(), y: T::zero_spec() },
                max: Point { x: T::zero_spec(), y: T::zero_spec() },
            }),
    {
        Self::new(Point::zero(), Point::zero())
    }
}

impl<T: Copy + PartialOrd> Box<T> {
    /// Is the box negative: does its least corner rank above its greatest?
    pub fn is_negative(&self) -> (r: bool)
        requires
            T::obeys_partial_cmp_spec(),
        ensures
            r == (point_order(self.min, self.max) == Some(Ordering::Greater)),
    {
        match compare_points(self.min, self.max) {
            Some(Ordering::Greater) => true,
            _ => false,
        }
    }

    /// Is the box empty: does its least corner rank no lower than its
    /// greatest?
    pub fn is_empty(&self) -> (r: bool)
        requires
            T::obeys_partial_cmp_spec(),
        ensures
            r == (point_order(self.min, self.max) == Some(Ordering::Greater) || point_order(
                self.min,
                self.max,
            ) == Some(Ordering::Equal)),
    {
        match compare_points(self.min, self.max) {
            Some(Ordering::Greater) => true,
            Some(Ordering::Equal) => true,
            _ => false,
        }
    }

    /// What `contains` decides: no coordinate of the least corner is below
    /// the point's, and both coordinates of the greatest corner are.
    pub open spec fn holds(&self, point: Point<T>) -> bool {
        &&& !lt(self.min.x, point.x)
        &&& !lt(self.min.y, point.y)
        &&& lt(self.max.x, point.x)
        &&& lt(self.max.y, point.y)
    }

    /// Tests the corners of the box against a point.
    pub fn contains(&self, point: &Point<T>) -> (r: bool)
        requires
            T::obeys_partial_cmp_spec(),
        ensures
            r == self.holds(*point),
    {
        !(self.min.x < point.x) && !(self.min.y < point.y) && self.max.x < point.x && self.max.y
            < point.y
    }

    /// Does this box intersect another box: is every least coordinate of
    /// each below the greatest coordinate of the other?
    pub fn intersects(&self, other: &Self) -> (r: bool)
        requires
            T::obeys_partial_cmp_spec(),
        ensures
            r == (lt(self.min.x, other.max.x) && lt(self.min.y, other.max.y) && lt(
                other.min.x,
                self.max.x,
            ) && lt(other.min.y, self.max.y)),
    {
        // To intersect, all of the mins have to be less than all of the maxes.
        self.min.x < other.max.x && self.min.y < other.max.y && other.min.x < self.max.x
            && other.min.y < self.max.y
    }

    /// Does this box contain another box? An empty box is contained in
    /// every box.
    pub fn contains_box(&self, other: &Self) -> (r: bool)
        requires
            T::obeys_partial_cmp_spec(),
        ensures
            r == (point_order(other.min, other.max) == Some(Ordering::Greater) || point_order(
                other.min,
                other.max,
            ) == Some(Ordering::Equal) || (self.holds(other.min) && self.holds(other.max))),
    {
        other.is_empty() || (self.contains(&other.min()) && self.contains(&other.max()))
    }

    /// Get the intersection of two boxes: the greater of the least corners
    /// and the lesser of the greatest.
    pub fn intersection(&self, other: &Self) -> (r: Self)
        requires
            T::obeys_partial_cmp_spec(),
        ensures
            r.min.x == greater(self.min.x, other.min.x),
            r.min.y == greater(self.min.y, other.min.y),
            r.max.x == lesser(self.max.x, other.max.x),
            r.max.y == lesser(self.max.y, other.max.y),
    {
        Box { min: self.min.max(other.min), max: self.max.min(other.max) }
    }

    /// The union of the two boxes: the lesser of the least corners and the
    /// greater of the greatest.
    pub open spec fn united(self, other: Self) -> Self {
        Box {
            min: Point {
                x: lesser(self.min.x, other.min.x),
                y: lesser(self.min.y, other.min.y),
            },
            max: Point {
                x: greater(self.max.x, other.max.x),
                y: greater(self.max.y, other.max.y),
            },
        }
    }

    /// Get the union of two boxes: the lesser of the least corners and the
    /// greater of the greatest.
    pub fn union(&self, other: &Self) -> (r: Self)
        requires
            T::obeys_partial_cmp_spec(),
        ensures
            r == self.united(*other),
            r.min.x == lesser(self.min.x, other.min.x),
            r.min.y == lesser(self.min.y, other.min.y),
            r.max.x == greater(self.max.x, other.max.x),
            r.max.y == greater(self.max.y, other.max.y),
    {
        Box { min: self.min.min(other.min), max: self.max.max(other.max) }
    }

    /// The box grown to hold the point.
    pub open spec fn grown(self, point: Point<T>) -> Self {
        Box {
            min: Point { x: lesser(self.min.x, point.x), y: lesser(self.min.y, point.y) },
            max: Point { x: greater(self.max.x, point.x), y: greater(self.max.y, point.y) },
        }
    }

    /// The box grown to hold the first `k` of the points, one after the
    /// other.
    pub open spec fn grown_by(self, points: Seq<Point<T>>, k: nat) -> Self
        decreases k,
    {
        if k == 0 {
            self
        } else {
            self.grown_by(points, (k - 1) as nat).grown(points[k - 1])
        }
    }

    /// Extend this box to include a point.
    pub fn with_point(&self, point: &Point<T>) -> (r: Self)
        requires
            T::obeys_partial_cmp_spec(),
        ensures
            r == self.grown(*point),
    {
        Box { min: self.min.min(*point), max: self.max.max(*point) }
    }

    /// Extend this box to include a set of points.
    pub fn with_points(&self, points: &Vec<Point<T>>) -> (r: Self)
        requires
            comparable::<T>(),
        ensures
            r == self.grown_by(points@, points@.len()),
    {
        let mut acc = *self;
        let mut i: usize = 0;
        while i < points.len()
            invariant
                comparable::<T>(),
                0 <= i <= points@.len(),
                acc == self.grown_by(points@, i as nat),
            decreases points@.len() - i,
        {
            acc = acc.with_point(&points[i]);
            i += 1;
        }
        acc
    }

    /// Create the box that holds all of the points; the box of zeros where
    /// there is no point.
    pub fn of_points(points: &Vec<Point<T>>) -> (r: Self) where T: Zero
        requires
            comparable::<T>(),
        ensures
            r == (if points@.len() == 0 {
                Box {
                    min: Point { x: T::zero_spec(), y: T::zero_spec() },
                    max: Point { x: T::zero_spec(), y: T::zero_spec() },
                }
            } else {
                (Box { min: points@[0], max: points@[0] }).grown_by(
                    points@.subrange(1, points@.len() as int),
                    (points@.len() - 1) as nat,
                )
            }),
    {
        if points.len() == 0 {
            return Self::zero();
        }
        let first = points[0];
        let start = Self::new(first, first);
        let ghost rest = points@.subrange(1, points@.len() as int);
        let mut acc = start;
        let mut i: usize = 1;
        while i < points.len()
            invariant
                comparable::<T>(),
                1 <= i <= points@.len(),
                rest == points@.subrange(1, points@.len() as int),
                acc == start.grown_by(rest, (i - 1) as nat),
            decreases points@.len() - i,
        {
            assert(rest[i - 1] == points@[i as int]);
            acc = acc.with_point(&points[i]);
            i += 1;
        }
        acc
    }
}

impl<T: Copy> Box<T> {
    /// Get the size of this box.
    pub fn size(&self) -> (r: Size<T>) where T: Sub<Output = T>
        requires
            self.max.x.sub_req(self.min.x),
            self.max.y.sub_req(self.min.y),
        ensures
            T::obeys_sub_spec() ==> r == (Size {
                width: self.max.x.sub_spec(self.min.x),
                height: self.max.y.sub_spec(self.min.y),
            }),
    {
        Size { width: self.max.x - self.min.x, height: self.max.y - self.min.y }
    }

    /// Get the area of this box.
    pub fn area(&self) -> (r: T) where T: Sub<Output = T> + Mul<Output = T>
        requires
            T::obeys_sub_spec(),
            self.max.x.sub_req(self.min.x),
            self.max.y.sub_req(self.min.y),
            self.max.x.sub_spec(self.min.x).mul_req(self.max.y.sub_spec(self.min.y)),
        ensures
            T::obeys_mul_spec() ==> r == self.max.x.sub_spec(self.min.x).mul_spec(
                self.max.y.sub_spec(self.min.y),
            ),
    {
        let size = self.size();
        size.width * size.height
    }

    /// Get the range of X values.
    pub fn x_range(&self) -> (r: Range<T>)
        ensures
            r.start == self.min.x,
            r.end == self.max.x,
    {
        self.min.x..self.max.x
    }

    /// Get the range of Y values.
    pub fn y_range(&self) -> (r: Range<T>)
        ensures
            r.start == self.min.y,
            r.end == self.max.y,
    {
        self.min.y..self.max.y
    }
}

impl<T: Copy + Add<Output = T>> Add<Vector<T>> for Box<T> {
    type Output = Self;

    /// Moves both corners by the vector.
    fn add(self, rhs: Vector<T>) -> (r: Self) {
        Box { min: self.min + rhs, max: self.max + rhs }
    }
}

impl<T: Copy + Add<Output = T>> vstd::std_specs::ops::AddSpecImpl<Vector<T>> for Box<T> {
    open spec fn obeys_add_spec() -> bool {
        T::obeys_add_spec()
    }

    open spec fn add_req(self, rhs: Vector<T>) -> bool {
        &&& self.min.x.add_req(rhs.x)
        &&& self.min.y.add_req(rhs.y)
        &&& self.max.x.add_req(rhs.x)
        &&& self.max.y.add_req(rhs.y)
    }

    open spec fn add_spec(self, rhs: Vector<T>) -> Self {
        Box {
            min: Point { x: self.min.x.add_spec(rhs.x), y: self.min.y.add_spec(rhs.y) },
            max: Point { x: self.max.x.add_spec(rhs.x), y: self.max.y.add_spec(rhs.y) },
        }
    }
}

impl<T: Copy + Sub<Output = T>> Sub<Vector<T>> for Box<T> {
    type Output = Self;

    /// Moves both corners back by the vector.
    fn sub(self, rhs: Vector<T>) -> (r: Self) {
        Box { min: self.min - rhs, max: self.max - rhs }
    }
}

impl<T: Copy + Sub<Output = T>> vstd::std_specs::ops::SubSpecImpl<Vector<T>> for Box<T> {
    open spec fn obeys_sub_spec() -> bool {
        T::obeys_sub_spec()
    }

    open spec fn sub_req(self, rhs: Vector<T>) -> bool {
        &&& self.min.x.sub_req(rhs.x)
        &&& self.min.y.sub_req(rhs.y)
        &&& self.max.x.sub_req(rhs.x)
        &&& self.max.y.sub_req(rhs.y)
    }

    open spec fn sub_spec(self, rhs: Vector<T>) -> Self {
        Box {
            min: Point { x: self.min.x.sub_spec(rhs.x), y: self.min.y.sub_spec(rhs.y) },
            max: Point { x: self.max.x.sub_spec(rhs.x), y: self.max.y.sub_spec(rhs.y) },
        }
    }
}

impl<T: Real> Box<T> {
    /// The box without bounds, which no point lies in: it reaches from the
    /// greatest value down to the least. It is the unit of the union.
    pub open spec fn unbounded_spec() -> Self {
        Box {
            min: Point { x: T::max_value_spec(), y: T::max_value_spec() },
            max: Point { x: T::min_value_spec(), y: T::min_value_spec() },
        }
    }

    /// Get a box with no bounds.
    pub fn unbounded_real() -> (r: Self)
        ensures
            r == Self::unbounded_spec(),
    {
        Box::new(Point::splat(T::max_value()), Point::splat(T::min_value()))
    }

    /// Linearly interpolate between two boxes, coordinate by coordinate.
    pub fn lerp(self, other: Self, t: T) -> (r: Self)
        ensures
            r == (Box {
                min: Point {
                    x: mix(self.min.x, other.min.x, t),
                    y: mix(self.min.y, other.min.y, t),
                },
                max: Point {
                    x: mix(self.max.x, other.max.x, t),
                    y: mix(self.max.y, other.max.y, t),
                },
            }),
    {
        Box {
            min: Point {
                x: lerp_scalar(self.min.x, other.min.x, t),
                y: lerp_scalar(self.min.y, other.min.y, t),
            },
            max: Point {
                x: lerp_scalar(self.max.x, other.max.x, t),
                y: lerp_scalar(self.max.y, other.max.y, t),
            },
        }
    }

    /// Get the center of this box: the sum of its corners, halved.
    pub fn center(&self) -> (r: Point<T>)
        ensures
            r == (Point {
                x: self.min.x.add_spec(self.max.x).div_spec(T::one_spec().add_spec(T::one_spec())),
                y: self.min.y.add_spec(self.max.y).div_spec(T::one_spec().add_spec(T::one_spec())),
            }),
    {
        proof {
            T::lemma_laws();
        }
        let two = T::one() + T::one();
        Point { x: (self.min.x + self.max.x) / two, y: (self.min.y + self.max.y) / two }
    }
}

impl<T: Copy + Zero> From<Size<T>> for Box<T> {
    #[inline]
    fn from(size: Size<T>) -> (r: Self) {
        Self::from_size(size)
    }
}

impl<T: Copy + Zero> vstd::std_specs::convert::FromSpecImpl<Size<T>> for Box<T> {
    open spec fn obeys_from_spec() -> bool {
        true
    }

    open spec fn from_spec(size: Size<T>) -> Self {
        Box {
            min: Point { x: T::zero_spec(), y: T::zero_spec() },
            max: Point { x: size.width, y: size.height },
        }
    }
}

/// Objects that have a bounding box.
pub trait BoundingBox<T: Copy> {
    /// The bounding box of this object can be told: the arithmetic that it
    /// takes is defined.
    spec fn has_bounds(&self) -> bool;

    /// The bounding box of this object.
    spec fn bounding_box_spec(&self) -> Box<T>;

    /// Get the bounding box for this object.
    fn bounding_box(&self) -> (r: Box<T>)
        requires
            self.has_bounds(),
        ensures
            r == self.bounding_box_spec(),
    ;
}

impl<T: Copy> BoundingBox<T> for Box<T> {
    open spec fn has_bounds(&self) -> bool {
        true
    }

    open spec fn bounding_box_spec(&self) -> Box<T> {
        *self
    }

    fn bounding_box(&self) -> (r: Box<T>) {
        *self
    }
}

impl<T: Copy + Add<Output = T> + Zero> BoundingBox<T> for Rect<T> {
    open spec fn has_bounds(&self) -> bool {
        &&& T::obeys_add_spec()
        &&& self.origin.x.add_req(self.size.width)
        &&& self.origin.y.add_req(self.size.height)
    }

    open spec fn bounding_box_spec(&self) -> Box<T> {
        Box { min: self.origin, max: self.far_corner() }
    }

    fn bounding_box(&self) -> (r: Box<T>) {
        self.to_box()
    }
}

impl<T: Copy + PartialOrd> BoundingBox<T> for Triangle<T> {
    open spec fn has_bounds(&self) -> bool {
        comparable::<T>()
    }

    open spec fn bounding_box_spec(&self) -> Box<T> {
        Box {
            min: Point {
                x: lesser(lesser(self.a.x, self.b.x), self.c.x),
                y: lesser(lesser(self.a.y, self.b.y), self.c.y),
            },
            max: Point {
                x: greater(greater(self.a.x, self.b.x), self.c.x),
                y: greater(greater(self.a.y, self.b.y), self.c.y),
            },
        }
    }

    fn bounding_box(&self) -> (r: Box<T>) {
        let min = self.a().min(self.b()).min(self.c());
        let max = self.a().max(self.b()).max(self.c());
        Box::new(min, max)
    }
}

} // verus!
