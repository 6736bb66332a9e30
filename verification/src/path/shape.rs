//! The closed version of a path.

use super::flatten::Flattened;
use super::line_segments::{segments_of, LineSegments};
use crate::bentley_ottman::{trapezoids, Trapezoids};
use crate::box2d::{BoundingBox, Box};
use crate::line::LineSegment;
use crate::num::{Real, Zero};
use crate::trapezoid::Trapezoid;
use crate::{ApproxEq, FillRule};
use vstd::prelude::*;
use vstd::std_specs::ops::AddSpec;

verus! {

/// The line segments of a flattened path: its lines and the lines that
/// close its subpaths, in order.
pub open spec fn outline<T: Copy>(path: &Flattened<T>) -> Seq<LineSegment<T>> {
    segments_of(path.events@, path.events@.len())
}

/// The sum of the areas of the trapezoids, added up from the first on.
pub open spec fn total_area<T: Real + ApproxEq>(given: Seq<Trapezoid<T>>) -> T
    decreases given.len(),
{
    if given.len() == 0 {
        T::zero_spec()
    } else {
        total_area(given.drop_last()).add_spec(given.last().area_spec())
    }
}

/// The union of the bounding boxes of the trapezoids, taken from the box
/// without bounds on.
pub open spec fn bounds<T: Real + ApproxEq>(given: Seq<Trapezoid<T>>) -> Box<T>
    decreases given.len(),
{
    if given.len() == 0 {
        Box::unbounded_spec()
    } else {
        bounds(given.drop_last()).united(given.last().bounding_box_spec())
    }
}

/// `given` are the trapezoids that the tessellation of the shape hands
/// out, from its start to its end.
pub open spec fn tessellated<T: Real + ApproxEq>(
    path: &Flattened<T>,
    given: Seq<Trapezoid<T>>,
) -> bool {
    exists|start: crate::bentley_ottman::algorithm::Algorithm<T>|
        Trapezoids::set_out(&start, outline(path), FillRule::Winding)
            && #[trigger] Trapezoids::exhausted(&start, given)
}

/// The tessellation of the region that a flattened path bounds, by the
/// winding rule: the sweep over the segments of its outline, at its start.
pub fn shape_trapezoids<T: Real + ApproxEq>(path: &Flattened<T>) -> (r: Trapezoids<T>)
    ensures
        Trapezoids::set_out(&r.inner, outline(path), FillRule::Winding),
{
    trapezoids(LineSegments::collect(&path.events), FillRule::Winding)
}

/// The area of the shape that a flattened path bounds: the sum of the
/// areas of the trapezoids of its tessellation.
pub fn shape_area<T: Real + ApproxEq>(path: &Flattened<T>) -> (r: T)
    ensures
        exists|given: Seq<Trapezoid<T>>| #[trigger]
            tessellated(path, given) && r == total_area(given),
{
    let sweep = shape_trapezoids(path);
    let ghost start = sweep.inner;
    let found = sweep.collect();
    let mut area = T::zero();
    let mut i: usize = 0;
    while i < found.len()
        invariant
            0 <= i <= found@.len(),
            forall|k: int| 0 <= k < found@.len() ==> (#[trigger] found@[k]).valid(),
            area == total_area(found@.take(i as int)),
        decreases found@.len() - i,
    {
        proof {
            T::lemma_laws();
            assert(found@[i as int].valid());
            assert(found@.take(i + 1).drop_last() =~= found@.take(i as int));
        }
        area = area + found[i].area();
        i += 1;
    }
    proof {
        assert(found@.take(i as int) =~= found@);
        assert(Trapezoids::exhausted(&start, found@));
        assert(tessellated(path, found@));
    }
    area
}

/// The bounding box of the shape that a flattened path bounds: the union
/// of the bounding boxes of the trapezoids of its tessellation.
pub fn shape_bounding_box<T: Real + ApproxEq>(path: &Flattened<T>) -> (r: Box<T>)
    ensures
        exists|given: Seq<Trapezoid<T>>| #[trigger]
            tessellated(path, given) && r == bounds(given),
{
    let sweep = shape_trapezoids(path);
    let ghost start = sweep.inner;
    let found = sweep.collect();
    let mut all = Box::unbounded_real();
    let mut i: usize = 0;
    while i < found.len()
        invariant
            0 <= i <= found@.len(),
            forall|k: int| 0 <= k < found@.len() ==> (#[trigger] found@[k]).valid(),
            all == bounds(found@.take(i as int)),
        decreases found@.len() - i,
    {
        proof {
            T::lemma_laws();
            assert(found@[i as int].valid());
            assert(found@.take(i + 1).drop_last() =~= found@.take(i as int));
        }
        all = all.union(&found[i].bounding_box());
        i += 1;
    }
    proof {
        assert(found@.take(i as int) =~= found@);
        assert(Trapezoids::exhausted(&start, found@));
        assert(tessellated(path, found@));
    }
    all
}

} // verus!
