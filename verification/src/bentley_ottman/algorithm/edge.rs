//! The edge store: every segment that takes part in the sweep, addressed by
//! a handle that starts at one.

use super::linked_list::{links_changed, relinked};
use crate::bentley_ottman::{Event, EventType};
use crate::line::{Line, NhLineSegment};
use crate::num::{lt, Real};
use crate::point::{offset_spec, Point};
use crate::trapezoid::Trapezoid;
use crate::ApproxEq;
use core::cmp::Ordering;
use vstd::prelude::*;
use vstd::std_specs::cmp::PartialOrdSpec;
use vstd::std_specs::ops::AddSpec;

verus! {

/// A trapezoid that has not been entirely completed yet.
///
/// It is kept on its left edge, and holds the handle of its right edge and
/// the height of its top.
#[derive(Debug)]
pub struct PartialTrapezoid<T: Copy> {
    /// The handle of the right edge of this trapezoid.
    pub right_edge: usize,
    /// The top coordinate of this trapezoid.
    pub top: T,
}

impl<T: Copy> Clone for PartialTrapezoid<T> {
    fn clone(&self) -> (r: Self)
        ensures
            r == *self,
    {
        *self
    }
}

impl<T: Copy> Copy for PartialTrapezoid<T> {

}

/// An edge to be used in the algorithm.
#[derive(Debug)]
pub struct BoEdge<T: Copy> {
    /// The segment that this edge represents.
    pub edge: NhLineSegment<T>,
    /// The point in this edge with the lowest Y value.
    pub lowest_y: Point<T>,
    /// The point in this edge with the highest Y value.
    pub highest_y: Point<T>,
    /// The handle of this edge: its index in the store, plus one.
    pub id: usize,
    /// The previous edge in the list that holds this edge.
    pub prev: Option<usize>,
    /// The next edge in the list that holds this edge.
    pub next: Option<usize>,
    /// The partial trapezoid of which this edge is the left side.
    pub trapezoid: Option<PartialTrapezoid<T>>,
}

impl<T: Copy> Clone for BoEdge<T> {
    fn clone(&self) -> (r: Self)
        ensures
            r == *self,
    {
        *self
    }
}

impl<T: Copy> Copy for BoEdge<T> {

}

/// The list of all edges. It is filled once and never resized.
#[derive(Debug)]
pub struct Edges<T: Copy> {
    /// The edges; the edge with the handle `id` stands at `id - 1`.
    pub edges: Vec<BoEdge<T>>,
}

impl<T: Copy> BoEdge<T> {
    /// Get the edge ID of this edge.
    pub fn id(&self) -> (r: usize)
        ensures
            r == self.id,
    {
        self.id
    }

    /// Get the segment associated with this edge.
    pub fn edge(&self) -> (r: NhLineSegment<T>)
        ensures
            r == self.edge,
    {
        self.edge
    }

    /// Get the point in this edge with the lowest Y value.
    pub fn lowest_y(&self) -> (r: Point<T>)
        ensures
            r == self.lowest_y,
    {
        self.lowest_y
    }

    /// Get the point in this edge with the highest Y value.
    pub fn highest_y(&self) -> (r: Point<T>)
        ensures
            r == self.highest_y,
    {
        self.highest_y
    }

    /// Get the ID of the previous edge in the sweep line.
    pub fn prev(&self) -> (r: Option<usize>)
        ensures
            r == self.prev,
    {
        self.prev
    }

    /// Set the ID of the previous edge in the sweep line.
    pub fn set_prev(&mut self, prev: Option<usize>)
        ensures
            *final(self) == (BoEdge { prev, ..*old(self) }),
    {
        self.prev = prev;
    }

    /// Get the ID of the next edge in the sweep line.
    pub fn next(&self) -> (r: Option<usize>)
        ensures
            r == self.next,
    {
        self.next
    }

    /// Set the ID of the next edge in the sweep line.
    pub fn set_next(&mut self, next: Option<usize>)
        ensures
            *final(self) == (BoEdge { next, ..*old(self) }),
    {
        self.next = next;
    }

    /// Tell whether or not we have a pending trapezoid.
    pub fn pending_trapezoid(&self) -> (r: bool)
        ensures
            r == self.trapezoid.is_some(),
    {
        self.trapezoid.is_some()
    }

    /// Move the partial trapezoid to this edge from another.
    pub fn take_trapezoid(&mut self, other: &mut Self)
        ensures
            *final(self) == (BoEdge { trapezoid: old(other).trapezoid, ..*old(self) }),
            *final(other) == (BoEdge { trapezoid: None, ..*old(other) }),
    {
        self.trapezoid = other.trapezoid;
        other.trapezoid = None;
    }

    /// The edges' data apart from their links and partial trapezoids are
    /// the same.
    pub open spec fn same_geometry(&self, other: &Self) -> bool {
        &&& self.edge == other.edge
        &&& self.lowest_y == other.lowest_y
        &&& self.highest_y == other.highest_y
        &&& self.id == other.id
    }
}

impl<T: Real + ApproxEq> PartialTrapezoid<T> {
    /// The trapezoid that this partial one becomes when it is closed at the
    /// height `bottom`, between the lines `left` and `right`; none where the
    /// bottom lies above the top.
    pub open spec fn completed(self, bottom: T, left: Line<T>, right: Line<T>) -> Option<
        Trapezoid<T>,
    > {
        if lt(bottom, self.top) {
            None
        } else {
            Some(Trapezoid { top: self.top, bottom, left, right })
        }
    }

    /// A completed trapezoid between lines that are not horizontal is
    /// valid.
    pub proof fn lemma_completed_is_valid(self, bottom: T, left: Line<T>, right: Line<T>)
        requires
            !left.horizontal(),
            !right.horizontal(),
        ensures
            self.completed(bottom, left, right) matches Some(t) ==> t.valid(),
    {
        T::lemma_laws();
        assert(bottom.partial_cmp_spec(&self.top).is_some());
        assert(self.top.partial_cmp_spec(&bottom).is_some());
        let o = bottom.partial_cmp_spec(&self.top).unwrap();
        assert(o == Ordering::Less || o == Ordering::Equal || o == Ordering::Greater);
    }

    /// Complete this trapezoid.
    pub fn complete(self, left_edge: usize, bottom: T, all: &Edges<T>) -> (r: Option<
        Trapezoid<T>,
    >)
        requires
            all.has(left_edge),
            all.has(self.right_edge),
        ensures
            r == self.completed(
                bottom,
                all.at(left_edge).edge.line(),
                all.at(self.right_edge).edge.line(),
            ),
    {
        proof {
            T::lemma_laws();
        }
        let left = all.get(left_edge);
        let right = all.get(self.right_edge);

        // if the bottom comes before the top, this trapezoid
        // is invalid
        if bottom < self.top {
            None
        } else {
            Some(Trapezoid::new(self.top, bottom, left.edge().line(), right.edge().line()))
        }
    }
}

impl<T: Copy> Edges<T> {
    /// `id` is the handle of an edge of the store.
    pub open spec fn has(&self, id: usize) -> bool {
        1 <= id <= self.edges@.len()
    }

    /// The edge with the handle `id`.
    pub open spec fn at(&self, id: usize) -> BoEdge<T> {
        self.edges@[id - 1]
    }

    /// The number of edges in the store.
    pub fn len(&self) -> (r: usize)
        ensures
            r == self.edges@.len(),
    {
        self.edges.len()
    }

    /// Get the edge at the given index.
    pub fn get(&self, index: usize) -> (r: &BoEdge<T>)
        requires
            self.has(index),
        ensures
            *r == self.at(index),
    {
        &self.edges[index - 1]
    }

    /// Put `edge` in the place of the edge with the handle `index`.
    pub fn set(&mut self, index: usize, edge: BoEdge<T>)
        requires
            old(self).has(index),
        ensures
            final(self).edges@ == old(self).edges@.update(index - 1, edge),
    {
        self.edges.set(index - 1, edge);
    }

    /// Set the `prev` link of the edge with the handle `id`.
    pub fn set_prev(&mut self, id: usize, prev: Option<usize>)
        requires
            old(self).has(id),
        ensures
            final(self).edges@ == old(self).edges@.update(
                id - 1,
                BoEdge { prev, ..old(self).at(id) },
            ),
    {
        let mut edge = *self.get(id);
        edge.set_prev(prev);
        self.set(id, edge);
    }

    /// Set the `next` link of the edge with the handle `id`.
    pub fn set_next(&mut self, id: usize, next: Option<usize>)
        requires
            old(self).has(id),
        ensures
            final(self).edges@ == old(self).edges@.update(
                id - 1,
                BoEdge { next, ..old(self).at(id) },
            ),
    {
        let mut edge = *self.get(id);
        edge.set_next(next);
        self.set(id, edge);
    }

    /// The store made of the given edges.
    pub fn from_vec(edges: Vec<BoEdge<T>>) -> (r: Self)
        ensures
            r.edges == edges,
    {
        Edges { edges }
    }

    /// The handles of all edges, in order.
    pub fn ids(&self) -> (r: Vec<usize>)
        ensures
            r@.len() == self.edges@.len(),
            forall|i: int| 0 <= i < r@.len() ==> r@[i] == i + 1,
    {
        let mut out: Vec<usize> = Vec::new();
        let mut i: usize = 0;
        while i < self.edges.len()
            invariant
                i <= self.edges@.len(),
                out@.len() == i,
                forall|k: int| 0 <= k < out@.len() ==> out@[k] == k + 1,
            decreases self.edges@.len() - i,
        {
            out.push(i + 1);
            i += 1;
        }
        out
    }

    /// `other` holds the same edges, whatever their links and partial
    /// trapezoids are.
    pub open spec fn same_geometry(&self, other: &Self) -> bool {
        &&& self.edges@.len() == other.edges@.len()
        &&& forall|i: int|
            0 <= i < self.edges@.len() ==> (#[trigger] self.edges@[i]).same_geometry(
                &other.edges@[i],
            )
    }
}

impl<T: Copy> Edges<T> {
    /// Every store holds the same edges as itself.
    pub proof fn lemma_same_geometry_refl(&self)
        ensures
            self.same_geometry(self),
    {
    }

    /// Holding the same edges carries over from one pair of stores to the
    /// next.
    pub proof fn lemma_same_geometry_trans(&self, mid: &Self, last: &Self)
        requires
            self.same_geometry(mid),
            mid.same_geometry(last),
        ensures
            self.same_geometry(last),
    {
        assert forall|i: int| 0 <= i < self.edges@.len() implies (#[trigger] self.edges@[i]).same_geometry(
            &last.edges@[i],
        ) by {
            assert(self.edges@[i].same_geometry(&mid.edges@[i]));
            assert(mid.edges@[i].same_geometry(&last.edges@[i]));
        }
    }
}

impl<T: Real + ApproxEq> Edges<T> {
    /// Every edge stands at the place that its handle names and is well
    /// formed, and every partial trapezoid names an edge of the store as
    /// its right edge.
    pub open spec fn wf(&self) -> bool {
        forall|i: int|
            0 <= i < self.edges@.len() ==> {
                &&& (#[trigger] self.edges@[i]).id == i + 1
                &&& self.edges@[i].wf()
                &&& self.edges@[i].trapezoid matches Some(p) ==> self.has(p.right_edge)
            }
    }
}

impl<T: Real + ApproxEq> BoEdge<T> {
    /// The segment is not horizontal, and the two end points are those of
    /// the segment.
    pub open spec fn wf(&self) -> bool {
        &&& self.edge.wf()
        &&& self.lowest_y == self.edge.end_points().0
        &&& self.highest_y == self.edge.end_points().1
    }

    /// The event at which this edge enters the sweep.
    pub open spec fn start_event_spec(&self) -> Event<T> {
        Event { edge_id: self.id, event_type: EventType::Start, point: self.lowest_y }
    }

    /// The event at which this edge leaves the sweep.
    pub open spec fn stop_event_spec(&self) -> Event<T> {
        Event { edge_id: self.id, event_type: EventType::Stop, point: self.highest_y }
    }

    /// Get the start event for this edge.
    pub fn start_event(&self) -> (r: Event<T>)
        ensures
            r == self.start_event_spec(),
    {
        Event { edge_id: self.id(), event_type: EventType::Start, point: self.lowest_y() }
    }

    /// Get the end event for this edge.
    pub fn stop_event(&self) -> (r: Event<T>)
        ensures
            r == self.stop_event_spec(),
    {
        Event { edge_id: self.id(), event_type: EventType::Stop, point: self.highest_y() }
    }

    /// Complete the trapezoid for this edge at a given Y value.
    pub fn complete_trapezoid(&mut self, bottom: T, all: &Edges<T>) -> (r: Option<Trapezoid<T>>)
        requires
            all.has(old(self).id),
            old(self).trapezoid matches Some(p) ==> all.has(p.right_edge),
        ensures
            *final(self) == (BoEdge { trapezoid: None, ..*old(self) }),
            r == (match old(self).trapezoid {
                None => None,
                Some(p) => p.completed(
                    bottom,
                    all.at(old(self).id).edge.line(),
                    all.at(p.right_edge).edge.line(),
                ),
            }),
    {
        let pending = self.trapezoid;
        self.trapezoid = None;
        match pending {
            None => None,
            Some(trap) => trap.complete(self.id(), bottom, all),
        }
    }

    /// Create a `BoEdge` from two points.
    pub fn from_points(point1: Point<T>, point2: Point<T>, id: usize) -> (r: Self)
        requires
            !(Line { origin: point1, direction: offset_spec(point2, point1) }).horizontal(),
        ensures
            r.wf(),
            r.id == id,
            r.prev.is_none(),
            r.next.is_none(),
            r.trapezoid.is_none(),
            r.edge.line() == (Line { origin: point1, direction: offset_spec(point2, point1) }),
            r.edge.top() == (if lt(point1.y, point2.y) { point1.y } else { point2.y }),
            r.edge.bottom() == (if lt(point1.y, point2.y) { point2.y } else { point1.y }),
    {
        let segment = NhLineSegment::new(point1, point2).unwrap();
        Self::from_edge(segment, id)
    }

    /// The other edge lies on the line of this one: both the origin of the
    /// other's line and the point one direction further are at a distance
    /// of approximately zero.
    pub open spec fn colinear_spec(&self, other: &BoEdge<T>) -> bool {
        let line = self.edge.line();
        let point = other.edge.line().origin;
        let vector = other.edge.line().direction;
        let far = Point { x: point.x.add_spec(vector.x), y: point.y.add_spec(vector.y) };
        line.distance_spec(point).approx_eq_spec(&T::zero_spec()) && line.distance_spec(
            far,
        ).approx_eq_spec(&T::zero_spec())
    }

    /// Is this edge colinear with another edge?
    pub fn colinear(&self, other: &BoEdge<T>) -> (r: bool)
        ensures
            r == self.colinear_spec(other),
    {
        proof {
            T::lemma_laws();
        }
        let line = self.edge.line();
        let point = other.edge.line().origin();
        let vector = other.edge.line().direction();

        // we know that point and point + vector are on the same line
        // if both points are a distance of zero from our line's equation,
        // we know that they are colinear
        line.distance(point).approx_eq(&T::zero()) && line.distance(point + vector).approx_eq(
            &T::zero(),
        )
    }

    /// Get the X coordinate for this edge at a given Y coordinate.
    pub fn x_at_y(&self, y: T) -> (r: T)
        requires
            self.edge.wf(),
        ensures
            r == self.edge.line().x_at_y(y),
    {
        x_for_y(&self.edge.line(), y)
    }

    /// The partial trapezoid that this edge holds once it has been paired
    /// with the right neighbour `right` at the height `top`.
    ///
    /// An edge without one starts one. One that already names `right` stays.
    /// One whose right edge is colinear with `right` is extended to it and
    /// keeps its top. Any other is replaced by a new one.
    pub open spec fn paired(&self, right: &BoEdge<T>, top: T, all: &Edges<T>) -> PartialTrapezoid<
        T,
    > {
        match self.trapezoid {
            None => PartialTrapezoid { right_edge: right.id, top },
            Some(p) => if p.right_edge == right.id {
                p
            } else if all.at(p.right_edge).colinear_spec(right) {
                PartialTrapezoid { right_edge: right.id, top: p.top }
            } else {
                PartialTrapezoid { right_edge: right.id, top }
            },
        }
    }

    /// The trapezoid that pairing this edge with `right` at the height
    /// `top` completes: the one that the edge held, closed at `top`, where
    /// it named another right edge that is not colinear with `right`.
    pub open spec fn emitted(&self, right: &BoEdge<T>, top: T, all: &Edges<T>) -> Option<
        Trapezoid<T>,
    > {
        match self.trapezoid {
            None => None,
            Some(p) => if p.right_edge == right.id || all.at(p.right_edge).colinear_spec(right) {
                None
            } else {
                p.completed(top, all.at(self.id).edge.line(), all.at(p.right_edge).edge.line())
            },
        }
    }

    /// Either start a new trapezoid or continue an existing one.
    ///
    /// If a trapezoid was finished using this function, this returns
    /// that trapezoid.
    pub fn start_trapezoid(&mut self, right: &BoEdge<T>, top: T, all: &Edges<T>) -> (r: Option<
        Trapezoid<T>,
    >)
        requires
            all.has(old(self).id),
            old(self).trapezoid matches Some(p) ==> all.has(p.right_edge),
        ensures
            *final(self) == (BoEdge {
                trapezoid: Some(old(self).paired(right, top, all)),
                ..*old(self)
            }),
            r == old(self).emitted(right, top, all),
    {
        // if the current trapezoid is not empty, we may need to either
        // extend it or end it
        let mut completed_trap = None;

        if let Some(inner_trap) = self.trapezoid {
            // if the trap has the same right edge as the one we're about to
            // install, fail early
            if inner_trap.right_edge == right.id() {
                return None;
            }
            // if the other line is colinear to the current right edge,
            // just extend the trapezoid to there

            if all.get(inner_trap.right_edge).colinear(right) {
                self.trapezoid = Some(
                    PartialTrapezoid { right_edge: right.id(), top: inner_trap.top },
                );

                // we're done
                return None;
            } else {
                // otherwise, we need to end the trapezoid
                completed_trap = inner_trap.complete(self.id(), top, all);
            }
        }
        // create a new trapezoid

        self.trapezoid = Some(PartialTrapezoid { right_edge: right.id(), top });

        completed_trap
    }

    /// The event at the point in which this edge and `other` meet.
    pub open spec fn intersection_event_spec(&self, other: &BoEdge<T>) -> Option<Event<T>> {
        match self.edge.meeting(&other.edge) {
            None => None,
            Some(point) => Some(
                Event {
                    edge_id: self.id,
                    event_type: EventType::Intersection { other_edge_id: other.id },
                    point,
                },
            ),
        }
    }

    /// Get the intersection event between this edge and another edge.
    ///
    /// This does not preform the check to see if the intersection may
    /// have already occurred.
    pub fn intersection_event(&self, other: &BoEdge<T>) -> (r: Option<Event<T>>)
        ensures
            r == self.intersection_event_spec(other),
    {
        match self.edge.intersection(&other.edge) {
            None => None,
            Some(point) => Some(
                Event {
                    edge_id: self.id(),
                    event_type: EventType::Intersection { other_edge_id: other.id() },
                    point,
                },
            ),
        }
    }

    /// Create a new `BoEdge` from an `Edge` and its ID number.
    pub fn from_edge(edge: NhLineSegment<T>, id: usize) -> (r: Self)
        requires
            edge.wf(),
        ensures
            r.wf(),
            r == (BoEdge {
                edge,
                lowest_y: edge.end_points().0,
                highest_y: edge.end_points().1,
                id,
                prev: None,
                next: None,
                trapezoid: None,
            }),
    {
        // get the points of the edge
        let lowest_y = Point::new(x_for_y(&edge.line(), edge.top()), edge.top());
        let highest_y = Point::new(x_for_y(&edge.line(), edge.bottom()), edge.bottom());

        BoEdge { edge, lowest_y, highest_y, id, prev: None, next: None, trapezoid: None }
    }
}

/// Calculate the X for a given Y value.
pub fn x_for_y<T: Real + ApproxEq>(line: &Line<T>, y: T) -> (r: T)
    requires
        !line.horizontal(),
    ensures
        r == line.x_at_y(y),
{
    line.point_at_y(y).unwrap().x()
}

/// `after` is `before` with the partial trapezoid of the edge `giver` moved
/// to the edge `taker`, and nothing else changed.
pub open spec fn trapezoid_moved<T: Copy>(
    before: &Edges<T>,
    after: &Edges<T>,
    taker: usize,
    giver: usize,
) -> bool {
    &&& after.edges@.len() == before.edges@.len()
    &&& forall|id: usize| #[trigger]
        before.has(id) ==> after.at(id) == (BoEdge {
            trapezoid: if id == taker {
                before.at(giver).trapezoid
            } else if id == giver {
                None
            } else {
                before.at(id).trapezoid
            },
            ..before.at(id)
        })
}

impl<T: Real + ApproxEq> Edges<T> {
    /// Move the partial trapezoid of the edge `giver` to the edge `taker`.
    pub fn move_trapezoid(&mut self, taker: usize, giver: usize)
        requires
            old(self).wf(),
            old(self).has(taker),
            old(self).has(giver),
            taker != giver,
        ensures
            trapezoid_moved(old(self), final(self), taker, giver),
            final(self).wf(),
            old(self).same_geometry(final(self)),
    {
        let mut to = *self.get(taker);
        let mut from = *self.get(giver);
        to.take_trapezoid(&mut from);
        self.set(taker, to);
        self.set(giver, from);
        proof {
            assert forall|i: int| 0 <= i < self.edges@.len() implies {
                &&& (#[trigger] self.edges@[i]).id == i + 1
                &&& self.edges@[i].wf()
                &&& self.edges@[i].trapezoid matches Some(p) ==> self.has(p.right_edge)
                &&& old(self).edges@[i].same_geometry(&self.edges@[i])
            } by {
                assert(old(self).edges@[i].id == i + 1);
                assert(old(self).edges@[giver - 1].id == giver);
            }
        }
    }
}

/// Edges whose links alone have changed have kept their geometry and
/// their partial trapezoids, and are well formed if they were.
pub proof fn lemma_links_keep_edges<T: Real + ApproxEq>(
    before: &Edges<T>,
    after: &Edges<T>,
    touched: Set<usize>,
)
    requires
        links_changed(before, after, touched),
    ensures
        before.same_geometry(after),
        before.wf() ==> after.wf(),
        forall|id: usize| #[trigger]
            before.has(id) ==> after.at(id).trapezoid == before.at(id).trapezoid,
{
    assert(before.edges.len() == before.edges@.len());
    assert forall|i: int| 0 <= i < before.edges@.len() implies (#[trigger] before.edges@[i]).same_geometry(
        &after.edges@[i],
    ) && after.edges@[i].trapezoid == before.edges@[i].trapezoid by {
        let id = (i + 1) as usize;
        assert(before.has(id));
        assert(relinked(before, after, id));
    }
    if before.wf() {
        assert forall|i: int| 0 <= i < after.edges@.len() implies {
            &&& (#[trigger] after.edges@[i]).id == i + 1
            &&& after.edges@[i].wf()
            &&& after.edges@[i].trapezoid matches Some(p) ==> after.has(p.right_edge)
        } by {
            assert(before.edges@[i].same_geometry(&after.edges@[i]));
        }
    }
    assert forall|id: usize| #[trigger] before.has(id) implies after.at(id).trapezoid == before.at(
        id,
    ).trapezoid by {
        assert(relinked(before, after, id));
    }
}

} // verus!
