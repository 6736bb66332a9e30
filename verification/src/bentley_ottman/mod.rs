//! The Bentley-Ottmann sweep over a set of line segments.

pub mod algorithm;

use crate::line::LineSegment;
use crate::num::Real;
use crate::point::Point;
use crate::trapezoid::Trapezoid;
use crate::{ApproxEq, FillRule};
use algorithm::edge::Edges;
use algorithm::events::{lemma_skip_spurious_takes_the_first, skip_spurious};
use algorithm::priority_queue::{comes_before, lemma_comes_before_is_strict_weak};
use algorithm::{valid_event, Algorithm};
use vstd::prelude::*;
use vstd::std_specs::cmp::PartialEqSpec;

verus! {

/// The type of event that may occur in the Bentley-Ottmann algorithm.
#[derive(Debug, Copy, Clone, PartialEq, Eq, Structural)]
pub enum EventType {
    /// A start event, or the beginning of a segment.
    Start,
    /// A stop event, or the end of a segment.
    Stop,
    /// An intersection event.
    Intersection {
        /// The handle of the other edge we intersect with.
        other_edge_id: usize,
    },
}

/// An event that may occur in the Bentley-Ottmann algorithm.
#[derive(Debug)]
pub struct Event<T: Copy> {
    /// The handle of the edge that this event is associated with.
    pub edge_id: usize,
    /// The event type.
    pub event_type: EventType,
    /// The point that this event is associated with.
    pub point: Point<T>,
}

impl<T: Copy> Clone for Event<T> {
    fn clone(&self) -> (r: Self)
        ensures
            r == *self,
    {
        *self
    }
}

impl<T: Copy> Copy for Event<T> {

}

impl<T: Copy + PartialEq> PartialEq for Event<T> {
    fn eq(&self, other: &Self) -> (r: bool) {
        self.edge_id == other.edge_id && self.event_type == other.event_type && self.point
            == other.point
    }
}

impl<T: Copy + PartialEq> vstd::std_specs::cmp::PartialEqSpecImpl for Event<T> {
    open spec fn obeys_eq_spec() -> bool {
        T::obeys_eq_spec()
    }

    open spec fn eq_spec(&self, other: &Self) -> bool {
        self.edge_id == other.edge_id && self.event_type == other.event_type
            && self.point.x.eq_spec(&other.point.x) && self.point.y.eq_spec(&other.point.y)
    }
}

/// An event with the given edge, type and point.
pub fn event<T: Copy>(edge_id: usize, event_type: EventType, point: Point<T>) -> (r: Event<T>)
    ensures
        r == (Event { edge_id, event_type, point }),
{
    Event { edge_id, event_type, point }
}

/// The point of an intersection event lies on both of its edges: the
/// segments meet in it, the lines are not parallel, and the heights of both
/// segments span its height.
pub proof fn lemma_intersection_lies_within<T: Real + ApproxEq>(all: &Edges<T>, ev: Event<T>)
    requires
        valid_event(all, ev),
        ev.event_type is Intersection,
    ensures
        all.has(ev.edge_id),
        all.has(ev.event_type->other_edge_id),
        ({
            let a = all.at(ev.edge_id).edge;
            let b = all.at(ev.event_type->other_edge_id).edge;
            &&& a.meeting(&b) == Some(ev.point)
            &&& !a.line().parallel_to(&b.line())
            &&& ev.point == a.line().crossing(&b.line())
            &&& a.spans(ev.point.y)
            &&& b.spans(ev.point.y)
        }),
{
}

/// The step from `pre` to `post`, which returned the event `ev`, has put
/// nothing behind the sweep: every event of the queue was left in it when
/// `ev` was popped, or does not come before `ev`.
pub open spec fn none_behind<T: Real + ApproxEq>(
    pre: &Algorithm<T>,
    post: &Algorithm<T>,
    ev: Event<T>,
) -> bool {
    let rest = skip_spurious(&pre.edges, pre.queue()).1;
    forall|k: int|
        0 <= k < post.queue().len() ==> rest.contains(#[trigger] post.queue()[k]) || !comes_before(
            post.queue()[k],
            ev,
        )
}

/// `post` is what the sweep `pre` becomes in steps that return the events
/// `evs` in turn, none of which puts an event behind the sweep.
pub open spec fn swept_forward<T: Real + ApproxEq>(
    pre: &Algorithm<T>,
    post: &Algorithm<T>,
    evs: Seq<Event<T>>,
) -> bool
    decreases evs.len(),
{
    if evs.len() == 0 {
        Algorithm::unchanged(pre, post)
    } else {
        exists|mid: Algorithm<T>|
            swept_forward(pre, &mid, evs.drop_last()) && #[trigger] Algorithm::stepped(
                &mid,
                post,
                Some(evs.last()),
            ) && none_behind(&mid, post, evs.last())
    }
}

/// The events of a sweep come out in order, by height and then from left
/// to right, as long as no step finds a crossing behind the sweep: no
/// event comes before one that was returned earlier. The intersection
/// events among them come in that order too. And no event that is left
/// in the queue comes before the last that was returned.
pub proof fn lemma_events_come_in_order<T: Real + ApproxEq>(
    pre: &Algorithm<T>,
    post: &Algorithm<T>,
    evs: Seq<Event<T>>,
)
    requires
        swept_forward(pre, post, evs),
    ensures
        forall|i: int, j: int|
            0 <= i < j < evs.len() ==> !comes_before(#[trigger] evs[j], #[trigger] evs[i]),
        evs.len() > 0 ==> forall|k: int|
            0 <= k < post.queue().len() ==> !comes_before(#[trigger] post.queue()[k], evs.last()),
    decreases evs.len(),
{
    if evs.len() > 0 {
        let earlier = evs.drop_last();
        let ev = evs.last();
        let mid = choose|mid: Algorithm<T>|
            swept_forward(pre, &mid, earlier) && #[trigger] Algorithm::stepped(&mid, post, Some(ev))
                && none_behind(&mid, post, ev);
        lemma_events_come_in_order(pre, &mid, earlier);
        lemma_skip_spurious_takes_the_first(&mid.edges, mid.queue());
        let rest = skip_spurious(&mid.edges, mid.queue()).1;
        assert forall|k: int| 0 <= k < post.queue().len() implies !comes_before(
            #[trigger] post.queue()[k],
            ev,
        ) by {
            let e = post.queue()[k];
            if rest.contains(e) {
                let a = rest.index_of(e);
                assert(rest[a] == e);
            }
        }
        assert forall|i: int, j: int| 0 <= i < j < evs.len() implies !comes_before(
            #[trigger] evs[j],
            #[trigger] evs[i],
        ) by {
            assert(earlier[i] == evs[i]);
            if j + 1 < evs.len() {
                assert(earlier[j] == evs[j]);
            } else {
                let last = earlier.last();
                let a = mid.queue().index_of(ev);
                assert(mid.queue()[a] == ev);
                assert(!comes_before(ev, last));
                if i + 1 < earlier.len() {
                    assert(!comes_before(earlier[earlier.len() - 1], earlier[i]));
                    lemma_comes_before_is_strict_weak(ev, last, evs[i]);
                }
            }
        }
    }
}

/// The handles of a valid event stay valid whatever the sweep does to the
/// edges: it never adds or drops an edge, and an edge keeps its handle.
pub proof fn lemma_handles_are_stable<T: Real + ApproxEq>(
    all: &Edges<T>,
    later: &Edges<T>,
    ev: Event<T>,
)
    requires
        valid_event(all, ev),
        all.wf(),
        all.same_geometry(later),
    ensures
        later.edges@.len() == all.edges@.len(),
        later.has(ev.edge_id),
        later.at(ev.edge_id).id == ev.edge_id,
        later.at(ev.edge_id).edge == all.at(ev.edge_id).edge,
        ev.event_type matches EventType::Intersection { other_edge_id } ==> later.has(other_edge_id)
            && later.at(other_edge_id).id == other_edge_id && later.at(other_edge_id).edge
            == all.at(other_edge_id).edge,
        valid_event(later, ev),
{
    assert(all.edges@[ev.edge_id - 1].same_geometry(&later.edges@[ev.edge_id - 1]));
    assert(all.edges@[ev.edge_id - 1].id == ev.edge_id);
    if let EventType::Intersection { other_edge_id } = ev.event_type {
        assert(all.edges@[other_edge_id - 1].same_geometry(&later.edges@[other_edge_id - 1]));
        assert(all.edges@[other_edge_id - 1].id == other_edge_id);
    }
    algorithm::events::lemma_valid_event_frame(all, later, ev);
}

/// The active list of a consistent sweep is a doubly linked list: no edge
/// occurs twice, the list starts at its root, every edge is linked to the
/// edge before it and to the edge after it, the ends have no such edges,
/// and an edge that is in neither the active list nor the leftovers has no
/// links at all.
pub proof fn lemma_active_list_is_linked<T: Real + ApproxEq>(sweep: &Algorithm<T>)
    requires
        sweep.wf(),
    ensures
        ({
            let active = sweep.sweep_line.active@;
            let all = &sweep.edges;
            &&& active.no_duplicates()
            &&& sweep.sweep_line.active.root == (if active.len() == 0 {
                None
            } else {
                Some(active[0])
            })
            &&& forall|i: int| 0 <= i < active.len() ==> all.has(#[trigger] active[i])
            &&& forall|i: int|
                0 <= i < active.len() ==> (#[trigger] all.at(active[i])).prev == (if i == 0 {
                    None
                } else {
                    Some(active[i - 1])
                })
            &&& forall|i: int|
                0 <= i < active.len() ==> (#[trigger] all.at(active[i])).next == (if i + 1
                    == active.len() {
                    None
                } else {
                    Some(active[i + 1])
                })
            &&& forall|i: int|
                0 <= i < active.len() ==> !sweep.sweep_line.leftovers@.contains(#[trigger] active[i])
            &&& forall|id: usize|
                all.has(id) && !active.contains(id) && !sweep.sweep_line.leftovers@.contains(id)
                    ==> (#[trigger] all.at(id)).prev.is_none() && all.at(id).next.is_none()
        }),
{
    let active = sweep.sweep_line.active@;
    let leftovers = sweep.sweep_line.leftovers@;
    assert forall|i: int| 0 <= i < active.len() implies !leftovers.contains(#[trigger] active[i]) by {
        if leftovers.contains(active[i]) {
            let j = leftovers.index_of(active[i]);
            assert(leftovers[j] == active[i]);
        }
    }
    assert forall|id: usize|
        sweep.edges.has(id) && !active.contains(id) && !leftovers.contains(id) implies (
    #[trigger] sweep.edges.at(id)).prev.is_none() && sweep.edges.at(id).next.is_none() by {
        assert(algorithm::linked_list::loose(&sweep.edges, id));
    }
}

/// The sweep over a set of segments, event by event.
pub struct BentleyOttmann<T: Copy> {
    /// The sweep.
    pub inner: Algorithm<T>,
}

/// The sweep over a set of segments that hands out the points in which
/// they cross.
pub struct Intersections<T: Copy> {
    /// The sweep.
    pub inner: Algorithm<T>,
    /// The number of events that the sweep may still visit in search of
    /// intersections. It starts at the greatest number that the machine can
    /// count to, and the search ends when it is used up.
    pub budget: usize,
}

/// The tessellation of a set of segments, trapezoid by trapezoid.
pub struct Trapezoids<T: Copy> {
    /// The sweep.
    pub inner: Algorithm<T>,
}

/// Get the events of the sweep over the given segments.
///
/// The sweep yields all of the events, not just intersections.
pub fn bentley_ottmann_events<T: Real + ApproxEq>(segments: Vec<LineSegment<T>>) -> (r:
    BentleyOttmann<T>)
    ensures
        r.inner.wf(),
        r.inner.variant is NoTrapezoids,
        r.inner.edges.edges@.len() == algorithm::kept(segments@).len(),
        forall|i: int|
            0 <= i < r.inner.edges.edges@.len() ==> algorithm::fresh_edge(
                #[trigger] r.inner.edges.edges@[i],
                (i + 1) as usize,
                algorithm::kept(segments@)[i],
            ),
        r.inner.queue().len() == r.inner.edges.edges@.len(),
        forall|i: int|
            0 <= i < r.inner.queue().len() ==> #[trigger] r.inner.queue()[i]
                == r.inner.edges.edges@[i].start_event_spec(),
        r.inner.sweep_line.active@ == Seq::<usize>::empty(),
        r.inner.sweep_line.leftovers@ == Seq::<usize>::empty(),
        r.inner.sweep_line.current_y == T::min_value_spec(),
{
    BentleyOttmann { inner: Algorithm::new(segments, None) }
}

/// The whole point.
///
/// This function sweeps over the given line segments and hands out the
/// points in which they intersect.
pub fn bentley_ottmann<T: Real + ApproxEq>(segments: Vec<LineSegment<T>>) -> (r: Intersections<
    T,
>)
    ensures
        r.inner.wf(),
        r.inner.variant is NoTrapezoids,
        r.inner.edges.edges@.len() == algorithm::kept(segments@).len(),
        forall|i: int|
            0 <= i < r.inner.edges.edges@.len() ==> algorithm::fresh_edge(
                #[trigger] r.inner.edges.edges@[i],
                (i + 1) as usize,
                algorithm::kept(segments@)[i],
            ),
        r.inner.queue().len() == r.inner.edges.edges@.len(),
        forall|i: int|
            0 <= i < r.inner.queue().len() ==> #[trigger] r.inner.queue()[i]
                == r.inner.edges.edges@[i].start_event_spec(),
        r.inner.sweep_line.active@ == Seq::<usize>::empty(),
        r.inner.sweep_line.leftovers@ == Seq::<usize>::empty(),
        r.inner.sweep_line.current_y == T::min_value_spec(),
        r.budget == usize::MAX,
{
    Intersections { inner: Algorithm::new(segments, None), budget: usize::MAX }
}

/// Rasterizes the polygon defined by the edges into trapezoids.
pub fn trapezoids<T: Real + ApproxEq>(segments: Vec<LineSegment<T>>, fill_rule: FillRule) -> (r:
    Trapezoids<T>)
    ensures
        Trapezoids::set_out(&r.inner, segments@, fill_rule),
        r.inner.wf(),
        r.inner.variant matches algorithm::Variant::Trapezoids(t) && t.fill_rule == fill_rule
            && !t.fused_leftovers && t.trapezoids@.len() == 0 && t.budget == usize::MAX,
        r.inner.edges.edges@.len() == algorithm::kept(segments@).len(),
        forall|i: int|
            0 <= i < r.inner.edges.edges@.len() ==> algorithm::fresh_edge(
                #[trigger] r.inner.edges.edges@[i],
                (i + 1) as usize,
                algorithm::kept(segments@)[i],
            ),
        r.inner.queue().len() == r.inner.edges.edges@.len(),
        forall|i: int|
            0 <= i < r.inner.queue().len() ==> #[trigger] r.inner.queue()[i]
                == r.inner.edges.edges@[i].start_event_spec(),
        r.inner.sweep_line.active@ == Seq::<usize>::empty(),
        r.inner.sweep_line.leftovers@ == Seq::<usize>::empty(),
        r.inner.sweep_line.current_y == T::min_value_spec(),
{
    Trapezoids { inner: Algorithm::new(segments, Some(fill_rule)) }
}

impl<T: Real + ApproxEq> BentleyOttmann<T> {
    /// The next event of the sweep, or none when it has ended.
    pub fn next(&mut self) -> (r: Option<Event<T>>)
        requires
            old(self).inner.wf(),
        ensures
            Algorithm::stepped(&old(self).inner, &final(self).inner, r),
            final(self).inner.wf(),
            old(self).inner.edges.same_geometry(&final(self).inner.edges),
            r matches Some(ev) ==> valid_event(&final(self).inner.edges, ev),
    {
        self.inner.next_event()
    }

    /// Bounds on the number of events that are still to come: the number
    /// of events in the queue, and three times that number where the
    /// machine can count so far.
    pub fn size_hint(&self) -> (r: (usize, Option<usize>))
        ensures
            r.0 == self.inner.queue().len(),
            r.1 == (if self.inner.queue().len() * 3 <= usize::MAX {
                Some((self.inner.queue().len() * 3) as usize)
            } else {
                None
            }),
    {
        let heap_len = self.inner.queue_len();
        (heap_len, heap_len.checked_mul(3))
    }
}

impl<T: Real + ApproxEq> Intersections<T> {
    /// `post` is what the sweep `pre` becomes in `n` steps, each of which
    /// returns an event that is not an intersection.
    pub open spec fn passed_over(pre: &Algorithm<T>, post: &Algorithm<T>, n: nat) -> bool
        decreases n,
    {
        if n == 0 {
            Algorithm::unchanged(pre, post)
        } else {
            exists|mid: Algorithm<T>, ev: Event<T>|
                Self::passed_over(pre, &mid, (n - 1) as nat) && #[trigger] Algorithm::stepped(
                    &mid,
                    post,
                    Some(ev),
                ) && !(ev.event_type is Intersection)
        }
    }

    /// The search that set out with `budget` steps to spend and passed
    /// over `n` events ends at the state `mid` of the sweep with the result
    /// `r`: those steps were the whole budget and nothing is found, or the
    /// sweep takes one more step, which returns nothing or an intersection
    /// event at the point that is found. Every step taken is paid for.
    pub open spec fn concluded(
        mid: &Algorithm<T>,
        budget: usize,
        n: nat,
        post: &Self,
        r: Option<Point<T>>,
    ) -> bool {
        ||| r.is_none() && budget == n && post.budget == 0 && Algorithm::unchanged(
            mid,
            &post.inner,
        )
        ||| budget > n && post.budget == budget - n - 1 && exists|last: Option<Event<T>>|
            {
                &&& #[trigger] Algorithm::stepped(mid, &post.inner, last)
                &&& match last {
                    None => r.is_none(),
                    Some(ev) => ev.event_type is Intersection && r == Some(ev.point)
                        && valid_event(&post.inner.edges, ev),
                }
            }
    }

    /// The point of the next intersection event of the sweep, or none when
    /// the sweep has ended or the budget is used up. Each step of the sweep
    /// takes one from the budget.
    pub fn next(&mut self) -> (r: Option<Point<T>>)
        requires
            old(self).inner.wf(),
        ensures
            final(self).inner.wf(),
            old(self).inner.edges.same_geometry(&final(self).inner.edges),
            exists|n: nat, mid: Algorithm<T>|
                #[trigger] Self::passed_over(&old(self).inner, &mid, n) && Self::concluded(
                    &mid,
                    old(self).budget,
                    n,
                    final(self),
                    r,
                ),
    {
        let ghost mut n: nat = 0;
        proof {
            self.inner.edges.lemma_same_geometry_refl();
        }
        loop
            invariant
                self.inner.wf(),
                old(self).inner.edges.same_geometry(&self.inner.edges),
                Self::passed_over(&old(self).inner, &self.inner, n),
                self.budget + n == old(self).budget,
            decreases self.budget,
        {
            let ghost start = self.inner;
            if self.budget == 0 {
                proof {
                    assert(Self::concluded(&start, old(self).budget, n, self, None));
                }
                return None;
            }
            self.budget = self.budget - 1;
            let next = self.inner.next_event();
            proof {
                old(self).inner.edges.lemma_same_geometry_trans(&start.edges, &self.inner.edges);
            }
            match next {
                None => {
                    proof {
                        assert(Algorithm::stepped(&start, &self.inner, None));
                        assert(Self::concluded(&start, old(self).budget, n, self, None));
                    }
                    return None;
                },
                Some(event) => {
                    if let EventType::Intersection { .. } = event.event_type {
                        proof {
                            assert(Algorithm::stepped(&start, &self.inner, Some(event)));
                            assert(Self::concluded(
                                &start,
                                old(self).budget,
                                n,
                                self,
                                Some(event.point),
                            ));
                        }
                        return Some(event.point);
                    }
                    proof {
                        assert(Self::passed_over(&old(self).inner, &start, ((n + 1) - 1) as nat)
                            && Algorithm::stepped(&start, &self.inner, Some(event)));
                        n = n + 1;
                    }
                },
            }
        }
    }
}

impl<T: Real + ApproxEq> Intersections<T> {
    /// Bounds on the number of points that are still to come: none, and
    /// three times the number of events in the queue where the machine can
    /// count so far.
    pub fn size_hint(&self) -> (r: (usize, Option<usize>))
        ensures
            r.0 == 0,
            r.1 == (if self.inner.queue().len() * 3 <= usize::MAX {
                Some((self.inner.queue().len() * 3) as usize)
            } else {
                None
            }),
    {
        (0, self.inner.queue_len().checked_mul(3))
    }
}

impl<T: Real + ApproxEq> Trapezoids<T> {
    /// The tessellation `start` stands at its beginning over the given
    /// segments: those that are not horizontal are its edges, in order, the
    /// queue holds their start events, the lists and the buffer are empty
    /// and the whole budget is left.
    pub open spec fn set_out(
        start: &Algorithm<T>,
        segments: Seq<LineSegment<T>>,
        fill_rule: FillRule,
    ) -> bool {
        &&& start.wf()
        &&& start.variant matches algorithm::Variant::Trapezoids(t) && t.fill_rule == fill_rule
            && !t.fused_leftovers && t.trapezoids@.len() == 0 && t.budget == usize::MAX
        &&& start.edges.edges@.len() == algorithm::kept(segments).len()
        &&& forall|i: int|
            0 <= i < start.edges.edges@.len() ==> algorithm::fresh_edge(
                #[trigger] start.edges.edges@[i],
                (i + 1) as usize,
                algorithm::kept(segments)[i],
            )
        &&& start.queue().len() == start.edges.edges@.len()
        &&& forall|i: int|
            0 <= i < start.queue().len() ==> #[trigger] start.queue()[i]
                == start.edges.edges@[i].start_event_spec()
        &&& start.sweep_line.active@ == Seq::<usize>::empty()
        &&& start.sweep_line.leftovers@ == Seq::<usize>::empty()
        &&& start.sweep_line.current_y == T::min_value_spec()
    }

    /// `post` is what the tessellation `pre` becomes while it hands out the
    /// trapezoids `given`, one after the other: before each it takes the
    /// rounds that it needs to have one in its buffer.
    pub open spec fn gave(pre: &Algorithm<T>, post: &Algorithm<T>, given: Seq<Trapezoid<T>>) -> bool
        decreases given.len(),
    {
        if given.len() == 0 {
            Algorithm::unchanged(pre, post)
        } else {
            exists|before: Algorithm<T>, n: nat, mid: Algorithm<T>|
                Self::gave(pre, &before, given.drop_last()) && #[trigger] Algorithm::progressed_in(
                    &before,
                    &mid,
                    n,
                ) && Algorithm::handed_out(&mid, post) && given.last() == mid.variant.buffer()[0]
        }
    }

    /// The trapezoids `given` are all that the tessellation `pre` has to
    /// give: it hands them out one after the other, and after some more
    /// rounds it is finished.
    pub open spec fn exhausted(pre: &Algorithm<T>, given: Seq<Trapezoid<T>>) -> bool {
        exists|end: Algorithm<T>, last: Algorithm<T>, n: nat|
            Self::gave(pre, &end, given) && #[trigger] Algorithm::progressed_in(&end, &last, n)
                && last.finished()
    }

    /// All the trapezoids of the tessellation that are still to come, in
    /// their order.
    pub fn collect(self) -> (r: Vec<Trapezoid<T>>)
        requires
            self.inner.wf(),
            self.inner.variant is Trapezoids,
        ensures
            Self::exhausted(&self.inner, r@),
            forall|i: int| 0 <= i < r@.len() ==> (#[trigger] r@[i]).valid(),
    {
        let mut sweep = self;
        let mut out: Vec<Trapezoid<T>> = Vec::new();
        loop
            invariant
                sweep.inner.wf(),
                sweep.inner.variant is Trapezoids,
                Self::gave(&self.inner, &sweep.inner, out@),
                forall|i: int| 0 <= i < out@.len() ==> (#[trigger] out@[i]).valid(),
            decreases sweep.inner.rounds_left(), sweep.inner.variant.buffer().len(),
        {
            let ghost before = sweep.inner;
            let ghost given = out@;
            match sweep.next() {
                Some(trapezoid) => {
                    out.push(trapezoid);
                    proof {
                        assert(out@.drop_last() =~= given);
                        assert(out@.last() == trapezoid);
                        let (n, mid) = choose|n: nat, mid: Algorithm<T>|
                            #[trigger] Algorithm::progressed_in(&before, &mid, n)
                                && Algorithm::handed_out(&mid, &sweep.inner) && trapezoid
                                == mid.variant.buffer()[0] && before.rounds_left()
                                == sweep.inner.rounds_left() + n;
                        assert(Self::gave(&self.inner, &before, out@.drop_last())
                            && Algorithm::progressed_in(&before, &mid, n) && Algorithm::handed_out(
                            &mid,
                            &sweep.inner,
                        ) && out@.last() == mid.variant.buffer()[0]);
                    }
                },
                None => {
                    return out;
                },
            }
        }
    }

    /// The next trapezoid of the tessellation, or none when it has ended.
    pub fn next(&mut self) -> (r: Option<Trapezoid<T>>)
        requires
            old(self).inner.wf(),
            old(self).inner.variant is Trapezoids,
        ensures
            final(self).inner.wf(),
            final(self).inner.variant is Trapezoids,
            old(self).inner.edges.same_geometry(&final(self).inner.edges),
            match r {
                Some(t) => t.valid() && exists|n: nat, mid: Algorithm<T>|
                    #[trigger] Algorithm::progressed_in(&old(self).inner, &mid, n)
                        && Algorithm::handed_out(&mid, &final(self).inner) && t
                        == mid.variant.buffer()[0]
                        && old(self).inner.rounds_left() == final(self).inner.rounds_left() + n,
                None => final(self).inner.finished() && exists|n: nat| #[trigger]
                    Algorithm::progressed_in(&old(self).inner, &final(self).inner, n)
                        && old(self).inner.rounds_left() == final(self).inner.rounds_left() + n,
            },
            old(self).inner.finished() ==> r.is_none(),
    {
        self.inner.next_trapezoid()
    }

    /// Bounds on the number of trapezoids that are still to come: the
    /// number of trapezoids in the buffer, and that number plus twice the
    /// number of events in the queue, as far as the machine can count.
    pub fn size_hint(&self) -> (r: (usize, Option<usize>))
        ensures
            r.0 == self.inner.variant.buffer().len(),
            r.1 == Some(
                if self.inner.variant.buffer().len() + 2 * self.inner.queue().len()
                    <= usize::MAX {
                    (self.inner.variant.buffer().len() + 2 * self.inner.queue().len()) as usize
                } else {
                    usize::MAX
                },
            ),
    {
        let traps = self.inner.trapezoid_len();
        let upper = match self.inner.queue_len().checked_mul(2) {
            Some(twice) => match traps.checked_add(twice) {
                Some(sum) => sum,
                None => usize::MAX,
            },
            None => usize::MAX,
        };
        (traps, Some(upper))
    }
}

} // verus!
