//! What the sweep does at each kind of event.

use super::edge::{lemma_links_keep_edges, Edges};
use super::events::{
    crossing_of, intersection_event, lemma_queue_frame, lemma_queue_push, no_other, pushed,
    valid_event,
};
use super::linked_list::{
    after_in, before_in, lemma_inserted, lemma_moved, lemma_swapped_holds_same, links_changed,
    relinked, swapped,
};
use super::sweep_line::is_slot;
use super::Algorithm;
use crate::bentley_ottman::Event;
use crate::num::Real;
use crate::ApproxEq;
use vstd::prelude::*;

verus! {

/// The crossing events around an edge depend on the geometry of the edges
/// alone.
pub proof fn lemma_crossings_frame<T: Real + ApproxEq>(
    before: &Edges<T>,
    after: &Edges<T>,
    order: Seq<usize>,
    q: Seq<Event<T>>,
    center: usize,
)
    requires
        before.same_geometry(after),
        before.has(center),
        forall|i: int| 0 <= i < order.len() ==> before.has(#[trigger] order[i]),
    ensures
        Algorithm::with_crossings_around(before, order, q, center)
            == Algorithm::with_crossings_around(after, order, q, center),
{
    assert(before.edges@[center - 1].same_geometry(&after.edges@[center - 1]));
    if let Some(p) = before_in(order, center) {
        assert(before.has(order[order.index_of(center) - 1]));
        assert(before.edges@[p - 1].same_geometry(&after.edges@[p - 1]));
    }
    if let Some(n) = after_in(order, center) {
        assert(before.has(order[order.index_of(center) + 1]));
        assert(before.edges@[n - 1].same_geometry(&after.edges@[n - 1]));
    }
}

impl<T: Real + ApproxEq> Algorithm<T> {
    /// The queue once the edge `center` of the list `order` has been
    /// tested for a crossing with the edge ahead of it and then with the
    /// edge behind it.
    pub open spec fn with_crossings_around(
        all: &Edges<T>,
        order: Seq<usize>,
        q: Seq<Event<T>>,
        center: usize,
    ) -> Seq<Event<T>> {
        pushed(
            pushed(q, crossing_of(all, before_in(order, center), Some(center))),
            crossing_of(all, Some(center), after_in(order, center)),
        )
    }

    /// Tests the active edge `center` for a crossing with each of its
    /// neighbours, and pushes the events of those that it finds.
    #[verifier::spinoff_prover]
    pub fn enqueue_crossings_around(&mut self, center: usize)
        requires
            old(self).wf(),
            old(self).sweep_line.active@.contains(center),
        ensures
            final(self).queue() == Self::with_crossings_around(
                &old(self).edges,
                old(self).sweep_line.active@,
                old(self).queue(),
                center,
            ),
            Self::only_queue_changed(old(self), final(self)),
            final(self).wf(),
            Self::steady(old(self), final(self)),
    {
        let ghost s = self.sweep_line.active@;
        let ghost l = self.sweep_line.leftovers@;
        let ghost q = self.queue();
        proof {
            self.sweep_line.active.lemma_neighbours(&self.edges, center);
            self.edges.lemma_same_geometry_refl();
        }
        let prev = self.edges.get(center).prev();
        let next = self.edges.get(center).next();
        let first = match prev {
            Some(prev) => intersection_event(self.edges.get(prev), self.edges.get(center)),
            None => None,
        };
        let second = match next {
            Some(next) => intersection_event(self.edges.get(center), self.edges.get(next)),
            None => None,
        };
        proof {
            assert(self.edges.edges@[center - 1].id == center);
            if let Some(p) = prev {
                assert(self.edges.edges@[p - 1].id == p);
            }
            if let Some(n) = next {
                assert(self.edges.edges@[n - 1].id == n);
            }
            let q1 = pushed(q, first);
            if let Some(ev) = first {
                lemma_queue_push(&self.edges, s, l, q, ev);
            }
            if let Some(ev) = second {
                lemma_queue_push(&self.edges, s, l, q1, ev);
            }
        }
        if let Some(found) = first {
            self.event_queue.push(found);
        }
        if let Some(found) = second {
            self.event_queue.push(found);
        }
    }

    /// `post` is what the sweep `pre` becomes when the edge of a start
    /// event enters it: the edge goes into the active list at its place,
    /// and its stop event is pushed.
    pub open spec fn entered(pre: &Self, post: &Self, ev: Event<T>) -> bool {
        let e = ev.edge_id;
        let s = pre.sweep_line.active@;
        &&& exists|k: int|
            is_slot(s, &pre.edges, e, pre.sweep_line.current_y, k) && post.sweep_line.active@
                == s.insert(k, e)
        &&& post.sweep_line.leftovers == pre.sweep_line.leftovers
        &&& post.sweep_line.current_y == pre.sweep_line.current_y
        &&& post.queue() == pre.queue().push(pre.edges.at(e).stop_event_spec())
        &&& links_changed(&pre.edges, &post.edges, s.to_set().insert(e))
        &&& post.variant == pre.variant
    }

    /// Puts the edge of a start event into the active list and pushes its
    /// stop event.
    #[verifier::spinoff_prover]
    pub fn enter_edge(&mut self, event: &Event<T>)
        requires
            old(self).wf(),
            event.event_type is Start,
            valid_event(&old(self).edges, *event),
            !old(self).sweep_line.active@.contains(event.edge_id),
            !old(self).sweep_line.leftovers@.contains(event.edge_id),
            no_other(old(self).queue(), *event),
        ensures
            Self::entered(old(self), final(self), *event),
            final(self).sweep_line.active@.contains(event.edge_id),
            final(self).wf(),
            Self::steady(old(self), final(self)),
    {
        let id = event.edge_id;
        let ghost s = self.sweep_line.active@;
        let ghost l = self.sweep_line.leftovers@;
        let ghost q = self.queue();
        // add the edge to the sweep line
        self.sweep_line.add_edge(id, &mut self.edges);
        let ghost s2 = self.sweep_line.active@;
        proof {
            lemma_links_keep_edges(&old(self).edges, &self.edges, s.to_set().insert(id));
            let k = choose|k: int|
                is_slot(s, &old(self).edges, id, old(self).sweep_line.current_y, k) && s2
                    == s.insert(k, id);
            lemma_inserted(s, k, id);
            assert forall|i: int| 0 <= i < q.len() && (#[trigger] q[i]).event_type is Stop implies s2.contains(
                q[i].edge_id,
            ) by {
                assert(s.contains(q[i].edge_id));
            }
            assert forall|i: int| 0 <= i < q.len() && (#[trigger] q[i]).event_type is Start implies !s2.contains(
                q[i].edge_id,
            ) && !l.contains(q[i].edge_id) by {
                assert(!s.contains(q[i].edge_id));
                assert(q[i].event_type == event.event_type);
            }
            lemma_queue_frame(&old(self).edges, &self.edges, s, l, s2, l, q);
        }

        // push a stop event to the event queue
        let stop = self.edges.get(id).stop_event();
        proof {
            assert(old(self).edges.edges@[id - 1].same_geometry(&self.edges.edges@[id - 1]));
            assert(self.edges.edges@[id - 1].id == id);
            assert(no_other(q, stop)) by {
                assert forall|j: int| 0 <= j < q.len() && (#[trigger] q[j]).event_type
                    == stop.event_type implies q[j].edge_id != stop.edge_id by {
                    assert(s.contains(q[j].edge_id));
                }
            }
            lemma_queue_push(&self.edges, s2, l, q, stop);
        }
        self.event_queue.push(stop);
    }

    /// `post` is what the sweep `pre` becomes when it handles the start
    /// event of an edge.
    ///
    /// The edge enters the active list and its stop event is pushed. In the
    /// variant with trapezoids the edge is joined with the leftovers. Then
    /// the edge is tested for a crossing with its neighbour on the left and
    /// with its neighbour on the right, and the crossing events are pushed.
    pub open spec fn started(pre: &Self, post: &Self, ev: Event<T>) -> bool {
        exists|a: Self, b: Self|
            {
                &&& #[trigger] Self::entered(pre, &a, ev)
                &&& #[trigger] Self::fused(&a, &b, ev.edge_id)
                &&& post.queue() == Self::with_crossings_around(
                    &b.edges,
                    b.sweep_line.active@,
                    b.queue(),
                    ev.edge_id,
                )
                &&& Self::only_queue_changed(&b, post)
            }
    }

    /// Handle a start event.
    pub fn handle_start_event(&mut self, event: &Event<T>)
        requires
            old(self).wf(),
            event.event_type is Start,
            valid_event(&old(self).edges, *event),
            !old(self).sweep_line.active@.contains(event.edge_id),
            !old(self).sweep_line.leftovers@.contains(event.edge_id),
            no_other(old(self).queue(), *event),
        ensures
            Self::started(old(self), final(self), *event),
            final(self).wf(),
            Self::steady(old(self), final(self)),
    {
        // add the edge to the sweep line and push a stop event to the
        // event queue
        self.enter_edge(event);
        let ghost a = *self;

        // if we need to, handle trapezoid generation
        self.fuse_leftover(event.edge_id);
        let ghost b = *self;
        proof {
            Self::lemma_fused_keeps_active(&a, &b, event.edge_id);
        }

        // determine if we intersect with the previous and next
        // active edges
        self.enqueue_crossings_around(event.edge_id);
        proof {
            assert(Self::entered(old(self), &a, *event) && Self::fused(&a, &b, event.edge_id));
            old(self).edges.lemma_same_geometry_trans(&a.edges, &b.edges);
            old(self).edges.lemma_same_geometry_trans(&b.edges, &self.edges);
        }
    }

    /// `post` is what the sweep `pre` becomes when it handles the stop
    /// event of an active edge.
    ///
    /// The edge leaves the active list, and goes to the end of the
    /// leftovers where it holds a partial trapezoid. Where it stood between
    /// two edges, the crossing event of those two is pushed.
    pub open spec fn stopped(pre: &Self, post: &Self, ev: Event<T>) -> bool {
        let e = ev.edge_id;
        let s = pre.sweep_line.active@;
        &&& post.sweep_line.active@ == s.remove(s.index_of(e))
        &&& post.sweep_line.leftovers@ == (if pre.edges.at(e).trapezoid.is_some() {
            pre.sweep_line.leftovers@.push(e)
        } else {
            pre.sweep_line.leftovers@
        })
        &&& post.sweep_line.current_y == pre.sweep_line.current_y
        &&& post.queue() == pushed(
            pre.queue(),
            crossing_of(&pre.edges, before_in(s, e), after_in(s, e)),
        )
        &&& links_changed(
            &pre.edges,
            &post.edges,
            s.to_set().union(pre.sweep_line.leftovers@.to_set()),
        )
        &&& post.variant == pre.variant
    }

    /// Handle a stop event.
    #[verifier::spinoff_prover]
    pub fn handle_stop_event(&mut self, event: &Event<T>)
        requires
            old(self).wf(),
            event.event_type is Stop,
            valid_event(&old(self).edges, *event),
            old(self).sweep_line.active@.contains(event.edge_id),
            no_other(old(self).queue(), *event),
        ensures
            Self::stopped(old(self), final(self), *event),
            final(self).wf(),
            Self::steady(old(self), final(self)),
    {
        let id = event.edge_id;
        let ghost s = self.sweep_line.active@;
        let ghost l = self.sweep_line.leftovers@;
        let ghost q = self.queue();
        proof {
            self.sweep_line.active.lemma_neighbours(&self.edges, id);
        }
        // remove the edge from the sweep line
        let prev = self.edges.get(id).prev();
        let next = self.edges.get(id).next();
        self.sweep_line.remove_edge(id, &mut self.edges);
        proof {
            lemma_links_keep_edges(&old(self).edges, &self.edges, s.to_set().union(l.to_set()));
            let s2 = self.sweep_line.active@;
            let l2 = self.sweep_line.leftovers@;
            lemma_moved(s, l, s2, l2, id);
            assert forall|i: int| 0 <= i < q.len() && (#[trigger] q[i]).event_type is Stop implies s2.contains(
                q[i].edge_id,
            ) by {
                assert(s.contains(q[i].edge_id));
            }
            assert forall|i: int| 0 <= i < q.len() && (#[trigger] q[i]).event_type is Start implies !s2.contains(
                q[i].edge_id,
            ) && !l2.contains(q[i].edge_id) by {
                assert(!s.contains(q[i].edge_id));
            }
            lemma_queue_frame(&old(self).edges, &self.edges, s, l, s2, l2, q);
        }

        // if we have a previous and next edge, see if they intersect
        if let (Some(prev), Some(next)) = (prev, next) {
            let intersect = intersection_event(self.edges.get(prev), self.edges.get(next));
            proof {
                assert(old(self).edges.edges@[prev - 1].same_geometry(&self.edges.edges@[prev - 1]));
                assert(old(self).edges.edges@[next - 1].same_geometry(&self.edges.edges@[next - 1]));
                assert(self.edges.edges@[prev - 1].id == prev);
                assert(self.edges.edges@[next - 1].id == next);
                if let Some(ev) = intersect {
                    lemma_queue_push(
                        &self.edges,
                        self.sweep_line.active@,
                        self.sweep_line.leftovers@,
                        q,
                        ev,
                    );
                }
            }
            if let Some(found) = intersect {
                self.event_queue.push(found);
            }
        }
    }

    /// `post` is what the sweep `pre` becomes when it handles an
    /// intersection event.
    ///
    /// The edge of the event changes places with its successor in the
    /// active list. The edge that stands ahead of it then is tested for a
    /// crossing with each of its own neighbours, first the one ahead of it,
    /// and the crossing events are pushed. An event of an edge that is not
    /// active changes nothing.
    pub open spec fn crossed(pre: &Self, post: &Self, ev: Event<T>) -> bool {
        let e = ev.edge_id;
        let s = pre.sweep_line.active@;
        let s2 = swapped(s, e);
        let other = if s.contains(e) {
            before_in(s2, e)
        } else {
            None
        };
        &&& post.sweep_line.active@ == s2
        &&& post.sweep_line.leftovers == pre.sweep_line.leftovers
        &&& post.sweep_line.current_y == pre.sweep_line.current_y
        &&& post.queue() == (match other {
            Some(other) => Self::with_crossings_around(&pre.edges, s2, pre.queue(), other),
            None => pre.queue(),
        })
        &&& links_changed(&pre.edges, &post.edges, s.to_set())
        &&& post.variant == pre.variant
    }

    /// Swaps the active edge with its successor.
    #[verifier::spinoff_prover]
    fn swap_active(&mut self, id: usize)
        requires
            old(self).wf(),
            old(self).sweep_line.active@.contains(id),
        ensures
            final(self).sweep_line.active@ == swapped(old(self).sweep_line.active@, id),
            final(self).sweep_line.leftovers == old(self).sweep_line.leftovers,
            final(self).sweep_line.current_y == old(self).sweep_line.current_y,
            final(self).event_queue == old(self).event_queue,
            links_changed(&old(self).edges, &final(self).edges, old(self).sweep_line.active@.to_set()),
            final(self).variant == old(self).variant,
            final(self).wf(),
            Self::steady(old(self), final(self)),
    {
        let ghost s = self.sweep_line.active@;
        let ghost l = self.sweep_line.leftovers@;
        let ghost q = self.queue();
        self.sweep_line.swap_edge(id, &mut self.edges);
        proof {
            let s2 = self.sweep_line.active@;
            lemma_links_keep_edges(&old(self).edges, &self.edges, s.to_set());
            lemma_swapped_holds_same(s, id);
            assert forall|i: int| 0 <= i < q.len() && (#[trigger] q[i]).event_type is Stop implies s2.contains(
                q[i].edge_id,
            ) by {
                assert(s.contains(q[i].edge_id));
            }
            assert forall|i: int| 0 <= i < q.len() && (#[trigger] q[i]).event_type is Start implies !s2.contains(
                q[i].edge_id,
            ) && !l.contains(q[i].edge_id) by {
                assert(!s.contains(q[i].edge_id));
            }
            lemma_queue_frame(&old(self).edges, &self.edges, s, l, s2, l, q);
        }
    }

    /// Handle an intersection event.
    #[verifier::spinoff_prover]
    pub fn handle_intersection_event(&mut self, event: &Event<T>)
        requires
            old(self).wf(),
            event.event_type is Intersection,
            valid_event(&old(self).edges, *event),
        ensures
            Self::crossed(old(self), final(self), *event),
            final(self).wf(),
            Self::steady(old(self), final(self)),
    {
        let id = event.edge_id;
        if !self.sweep_line.active.contains(id, &self.edges) {
            proof {
                assert forall|x: usize| #[trigger] self.edges.has(x) implies relinked(
                    &self.edges,
                    &self.edges,
                    x,
                ) by {}
                self.edges.lemma_same_geometry_refl();
            }
            return ;
        }
        // swap the edges in the sweep line

        self.swap_active(id);
        let ghost mid = *self;
        proof {
            lemma_swapped_holds_same(old(self).sweep_line.active@, id);
            self.sweep_line.active.lemma_neighbours(&self.edges, id);
        }

        // the other edge should be before the current edge in the
        // sweep line
        let other = self.edges.get(id).prev();

        if let Some(other) = other {
            // calculate intersections with the lines before and after
            self.enqueue_crossings_around(other);
            proof {
                old(self).edges.lemma_same_geometry_trans(&mid.edges, &self.edges);
                lemma_links_keep_edges(
                    &old(self).edges,
                    &mid.edges,
                    old(self).sweep_line.active@.to_set(),
                );
                lemma_crossings_frame(
                    &old(self).edges,
                    &mid.edges,
                    mid.sweep_line.active@,
                    mid.queue(),
                    other,
                );
            }
        }
    }
}

} // verus!
