//! The sweep-line engine.
//!
//! The sweep visits the end points and crossings of the edges from the top
//! down and, at equal height, from left to right. It keeps the edges that
//! cross the sweep line in a list ordered from left to right, the active
//! set; neighbours in that list are tested for crossings, and between
//! pairs of them trapezoids are built as the sweep advances.

pub mod edge;
pub mod events;
pub mod handlers;
pub mod linked_list;
pub mod priority_queue;
pub mod sweep_line;
pub mod tessellate;

pub use events::{crossing_event, intersection_event, spurious, valid_event};

use crate::bentley_ottman::{Event, EventType};
use crate::line::{Line, LineSegment};
use crate::num::{lt, Real};
use crate::point::offset_spec;
use crate::trapezoid::Trapezoid;
use crate::{ApproxEq, FillRule};
use edge::{BoEdge, Edges};
use events::{lemma_queue_remove, lemma_valid_event_frame, no_other, queue_ok, skip_spurious};
use priority_queue::{is_next, lemma_next_is_unique, next_index, PriorityQueue};
use sweep_line::SweepLine;
use vstd::prelude::*;

verus! {

/// The state that the trapezoid variant of the sweep keeps.
pub struct Trapezoids<T: Copy> {
    /// The completed trapezoids that have not been handed out yet, oldest
    /// first.
    pub trapezoids: Vec<Trapezoid<T>>,
    /// Have the trapezoids of the last leftovers been completed yet?
    pub fused_leftovers: bool,
    /// The fill rule we use to create traps.
    pub fill_rule: FillRule,
    /// The number of rounds that the tessellation may still take to fill
    /// its buffer. It starts at the greatest number that the machine can
    /// count to, and the tessellation ends when it is used up.
    pub budget: usize,
}

/// The variant of the algorithm we are using.
pub enum Variant<T: Copy> {
    /// We are not concerned about trapezoids in this algorithm.
    NoTrapezoids,
    /// We are concerned about trapezoids in this algorithm.
    Trapezoids(Trapezoids<T>),
}

/// The internal algorithm used to compute intersections and,
/// potentially, trapezoids.
pub struct Algorithm<T: Copy> {
    /// The list of edges to be used in the algorithm.
    pub edges: Edges<T>,
    /// The priority queue of events.
    pub event_queue: PriorityQueue<T>,
    /// The sweep line.
    ///
    /// This contains the current Y coordinate as well as the list of
    /// active edges.
    pub sweep_line: SweepLine<T>,
    /// The variant of the algorithm to use.
    pub variant: Variant<T>,
}

/// The line through the end points of a segment.
pub open spec fn line_of<T: Real>(s: LineSegment<T>) -> Line<T> {
    Line { origin: s.from, direction: offset_spec(s.to, s.from) }
}

/// The segments that take part in the sweep: those that are not
/// horizontal, in the order in which they were given.
pub open spec fn kept<T: Real + ApproxEq>(segments: Seq<LineSegment<T>>) -> Seq<LineSegment<T>>
    decreases segments.len(),
{
    if segments.len() == 0 {
        Seq::empty()
    } else {
        let earlier = kept(segments.drop_last());
        if line_of(segments.last()).horizontal() {
            earlier
        } else {
            earlier.push(segments.last())
        }
    }
}

/// `e` is the edge that the segment `s` makes under the handle `id`, as it
/// is before the sweep has touched it.
pub open spec fn fresh_edge<T: Real + ApproxEq>(e: BoEdge<T>, id: usize, s: LineSegment<T>) -> bool {
    &&& e.wf()
    &&& e.id == id
    &&& e.edge.line() == line_of(s)
    &&& e.edge.top() == (if lt(s.from.y, s.to.y) {
        s.from.y
    } else {
        s.to.y
    })
    &&& e.edge.bottom() == (if lt(s.from.y, s.to.y) {
        s.to.y
    } else {
        s.from.y
    })
    &&& e.prev.is_none()
    &&& e.next.is_none()
    &&& e.trapezoid.is_none()
}

impl<T: Real + ApproxEq> Variant<T> {
    /// The trapezoids that wait to be handed out; none in the variant that
    /// builds none.
    pub open spec fn buffer(&self) -> Seq<Trapezoid<T>> {
        match self {
            Variant::NoTrapezoids => Seq::empty(),
            Variant::Trapezoids(t) => t.trapezoids@,
        }
    }

    /// The variant for the given fill rule, or the one without trapezoids
    /// where there is none.
    pub fn new(fill_rule: Option<FillRule>) -> (r: Self)
        ensures
            r.buffer() == Seq::<Trapezoid<T>>::empty(),
            match fill_rule {
                None => r is NoTrapezoids,
                Some(rule) => r matches Variant::Trapezoids(t) && t.fill_rule == rule
                    && !t.fused_leftovers && t.budget == usize::MAX,
            },
    {
        match fill_rule {
            None => Variant::NoTrapezoids,
            Some(rule) => Variant::Trapezoids(
                Trapezoids {
                    trapezoids: Vec::new(),
                    fused_leftovers: false,
                    fill_rule: rule,
                    budget: usize::MAX,
                },
            ),
        }
    }
}

impl<T: Real + ApproxEq> Algorithm<T> {
    /// The events that wait in the queue.
    pub open spec fn queue(&self) -> Seq<Event<T>> {
        self.event_queue@
    }

    /// The state of the sweep is consistent.
    ///
    /// The edge store and both lists of the sweep line are well formed,
    /// and an edge that is in neither list has no links.
    /// Every event in the queue is valid. No edge has two start events or
    /// two stop events in the queue. An edge whose start event waits is in
    /// neither list, and an edge whose stop event waits is active. Every
    /// trapezoid in the buffer is valid.
    pub open spec fn wf(&self) -> bool {
        &&& self.edges.wf()
        &&& self.sweep_line.wf(&self.edges)
        &&& self.sweep_line.tidy(&self.edges)
        &&& queue_ok(
            &self.edges,
            self.sweep_line.active@,
            self.sweep_line.leftovers@,
            self.queue(),
        )
        &&& forall|i: int|
            0 <= i < self.variant.buffer().len() ==> (#[trigger] self.variant.buffer()[i]).valid()
    }

    /// Create a new algorithm.
    ///
    /// The horizontal segments are dropped. Every other segment becomes an
    /// edge, and its start event is put in the queue.
    pub fn new(segments: Vec<LineSegment<T>>, fill_rule: Option<FillRule>) -> (r: Self)
        ensures
            r.wf(),
            r.edges.edges@.len() == kept(segments@).len(),
            forall|i: int|
                0 <= i < r.edges.edges@.len() ==> fresh_edge(
                    #[trigger] r.edges.edges@[i],
                    (i + 1) as usize,
                    kept(segments@)[i],
                ),
            r.queue().len() == r.edges.edges@.len(),
            forall|i: int|
                0 <= i < r.queue().len() ==> #[trigger] r.queue()[i]
                    == r.edges.edges@[i].start_event_spec(),
            r.sweep_line.active@ == Seq::<usize>::empty(),
            r.sweep_line.leftovers@ == Seq::<usize>::empty(),
            r.sweep_line.current_y == T::min_value_spec(),
            r.variant.buffer() == Seq::<Trapezoid<T>>::empty(),
            match fill_rule {
                None => r.variant is NoTrapezoids,
                Some(rule) => r.variant matches Variant::Trapezoids(t) && t.fill_rule == rule
                    && !t.fused_leftovers && t.budget == usize::MAX,
            },
    {
        // collect the edges into a vector
        let mut edges: Vec<BoEdge<T>> = Vec::new();
        let mut events: Vec<Event<T>> = Vec::new();
        let mut i: usize = 0;
        while i < segments.len()
            invariant
                0 <= i <= segments@.len(),
                edges@.len() == kept(segments@.subrange(0, i as int)).len(),
                edges@.len() <= i,
                events@.len() == edges@.len(),
                forall|k: int|
                    0 <= k < edges@.len() ==> fresh_edge(
                        #[trigger] edges@[k],
                        (k + 1) as usize,
                        kept(segments@.subrange(0, i as int))[k],
                    ),
                forall|k: int|
                    0 <= k < events@.len() ==> #[trigger] events@[k]
                        == edges@[k].start_event_spec(),
            decreases segments@.len() - i,
        {
            proof {
                let upto = segments@.subrange(0, i + 1);
                assert(upto.drop_last() == segments@.subrange(0, i as int));
                assert(upto.last() == segments@[i as int]);
            }
            match segments[i].try_into_nh() {
                Ok(segment) => {
                    let edge = BoEdge::from_edge(segment, edges.len() + 1);
                    events.push(edge.start_event());
                    edges.push(edge);
                },
                Err(_) => {},
            }
            i += 1;
        }
        proof {
            assert(segments@.subrange(0, segments@.len() as int) == segments@);
        }
        let r = Algorithm {
            edges: Edges::from_vec(edges),
            // begin a queue consisting of the start events for every edge
            event_queue: PriorityQueue::from_vec(events),
            sweep_line: SweepLine::new(),
            variant: Variant::new(fill_rule),
        };
        proof {
            assert(r.sweep_line.wf(&r.edges));
            let q = r.queue();
            assert forall|k: int| 0 <= k < q.len() implies valid_event(&r.edges, #[trigger] q[k]) by {
                assert(fresh_edge(r.edges.edges@[k], (k + 1) as usize, kept(segments@)[k]));
            }
            assert forall|a: int, b: int|
                0 <= a < q.len() && 0 <= b < q.len() && a != b && (#[trigger] q[a]).event_type
                    == (#[trigger] q[b]).event_type && !(q[a].event_type is Intersection) implies q[a].edge_id
                != q[b].edge_id by {
                assert(fresh_edge(r.edges.edges@[a], (a + 1) as usize, kept(segments@)[a]));
                assert(fresh_edge(r.edges.edges@[b], (b + 1) as usize, kept(segments@)[b]));
            }
        }
        r
    }

    /// Get the length of the queue of events.
    pub fn queue_len(&self) -> (r: usize)
        ensures
            r == self.queue().len(),
    {
        self.event_queue.len()
    }

    /// From `pre` to `post` the edges have kept their geometry.
    pub open spec fn steady(pre: &Self, post: &Self) -> bool {
        pre.edges.same_geometry(&post.edges)
    }

    /// `post` is `pre`.
    pub open spec fn unchanged(pre: &Self, post: &Self) -> bool {
        &&& post.edges == pre.edges
        &&& post.sweep_line == pre.sweep_line
        &&& post.event_queue == pre.event_queue
        &&& post.variant == pre.variant
    }

    /// `post` is `pre` with another queue, and nothing else changed.
    pub open spec fn only_queue_changed(pre: &Self, post: &Self) -> bool {
        &&& post.edges == pre.edges
        &&& post.sweep_line == pre.sweep_line
        &&& post.variant == pre.variant
    }

    /// Pop the next event that is not spurious.
    pub fn pop_event(&mut self) -> (r: Option<Event<T>>)
        requires
            old(self).wf(),
        ensures
            (r, final(self).queue()) == skip_spurious(&old(self).edges, old(self).queue()),
            Self::only_queue_changed(old(self), final(self)),
            final(self).wf(),
            r matches Some(ev) ==> {
                &&& valid_event(&final(self).edges, ev)
                &&& !spurious(&final(self).edges, ev)
                &&& ev.event_type is Start ==> !final(self).sweep_line.active@.contains(ev.edge_id)
                    && !final(self).sweep_line.leftovers@.contains(ev.edge_id)
                &&& ev.event_type is Stop ==> final(self).sweep_line.active@.contains(ev.edge_id)
                &&& !(ev.event_type is Intersection) ==> no_other(final(self).queue(), ev)
            },
    {
        loop
            invariant
                self.wf(),
                Self::only_queue_changed(old(self), self),
                skip_spurious(&old(self).edges, self.queue()) == skip_spurious(
                    &old(self).edges,
                    old(self).queue(),
                ),
            decreases self.queue().len(),
        {
            let ghost q = self.queue();
            let event = match self.event_queue.pop() {
                Some(event) => event,
                None => {
                    return None;
                },
            };
            proof {
                let i = choose|i: int|
                    is_next(q, i) && event == q[i] && self.queue() == q.remove(i);
                lemma_next_is_unique(q, i, next_index(q));
                lemma_queue_remove(
                    &self.edges,
                    self.sweep_line.active@,
                    self.sweep_line.leftovers@,
                    q,
                    i,
                );
            }

            // the event may be a spurious edgepoint intersection, ignore it
            let is_spurious = match event.event_type {
                EventType::Intersection { .. } => {
                    let edge = self.edges.get(event.edge_id);
                    event.point.approx_eq(&edge.lowest_y()) || event.point.approx_eq(
                        &edge.highest_y(),
                    )
                },
                _ => false,
            };
            if !is_spurious {
                return Some(event);
            }
        }
    }

    /// `post` is `pre` with the queue `rest`.
    pub open spec fn popped(pre: &Self, post: &Self, rest: Seq<Event<T>>) -> bool {
        &&& post.edges == pre.edges
        &&& post.sweep_line == pre.sweep_line
        &&& post.variant == pre.variant
        &&& post.queue() == rest
    }

    /// `post` is `pre` with the sweep line at the height `y`.
    pub open spec fn lifted(pre: &Self, post: &Self, y: T) -> bool {
        &&& post.edges == pre.edges
        &&& post.event_queue == pre.event_queue
        &&& post.variant == pre.variant
        &&& post.sweep_line.active == pre.sweep_line.active
        &&& post.sweep_line.leftovers == pre.sweep_line.leftovers
        &&& post.sweep_line.current_y == y
    }

    /// `post` is what the sweep `pre` becomes when it handles the event.
    pub open spec fn handled(pre: &Self, post: &Self, ev: Event<T>) -> bool {
        match ev.event_type {
            EventType::Start => Self::started(pre, post, ev),
            EventType::Stop => Self::stopped(pre, post, ev),
            EventType::Intersection { .. } => Self::crossed(pre, post, ev),
        }
    }

    /// `post` is what the sweep `pre` becomes when it visits the event:
    /// it completes the trapezoids of the height that it leaves, moves the
    /// sweep line to the height of the event and handles the event.
    pub open spec fn visited(pre: &Self, post: &Self, ev: Event<T>) -> bool {
        exists|b: Self, c: Self|
            {
                &&& #[trigger] Self::advanced(pre, &b, ev.point.y)
                &&& #[trigger] Self::lifted(&b, &c, ev.point.y)
                &&& Self::handled(&c, post, ev)
            }
    }

    /// `post` and `r` are what one step makes of the sweep `pre`.
    ///
    /// The sweep pops events until one is not spurious. With none left it
    /// returns nothing. Else it visits the event and returns it.
    pub open spec fn stepped(pre: &Self, post: &Self, r: Option<Event<T>>) -> bool {
        let (first, rest) = skip_spurious(&pre.edges, pre.queue());
        &&& r == first
        &&& match first {
            None => Self::popped(pre, post, rest),
            Some(ev) => exists|a: Self|
                #[trigger] Self::popped(pre, &a, rest) && Self::visited(&a, post, ev),
        }
    }

    /// Handles the event according to its type.
    pub fn dispatch(&mut self, event: &Event<T>)
        requires
            old(self).wf(),
            valid_event(&old(self).edges, *event),
            event.event_type is Start ==> !old(self).sweep_line.active@.contains(event.edge_id)
                && !old(self).sweep_line.leftovers@.contains(event.edge_id),
            event.event_type is Stop ==> old(self).sweep_line.active@.contains(event.edge_id),
            !(event.event_type is Intersection) ==> no_other(old(self).queue(), *event),
        ensures
            Self::handled(old(self), final(self), *event),
            final(self).wf(),
            Self::steady(old(self), final(self)),
    {
        match event.event_type {
            EventType::Start => {
                self.handle_start_event(event);
            },
            EventType::Stop => {
                self.handle_stop_event(event);
            },
            EventType::Intersection { .. } => {
                self.handle_intersection_event(event);
            },
        }
    }

    /// Visits an event that has left the queue.
    #[verifier::spinoff_prover]
    pub fn visit(&mut self, event: &Event<T>)
        requires
            old(self).wf(),
            valid_event(&old(self).edges, *event),
            event.event_type is Start ==> !old(self).sweep_line.active@.contains(event.edge_id)
                && !old(self).sweep_line.leftovers@.contains(event.edge_id),
            event.event_type is Stop ==> old(self).sweep_line.active@.contains(event.edge_id),
            !(event.event_type is Intersection) ==> no_other(old(self).queue(), *event),
        ensures
            Self::visited(old(self), final(self), *event),
            final(self).wf(),
            Self::steady(old(self), final(self)),
    {
        // if the Y coordinate is the same as the last Y coordinate,
        // we need to emit one or more trapezoids
        self.increment_y(event.point.y());
        let ghost b = *self;
        proof {
            lemma_valid_event_frame(&old(self).edges, &b.edges, *event);
        }
        self.sweep_line.set_current_y(event.point.y());
        let ghost c = *self;
        self.dispatch(event);
        proof {
            assert(Self::advanced(old(self), &b, event.point.y));
            assert(Self::lifted(&b, &c, event.point.y));
            assert(Self::handled(&c, self, *event));
            old(self).edges.lemma_same_geometry_trans(&c.edges, &self.edges);
        }
    }

    /// Get the next event in the algorithm.
    #[verifier::spinoff_prover]
    pub fn next_event(&mut self) -> (r: Option<Event<T>>)
        requires
            old(self).wf(),
        ensures
            Self::stepped(old(self), final(self), r),
            final(self).wf(),
            old(self).edges.same_geometry(&final(self).edges),
            r matches Some(ev) ==> valid_event(&final(self).edges, ev),
    {
        proof {
            self.edges.lemma_same_geometry_refl();
        }
        // pop an event from the event queue
        let event = match self.pop_event() {
            Some(event) => event,
            None => {
                proof {
                    let (first, rest) = skip_spurious(&old(self).edges, old(self).queue());
                    assert(first.is_none());
                    assert(rest == self.queue());
                    assert(Self::popped(old(self), self, rest));
                }
                return None;
            },
        };
        let ghost a = *self;
        self.visit(&event);
        proof {
            let (first, rest) = skip_spurious(&old(self).edges, old(self).queue());
            assert(first == Some(event));
            assert(rest == a.queue());
            assert(Self::popped(old(self), &a, rest));
            assert(Self::visited(&a, self, event));
            lemma_valid_event_frame(&a.edges, &self.edges, event);
        }
        Some(event)
    }
}

} // verus!
