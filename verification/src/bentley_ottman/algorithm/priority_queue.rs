//! The queue of the events that the sweep has yet to visit.

use crate::bentley_ottman::Event;
use crate::num::{lemma_scalar_order, lt, Real};
use core::cmp::Ordering;
use vstd::prelude::*;
use vstd::std_specs::cmp::PartialOrdSpec;

verus! {

/// The event `a` comes strictly before `b`: its point lies higher, or at
/// the same height and further left.
pub open spec fn comes_before<T: Real>(a: Event<T>, b: Event<T>) -> bool {
    lt(a.point.y, b.point.y) || (a.point.y.partial_cmp_spec(&b.point.y) == Some(Ordering::Equal)
        && lt(a.point.x, b.point.x))
}

/// The event at `i` is the next to leave the queue: no event comes before
/// it, and it comes before every event that was pushed earlier.
pub open spec fn is_next<T: Real>(events: Seq<Event<T>>, i: int) -> bool {
    &&& 0 <= i < events.len()
    &&& forall|j: int| 0 <= j < events.len() ==> !comes_before(#[trigger] events[j], events[i])
    &&& forall|j: int| 0 <= j < i ==> comes_before(events[i], #[trigger] events[j])
}

/// `comes_before` is a strict order in which being unordered is
/// transitive.
pub proof fn lemma_comes_before_is_strict_weak<T: Real>(a: Event<T>, b: Event<T>, c: Event<T>)
    ensures
        !comes_before(a, a),
        comes_before(a, b) ==> !comes_before(b, a),
        comes_before(a, b) && comes_before(b, c) ==> comes_before(a, c),
        comes_before(a, b) && !comes_before(c, b) ==> comes_before(a, c),
        !comes_before(a, b) && !comes_before(b, c) ==> !comes_before(a, c),
{
    lemma_scalar_order(a.point.y, b.point.y, c.point.y);
    lemma_scalar_order(a.point.x, b.point.x, c.point.x);
    lemma_scalar_order(b.point.y, a.point.y, c.point.y);
    lemma_scalar_order(b.point.x, a.point.x, c.point.x);
    lemma_scalar_order(c.point.y, b.point.y, a.point.y);
    lemma_scalar_order(c.point.x, b.point.x, a.point.x);
    lemma_scalar_order(a.point.y, c.point.y, b.point.y);
    lemma_scalar_order(a.point.x, c.point.x, b.point.x);
    lemma_scalar_order(b.point.y, c.point.y, a.point.y);
    lemma_scalar_order(b.point.x, c.point.x, a.point.x);
    lemma_scalar_order(c.point.y, a.point.y, b.point.y);
    lemma_scalar_order(c.point.x, a.point.x, b.point.x);
}

/// The place of the event that leaves the queue next.
pub open spec fn next_index<T: Real>(events: Seq<Event<T>>) -> int {
    choose|i: int| is_next(events, i)
}

/// A queue that holds an event has one that leaves next.
pub proof fn lemma_next_exists<T: Real>(events: Seq<Event<T>>)
    requires
        events.len() > 0,
    ensures
        is_next(events, next_index(events)),
    decreases events.len(),
{
    let n = events.len() - 1;
    let e = events[n];
    if n == 0 {
        lemma_comes_before_is_strict_weak(e, e, e);
        assert(is_next(events, 0));
    } else {
        let front = events.drop_last();
        lemma_next_exists(front);
        let i = next_index(front);
        let m = front[i];
        assert(m == events[i]);
        if comes_before(e, m) {
            assert forall|j: int| 0 <= j < events.len() implies !comes_before(
                #[trigger] events[j],
                e,
            ) && (j < n ==> comes_before(e, events[j])) by {
                lemma_comes_before_is_strict_weak(e, m, events[j]);
                lemma_comes_before_is_strict_weak(e, events[j], e);
                if j < n {
                    assert(front[j] == events[j]);
                }
            }
            assert(is_next(events, n));
        } else {
            assert forall|j: int| 0 <= j < events.len() implies !comes_before(
                #[trigger] events[j],
                m,
            ) by {
                if j < n {
                    assert(front[j] == events[j]);
                }
            }
            assert forall|j: int| 0 <= j < i implies comes_before(m, #[trigger] events[j]) by {
                assert(front[j] == events[j]);
            }
            assert(is_next(events, i));
        }
    }
}

/// No two events are the next to leave a queue.
pub proof fn lemma_next_is_unique<T: Real>(events: Seq<Event<T>>, i: int, j: int)
    requires
        is_next(events, i),
        is_next(events, j),
    ensures
        i == j,
{
    if i < j {
        assert(comes_before(events[j], events[i]));
    } else if j < i {
        assert(comes_before(events[i], events[j]));
    }
}

/// Events leave the queue in order while nothing earlier is pushed: when
/// the event at `i` has left the queue and events that do not come before
/// it have been pushed, the event that leaves next does not come before it
/// either.
pub proof fn lemma_pops_come_in_order<T: Real>(
    events: Seq<Event<T>>,
    i: int,
    pushed: Seq<Event<T>>,
    j: int,
)
    requires
        is_next(events, i),
        forall|k: int| 0 <= k < pushed.len() ==> !comes_before(#[trigger] pushed[k], events[i]),
        is_next(events.remove(i) + pushed, j),
    ensures
        !comes_before((events.remove(i) + pushed)[j], events[i]),
{
    let rest = events.remove(i);
    if j < rest.len() {
        let j0 = if j < i {
            j
        } else {
            j + 1
        };
        assert((rest + pushed)[j] == events[j0]);
    } else {
        assert((rest + pushed)[j] == pushed[j - rest.len()]);
    }
}

/// The priority queue for events used in the algorithm.
///
/// The event that leaves first is the one with the highest point and, among
/// those at one height, the leftmost; among events at one point, the one
/// that was pushed first.
pub struct PriorityQueue<T: Copy> {
    /// The events in the order in which they were pushed.
    pub events: Vec<Event<T>>,
}

impl<T: Copy> View for PriorityQueue<T> {
    type V = Seq<Event<T>>;

    open spec fn view(&self) -> Seq<Event<T>> {
        self.events@
    }
}

/// Tells whether `a` comes strictly before `b`.
pub fn precedes<T: Real>(a: &Event<T>, b: &Event<T>) -> (r: bool)
    ensures
        r == comes_before(*a, *b),
{
    proof {
        T::lemma_laws();
        lemma_scalar_order(a.point.y, b.point.y, b.point.y);
        lemma_scalar_order(b.point.y, a.point.y, a.point.y);
    }
    if a.point.y < b.point.y {
        true
    } else if a.point.y > b.point.y {
        false
    } else {
        a.point.x < b.point.x
    }
}

impl<T: Real> PriorityQueue<T> {
    /// A queue without events.
    pub fn new() -> (r: Self)
        ensures
            r@ == Seq::<Event<T>>::empty(),
    {
        PriorityQueue { events: Vec::new() }
    }

    /// A queue that holds the given events.
    pub fn from_vec(events: Vec<Event<T>>) -> (r: Self)
        ensures
            r@ == events@,
    {
        PriorityQueue { events }
    }

    /// Push an event into this priority queue.
    pub fn push(&mut self, event: Event<T>)
        ensures
            final(self)@ == old(self)@.push(event),
    {
        self.events.push(event);
    }

    /// Push the given events into the queue, in their order.
    pub fn extend(&mut self, events: Vec<Event<T>>)
        ensures
            final(self)@ == old(self)@ + events@,
    {
        let mut i: usize = 0;
        while i < events.len()
            invariant
                0 <= i <= events@.len(),
                self@ == old(self)@ + events@.take(i as int),
            decreases events@.len() - i,
        {
            self.events.push(events[i]);
            i += 1;
            assert(self@ =~= old(self)@ + events@.take(i as int));
        }
        assert(events@.take(i as int) =~= events@);
    }

    /// Pop the next event from this priority queue.
    pub fn pop(&mut self) -> (r: Option<Event<T>>)
        ensures
            match r {
                None => old(self)@.len() == 0 && final(self)@ == old(self)@,
                Some(event) => exists|i: int|
                    {
                        &&& is_next(old(self)@, i)
                        &&& event == old(self)@[i]
                        &&& final(self)@ == old(self)@.remove(i)
                    },
            },
    {
        if self.events.len() == 0 {
            return None;
        }
        let mut best: usize = 0;
        let mut i: usize = 1;
        proof {
            lemma_comes_before_is_strict_weak(self@[0], self@[0], self@[0]);
        }
        while i < self.events.len()
            invariant
                self.events@ == old(self).events@,
                0 <= best < i <= self.events@.len(),
                forall|j: int| 0 <= j < i ==> !comes_before(#[trigger] self@[j], self@[best as int]),
                forall|j: int|
                    0 <= j < best ==> comes_before(self@[best as int], #[trigger] self@[j]),
            decreases self.events@.len() - i,
        {
            if precedes(&self.events[i], &self.events[best]) {
                proof {
                    let s = self@;
                    assert forall|j: int| 0 <= j <= i implies !comes_before(
                        #[trigger] s[j],
                        s[i as int],
                    ) by {
                        lemma_comes_before_is_strict_weak(s[j], s[i as int], s[best as int]);
                    }
                    assert forall|j: int| 0 <= j < i implies comes_before(
                        s[i as int],
                        #[trigger] s[j],
                    ) by {
                        lemma_comes_before_is_strict_weak(s[i as int], s[best as int], s[j]);
                    }
                }
                best = i;
            }
            i += 1;
        }
        let event = self.events.remove(best);
        assert(is_next(old(self)@, best as int));
        Some(event)
    }

    /// Get the number of events in this queue.
    pub fn len(&self) -> (r: usize)
        ensures
            r == self@.len(),
    {
        self.events.len()
    }
}

} // verus!
