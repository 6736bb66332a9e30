//! The events of the sweep, and what the queue that holds them has to
//! do with the edges and the lists.

use super::edge::{BoEdge, Edges};
use super::priority_queue::{comes_before, lemma_next_exists, next_index};
use crate::bentley_ottman::{Event, EventType};
use crate::num::{le, Real};
use crate::point::Point;
use crate::ApproxEq;
use vstd::prelude::*;

verus! {

/// The two points are approximately equal in both coordinates.
pub open spec fn near<T: Copy + ApproxEq>(a: Point<T>, b: Point<T>) -> bool {
    a.x.approx_eq_spec(&b.x) && a.y.approx_eq_spec(&b.y)
}

/// A crossing of the edges `a` and `b` at `pt` is worth an event.
///
/// Where an end point of `a` is near an end point of `b`, the crossing
/// counts only if it is near that end point of `a`: the start point where
/// that is the shared one, else the end point. Edges that share no end
/// point keep every crossing.
pub open spec fn keeps_crossing<T: Real + ApproxEq>(a: &BoEdge<T>, b: &BoEdge<T>, pt: Point<T>) -> bool {
    if near(a.lowest_y, b.lowest_y) || near(a.lowest_y, b.highest_y) {
        near(a.lowest_y, pt)
    } else if near(a.highest_y, b.highest_y) || near(a.highest_y, b.lowest_y) {
        near(a.highest_y, pt)
    } else {
        true
    }
}

/// The event for the crossing of `a` with its right neighbour `b`.
///
/// There is none where `b` starts no further right than `a`, where the
/// segments do not meet, and where the crossing is not worth an event.
pub open spec fn crossing_event<T: Real + ApproxEq>(a: &BoEdge<T>, b: &BoEdge<T>) -> Option<
    Event<T>,
> {
    if le(b.lowest_y.x, a.lowest_y.x) {
        None
    } else {
        match a.intersection_event_spec(b) {
            None => None,
            Some(ev) => if keeps_crossing(a, b, ev.point) {
                Some(ev)
            } else {
                None
            },
        }
    }
}

/// The intersection event between the edge `e1` and its right neighbour
/// `e2`, where the two cross and the crossing has not been handled in
/// the other order.
pub fn intersection_event<T: Real + ApproxEq>(e1: &BoEdge<T>, e2: &BoEdge<T>) -> (r: Option<
    Event<T>,
>)
    ensures
        r == crossing_event(e1, e2),
{
    proof {
        T::lemma_laws();
    }
    // the edges enter the sweep in the order of their top points:
    // if the top point of e2 comes no later than that of e1, the
    // crossing belongs to the pair in the other order
    if e2.lowest_y().x() <= e1.lowest_y().x() {
        return None;
    }
    // if this will be a spurious intersection event, eat it

    match e1.intersection_event(e2) {
        None => None,
        Some(ev) => {
            let pt = ev.point;
            let (e1l, e1h) = (e1.lowest_y(), e1.highest_y());
            let (e2l, e2h) = (e2.lowest_y(), e2.highest_y());

            // if any of the segment points are equal, check to ensure
            // we aren't spurious
            let keep = if e1l.approx_eq(&e2l) || e1l.approx_eq(&e2h) {
                e1l.approx_eq(&pt)
            } else if e1h.approx_eq(&e2h) || e1h.approx_eq(&e2l) {
                e1h.approx_eq(&pt)
            } else {
                true
            };
            if keep {
                Some(ev)
            } else {
                None
            }
        },
    }
}

/// The event is what the sweep makes of the edges of `all`.
///
/// A start event stands at the start point of its edge and a stop event
/// at its end point; an intersection event is the crossing event of its
/// two edges.
pub open spec fn valid_event<T: Real + ApproxEq>(all: &Edges<T>, ev: Event<T>) -> bool {
    &&& all.has(ev.edge_id)
    &&& match ev.event_type {
        EventType::Start => ev == all.at(ev.edge_id).start_event_spec(),
        EventType::Stop => ev == all.at(ev.edge_id).stop_event_spec(),
        EventType::Intersection { other_edge_id } => {
            &&& all.has(other_edge_id)
            &&& crossing_event(&all.at(ev.edge_id), &all.at(other_edge_id)) == Some(ev)
        },
    }
}

/// The event is an intersection at an end point of its own edge, within
/// the tolerance. The sweep discards such events.
pub open spec fn spurious<T: Real + ApproxEq>(all: &Edges<T>, ev: Event<T>) -> bool {
    ev.event_type is Intersection && (near(ev.point, all.at(ev.edge_id).lowest_y) || near(
        ev.point,
        all.at(ev.edge_id).highest_y,
    ))
}

/// What popping leaves of a queue: the first event to leave it that is not
/// spurious, or none when every event was, and the events that stay.
pub open spec fn skip_spurious<T: Real + ApproxEq>(all: &Edges<T>, q: Seq<Event<T>>) -> (
    Option<Event<T>>,
    Seq<Event<T>>,
)
    decreases q.len(),
{
    let i = next_index(q);
    if q.len() == 0 || !(0 <= i < q.len()) {
        (None, q)
    } else if spurious(all, q[i]) {
        skip_spurious(all, q.remove(i))
    } else {
        (Some(q[i]), q.remove(i))
    }
}

/// Popping what popping has left gives nothing again.
pub proof fn lemma_skip_spurious_settles<T: Real + ApproxEq>(all: &Edges<T>, q: Seq<Event<T>>)
    requires
        skip_spurious(all, q).0.is_none(),
    ensures
        skip_spurious(all, skip_spurious(all, q).1) == skip_spurious(all, q),
    decreases q.len(),
{
    let i = next_index(q);
    if q.len() == 0 || !(0 <= i < q.len()) {
    } else if spurious(all, q[i]) {
        lemma_skip_spurious_settles(all, q.remove(i));
    }
}

/// The event that popping returns was in the queue, and so were the events
/// that stay; none of these comes before it.
pub proof fn lemma_skip_spurious_takes_the_first<T: Real + ApproxEq>(
    all: &Edges<T>,
    q: Seq<Event<T>>,
)
    requires
        skip_spurious(all, q).0.is_some(),
    ensures
        q.contains(skip_spurious(all, q).0.unwrap()),
        forall|k: int|
            0 <= k < skip_spurious(all, q).1.len() ==> q.contains(
                #[trigger] skip_spurious(all, q).1[k],
            ) && !comes_before(skip_spurious(all, q).1[k], skip_spurious(all, q).0.unwrap()),
    decreases q.len(),
{
    let i = next_index(q);
    if q.len() == 0 || !(0 <= i < q.len()) {
    } else {
        lemma_next_exists(q);
        let shorter = q.remove(i);
        assert forall|j: int| 0 <= j < shorter.len() implies q.contains(#[trigger] shorter[j])
            && !comes_before(shorter[j], q[i]) by {
            let j0 = if j < i {
                j
            } else {
                j + 1
            };
            assert(shorter[j] == q[j0]);
        }
        if spurious(all, q[i]) {
            lemma_skip_spurious_takes_the_first(all, shorter);
            let (first, rest) = skip_spurious(all, shorter);
            let a = shorter.index_of(first.unwrap());
            assert(shorter[a] == first.unwrap());
            assert forall|k: int| 0 <= k < rest.len() implies q.contains(#[trigger] rest[k]) by {
                let b = shorter.index_of(rest[k]);
                assert(shorter[b] == rest[k]);
            }
        } else {
            assert(q[i] == skip_spurious(all, q).0.unwrap());
        }
    }
}

/// The events of the queue agree with the edges and the lists: this is
/// what `Algorithm::wf` asks of the queue.
pub open spec fn queue_ok<T: Real + ApproxEq>(
    all: &Edges<T>,
    active: Seq<usize>,
    leftovers: Seq<usize>,
    q: Seq<Event<T>>,
) -> bool {
    &&& forall|i: int| 0 <= i < q.len() ==> valid_event(all, #[trigger] q[i])
    &&& forall|i: int, j: int|
        0 <= i < q.len() && 0 <= j < q.len() && i != j && (#[trigger] q[i]).event_type == (
        #[trigger] q[j]).event_type && !(q[i].event_type is Intersection) ==> q[i].edge_id
            != q[j].edge_id
    &&& forall|i: int|
        0 <= i < q.len() && (#[trigger] q[i]).event_type is Start ==> !active.contains(
            q[i].edge_id,
        ) && !leftovers.contains(q[i].edge_id)
    &&& forall|i: int|
        0 <= i < q.len() && (#[trigger] q[i]).event_type is Stop ==> active.contains(q[i].edge_id)
}

/// The queue holds no event of the kind and the edge of `ev`.
pub open spec fn no_other<T: Copy>(q: Seq<Event<T>>, ev: Event<T>) -> bool {
    forall|j: int|
        0 <= j < q.len() && (#[trigger] q[j]).event_type == ev.event_type ==> q[j].edge_id
            != ev.edge_id
}

/// The queue with the event pushed, where there is one.
pub open spec fn pushed<T: Copy>(q: Seq<Event<T>>, ev: Option<Event<T>>) -> Seq<Event<T>> {
    match ev {
        Some(e) => q.push(e),
        None => q,
    }
}

/// The crossing event of the edges with the handles `a` and `b`, where
/// both are there.
pub open spec fn crossing_of<T: Real + ApproxEq>(
    all: &Edges<T>,
    a: Option<usize>,
    b: Option<usize>,
) -> Option<Event<T>> {
    match (a, b) {
        (Some(a), Some(b)) => crossing_event(&all.at(a), &all.at(b)),
        _ => None,
    }
}

/// An event stays valid while the edges keep their geometry.
pub proof fn lemma_valid_event_frame<T: Real + ApproxEq>(
    before: &Edges<T>,
    after: &Edges<T>,
    ev: Event<T>,
)
    requires
        before.same_geometry(after),
        valid_event(before, ev),
    ensures
        valid_event(after, ev),
{
    assert(before.edges@[ev.edge_id - 1].same_geometry(&after.edges@[ev.edge_id - 1]));
    if let EventType::Intersection { other_edge_id } = ev.event_type {
        assert(before.edges@[other_edge_id - 1].same_geometry(&after.edges@[other_edge_id - 1]));
    }
}

/// A queue that agrees with the edges and the lists agrees with edges of
/// the same geometry and with lists that hold the edges of its stop
/// events and none of its start events.
pub proof fn lemma_queue_frame<T: Real + ApproxEq>(
    before: &Edges<T>,
    after: &Edges<T>,
    active: Seq<usize>,
    leftovers: Seq<usize>,
    active2: Seq<usize>,
    leftovers2: Seq<usize>,
    q: Seq<Event<T>>,
)
    requires
        queue_ok(before, active, leftovers, q),
        before.same_geometry(after),
        forall|i: int|
            0 <= i < q.len() && (#[trigger] q[i]).event_type is Stop ==> active2.contains(
                q[i].edge_id,
            ),
        forall|i: int|
            0 <= i < q.len() && (#[trigger] q[i]).event_type is Start ==> !active2.contains(
                q[i].edge_id,
            ) && !leftovers2.contains(q[i].edge_id),
    ensures
        queue_ok(after, active2, leftovers2, q),
{
    assert forall|i: int| 0 <= i < q.len() implies valid_event(after, #[trigger] q[i]) by {
        lemma_valid_event_frame(before, after, q[i]);
    }
}

/// A queue that agrees with the edges and the lists still does when an
/// event has left it, and it then holds no other event of the kind and
/// the edge of a start or stop event that left.
pub proof fn lemma_queue_remove<T: Real + ApproxEq>(
    all: &Edges<T>,
    active: Seq<usize>,
    leftovers: Seq<usize>,
    q: Seq<Event<T>>,
    i: int,
)
    requires
        queue_ok(all, active, leftovers, q),
        0 <= i < q.len(),
    ensures
        queue_ok(all, active, leftovers, q.remove(i)),
        valid_event(all, q[i]),
        q[i].event_type is Start ==> !active.contains(q[i].edge_id) && !leftovers.contains(
            q[i].edge_id,
        ),
        q[i].event_type is Stop ==> active.contains(q[i].edge_id),
        !(q[i].event_type is Intersection) ==> no_other(q.remove(i), q[i]),
{
    let r = q.remove(i);
    assert forall|j: int| 0 <= j < r.len() implies #[trigger] r[j] == q[if j < i {
        j
    } else {
        j + 1
    }] by {}
    assert forall|a: int, b: int|
        0 <= a < r.len() && 0 <= b < r.len() && a != b && (#[trigger] r[a]).event_type == (
        #[trigger] r[b]).event_type && !(r[a].event_type is Intersection) implies r[a].edge_id
        != r[b].edge_id by {
        let a0 = if a < i {
            a
        } else {
            a + 1
        };
        let b0 = if b < i {
            b
        } else {
            b + 1
        };
        assert(r[a] == q[a0] && r[b] == q[b0]);
    }
    if !(q[i].event_type is Intersection) {
        assert forall|j: int|
            0 <= j < r.len() && (#[trigger] r[j]).event_type == q[i].event_type implies r[j].edge_id
            != q[i].edge_id by {
            let j0 = if j < i {
                j
            } else {
                j + 1
            };
            assert(r[j] == q[j0]);
        }
    }
}

/// A queue that agrees with the edges and the lists still does when a
/// valid event has been pushed, be it an intersection event or the one
/// stop event of an active edge.
pub proof fn lemma_queue_push<T: Real + ApproxEq>(
    all: &Edges<T>,
    active: Seq<usize>,
    leftovers: Seq<usize>,
    q: Seq<Event<T>>,
    ev: Event<T>,
)
    requires
        queue_ok(all, active, leftovers, q),
        valid_event(all, ev),
        !(ev.event_type is Start),
        ev.event_type is Stop ==> active.contains(ev.edge_id) && no_other(q, ev),
    ensures
        queue_ok(all, active, leftovers, q.push(ev)),
{
    let r = q.push(ev);
    assert forall|i: int| 0 <= i < r.len() implies valid_event(all, #[trigger] r[i]) by {
        if i < q.len() {
            assert(r[i] == q[i]);
        }
    }
    assert forall|a: int, b: int|
        0 <= a < r.len() && 0 <= b < r.len() && a != b && (#[trigger] r[a]).event_type == (
        #[trigger] r[b]).event_type && !(r[a].event_type is Intersection) implies r[a].edge_id
        != r[b].edge_id by {
        if a < q.len() {
            assert(r[a] == q[a]);
        }
        if b < q.len() {
            assert(r[b] == q[b]);
        }
    }
    assert forall|i: int| 0 <= i < r.len() && (#[trigger] r[i]).event_type is Start implies !active.contains(
        r[i].edge_id,
    ) && !leftovers.contains(r[i].edge_id) by {
        assert(r[i] == q[i]);
    }
    assert forall|i: int| 0 <= i < r.len() && (#[trigger] r[i]).event_type is Stop implies active.contains(
        r[i].edge_id,
    ) by {
        if i < q.len() {
            assert(r[i] == q[i]);
        }
    }
}

} // verus!
