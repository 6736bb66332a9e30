//! The sweep line: the height that the sweep has reached, the edges that
//! cross it, and the edges that it has left behind with a trapezoid still
//! open.

use super::edge::{BoEdge, Edges};
use super::linked_list::{exchanged, links_changed, loose, unlinked, LinkedList};
use crate::num::Real;
use crate::trapezoid::Trapezoid;
use crate::{ApproxEq, FillRule};
use core::cmp::Ordering;
use vstd::prelude::*;
use vstd::std_specs::cmp::PartialOrdSpec;

verus! {

/// How `a` compares with `b`, where values that are approximately equal
/// compare as equal.
pub open spec fn approx_order<T: PartialOrd + ApproxEq>(a: T, b: T) -> Option<Ordering> {
    if a.approx_eq_spec(&b) {
        Some(Ordering::Equal)
    } else {
        a.partial_cmp_spec(&b)
    }
}

/// `first`, or `second` where `first` is a tie.
pub open spec fn tie_broken(first: Option<Ordering>, second: Option<Ordering>) -> Option<
    Ordering,
> {
    if first == Some(Ordering::Equal) {
        second
    } else {
        first
    }
}

/// How the edge `a` compares with `b` on the sweep line at the height `y`:
/// by the X coordinates at which they cross that height, then by those of
/// their start points, then by those of their end points.
pub open spec fn edge_order<T: Real + ApproxEq>(y: T, a: &BoEdge<T>, b: &BoEdge<T>) -> Option<
    Ordering,
> {
    tie_broken(
        tie_broken(
            approx_order(a.edge.line().x_at_y(y), b.edge.line().x_at_y(y)),
            approx_order(a.lowest_y.x, b.lowest_y.x),
        ),
        approx_order(a.highest_y.x, b.highest_y.x),
    )
}

/// On the sweep line at the height `y`, the edge `a` belongs before `b`:
/// it compares as less or as equal.
pub open spec fn goes_before<T: Real + ApproxEq>(y: T, a: &BoEdge<T>, b: &BoEdge<T>) -> bool {
    edge_order(y, a, b) == Some(Ordering::Less) || edge_order(y, a, b) == Some(Ordering::Equal)
}

/// Compares two values, taking those that are approximately equal for
/// equal.
pub fn approx_cmp<T: PartialOrd + ApproxEq>(a: T, b: T) -> (r: Option<Ordering>)
    requires
        T::obeys_partial_cmp_spec(),
    ensures
        r == approx_order(a, b),
{
    if a.approx_eq(&b) {
        Some(Ordering::Equal)
    } else {
        a.partial_cmp(&b)
    }
}

/// Keeps the first comparison unless it is a tie, and takes the second
/// then.
pub fn or_else(first: Option<Ordering>, second: Option<Ordering>) -> (r: Option<Ordering>)
    ensures
        r == tie_broken(first, second),
{
    match first {
        Some(Ordering::Equal) => second,
        o => o,
    }
}

/// Compare two edges along the sweep line at the height `y`.
pub fn compare_edges_at<T: Real + ApproxEq>(y: T, a: &BoEdge<T>, b: &BoEdge<T>) -> (r: Option<
    Ordering,
>)
    requires
        a.edge.wf(),
        b.edge.wf(),
    ensures
        r == edge_order(y, a, b),
{
    proof {
        T::lemma_laws();
    }
    // compare by their X values at the current Y
    let by_x = approx_cmp(a.x_at_y(y), b.x_at_y(y));
    // if X and Y is equal, order by the top point's x
    let by_top = approx_cmp(a.lowest_y().x(), b.lowest_y().x());
    // order by the bottom point's x
    let by_bottom = approx_cmp(a.highest_y().x(), b.highest_y().x());
    or_else(or_else(by_x, by_top), by_bottom)
}

/// Tells whether the edge `a` belongs before `b` on the sweep line at the
/// height `y`.
pub fn belongs_before<T: Real + ApproxEq>(y: T, a: &BoEdge<T>, b: &BoEdge<T>) -> (r: bool)
    requires
        a.edge.wf(),
        b.edge.wf(),
    ensures
        r == goes_before(y, a, b),
{
    match compare_edges_at(y, a, b) {
        Some(Ordering::Less) => true,
        Some(Ordering::Equal) => true,
        _ => false,
    }
}

/// `k` is the place of `edge` among `order` at the height `y`: `edge` does
/// not go before any edge ahead of `k`, and goes before the edge at `k`
/// where there is one.
pub open spec fn is_slot<T: Real + ApproxEq>(
    order: Seq<usize>,
    all: &Edges<T>,
    edge: usize,
    y: T,
    k: int,
) -> bool {
    &&& 0 <= k <= order.len()
    &&& forall|j: int| 0 <= j < k ==> !goes_before(y, &all.at(edge), &all.at(#[trigger] order[j]))
    &&& k < order.len() ==> goes_before(y, &all.at(edge), &all.at(order[k]))
}

/// Every edge that is in neither of the lists `active` and `leftovers` has
/// no links.
pub open spec fn tidy_lists<T: Copy>(all: &Edges<T>, active: Seq<usize>, leftovers: Seq<usize>) -> bool {
    forall|id: usize|
        all.has(id) && !active.contains(id) && !leftovers.contains(id) ==> #[trigger] loose(all, id)
}

/// The edges outside the lists still have no links when an edge has left
/// the active list and has either joined the leftovers or lost its links.
pub proof fn lemma_tidy_after_remove<T: Copy>(
    before: &Edges<T>,
    after: &Edges<T>,
    active: Seq<usize>,
    leftovers: Seq<usize>,
    active2: Seq<usize>,
    leftovers2: Seq<usize>,
    edge: usize,
)
    requires
        tidy_lists(before, active, leftovers),
        links_changed(before, after, active.to_set().union(leftovers.to_set())),
        active.contains(edge),
        active2 == active.remove(active.index_of(edge)),
        leftovers2 == leftovers || leftovers2 == leftovers.push(edge),
        leftovers2 == leftovers ==> loose(after, edge),
    ensures
        tidy_lists(after, active2, leftovers2),
{
    let i = active.index_of(edge);
    assert(0 <= i < active.len() && active[i] == edge);
    assert forall|id: usize|
        after.has(id) && !active2.contains(id) && !leftovers2.contains(id) implies #[trigger] loose(
        after,
        id,
    ) by {
        assert(before.has(id));
        if id == edge {
            if leftovers2 != leftovers {
                assert(leftovers2[leftovers.len() as int] == edge);
            }
        } else {
            if active.contains(id) {
                let a = active.index_of(id);
                assert(active[a] == id);
                if a < i {
                    assert(active2[a] == id);
                } else {
                    assert(active2[a - 1] == id);
                }
            }
            if leftovers.contains(id) {
                let b = leftovers.index_of(id);
                assert(leftovers[b] == id);
                assert(leftovers2[b] == id);
            }
            assert(loose(before, id));
            assert(after.at(id) == before.at(id));
        }
    }
}

/// The edges outside the lists still have no links when the lists hold
/// the same edges as before and no links but theirs have changed.
pub proof fn lemma_tidy_same_members<T: Copy>(
    before: &Edges<T>,
    after: &Edges<T>,
    active: Seq<usize>,
    leftovers: Seq<usize>,
    active2: Seq<usize>,
    leftovers2: Seq<usize>,
)
    requires
        tidy_lists(before, active, leftovers),
        links_changed(before, after, active.to_set().union(leftovers.to_set()))
            || links_changed(before, after, active.to_set()) || links_changed(
            before,
            after,
            leftovers.to_set(),
        ),
        forall|x: usize| #[trigger] active2.contains(x) <==> active.contains(x),
        forall|x: usize| #[trigger] leftovers2.contains(x) <==> leftovers.contains(x),
    ensures
        tidy_lists(after, active2, leftovers2),
{
    assert forall|id: usize|
        after.has(id) && !active2.contains(id) && !leftovers2.contains(id) implies #[trigger] loose(
        after,
        id,
    ) by {
        assert(before.has(id));
        assert(!active.contains(id));
        assert(!leftovers.contains(id));
        assert(loose(before, id));
        assert(after.at(id) == before.at(id));
    }
}

/// The edges outside the lists still have no links when an edge has left
/// the leftovers and lost its links.
pub proof fn lemma_tidy_after_leaving<T: Copy>(
    before: &Edges<T>,
    after: &Edges<T>,
    active: Seq<usize>,
    leftovers: Seq<usize>,
    leftovers2: Seq<usize>,
    edge: usize,
)
    requires
        tidy_lists(before, active, leftovers),
        links_changed(before, after, leftovers.to_set()),
        leftovers.contains(edge),
        leftovers2 == leftovers.remove(leftovers.index_of(edge)),
        loose(after, edge),
    ensures
        tidy_lists(after, active, leftovers2),
{
    let i = leftovers.index_of(edge);
    assert(0 <= i < leftovers.len() && leftovers[i] == edge);
    assert forall|id: usize|
        after.has(id) && !active.contains(id) && !leftovers2.contains(id) implies #[trigger] loose(
        after,
        id,
    ) by {
        assert(before.has(id));
        if id != edge {
            if leftovers.contains(id) {
                let b = leftovers.index_of(id);
                assert(leftovers[b] == id);
                if b < i {
                    assert(leftovers2[b] == id);
                } else {
                    assert(leftovers2[b - 1] == id);
                }
            }
            assert(loose(before, id));
            assert(after.at(id) == before.at(id));
        }
    }
}

/// The sweep line, currently traversing the edges.
///
/// It consists of the current Y coordinate as well as
/// a linked list of "active" edges.
pub struct SweepLine<T> {
    /// The current Y coordinate we are operating at.
    pub current_y: T,
    /// The list of active edges.
    pub active: LinkedList,
    /// The list of edges that are no longer active, but still may
    /// have partial trapezoids.
    pub leftovers: LinkedList,
}

impl<T: Real + ApproxEq> SweepLine<T> {
    /// Both lists are well formed and no edge is in both.
    pub open spec fn wf(&self, all: &Edges<T>) -> bool {
        &&& self.active.wf(all)
        &&& self.leftovers.wf(all)
        &&& forall|i: int, j: int|
            0 <= i < self.active@.len() && 0 <= j < self.leftovers@.len()
                ==> #[trigger] self.active@[i] != #[trigger] self.leftovers@[j]
    }

    /// Every edge that is in neither list has no links.
    pub open spec fn tidy(&self, all: &Edges<T>) -> bool {
        tidy_lists(all, self.active@, self.leftovers@)
    }

    /// A sweep line above every edge, with no edge on it.
    pub fn new() -> (r: Self)
        ensures
            r.current_y == T::min_value_spec(),
            r.active@ == Seq::<usize>::empty(),
            r.leftovers@ == Seq::<usize>::empty(),
            forall|all: &Edges<T>| #[trigger] r.wf(all),
            forall|all: &Edges<T>|
                (forall|id: usize| all.has(id) ==> #[trigger] loose(all, id)) ==> #[trigger] r.tidy(
                    all,
                ),
    {
        SweepLine {
            current_y: T::min_value(),
            active: LinkedList::default(),
            leftovers: LinkedList::default(),
        }
    }

    /// Get the current Y coordinate.
    pub fn current_y(&self) -> (r: T)
        ensures
            r == self.current_y,
    {
        self.current_y
    }

    /// Set the current Y coordinate.
    pub fn set_current_y(&mut self, y: T)
        ensures
            final(self).current_y == y,
            final(self).active == old(self).active,
            final(self).leftovers == old(self).leftovers,
    {
        self.current_y = y;
    }

    /// Compare two edges along the sweep line.
    pub fn compare_edges(&self, a: &BoEdge<T>, b: &BoEdge<T>) -> (r: Option<Ordering>)
        requires
            a.edge.wf(),
            b.edge.wf(),
        ensures
            r == edge_order(self.current_y, a, b),
    {
        compare_edges_at(self.current_y(), a, b)
    }
}

impl<T: Real + ApproxEq> SweepLine<T> {
    /// Add an edge to the active sweep line, at its place among the active
    /// edges at the current height.
    #[verifier::spinoff_prover]
    pub fn add_edge(&mut self, edge: usize, all: &mut Edges<T>)
        requires
            old(self).wf(old(all)),
            old(all).wf(),
            old(all).has(edge),
            !old(self).active@.contains(edge),
            !old(self).leftovers@.contains(edge),
        ensures
            exists|k: int|
                is_slot(old(self).active@, old(all), edge, old(self).current_y, k)
                    && final(self).active@ == old(self).active@.insert(k, edge),
            final(self).leftovers == old(self).leftovers,
            final(self).current_y == old(self).current_y,
            final(self).wf(final(all)),
            links_changed(old(all), final(all), old(self).active@.to_set().insert(edge)),
            old(self).tidy(old(all)) ==> final(self).tidy(final(all)),
    {
        let y = self.current_y;
        let before = |e: &BoEdge<T>, next: &BoEdge<T>| -> (r: bool)
            requires
                e.edge.wf(),
                next.edge.wf(),
            ensures
                r == goes_before(y, e, next),
            { belongs_before(y, e, next) };
        proof {
            assert forall|i: int| 0 <= i < self.active@.len() implies call_requires(
                before,
                (&all.at(edge), &all.at(#[trigger] self.active@[i])),
            ) by {
                assert(all.has(self.active@[i]));
                assert(all.edges@[self.active@[i] - 1].wf());
                assert(all.edges@[edge - 1].wf());
            }
        }
        self.active.insert(edge, all, before);
        proof {
            let s = old(self).active@;
            let k = choose|k: int|
                super::linked_list::insertion_point(s, old(all), edge, before, k) && self.active@
                    == s.insert(k, edge);
            assert(is_slot(s, old(all), edge, y, k));
            let l = self.leftovers@;
            assert forall|i: int| 0 <= i < l.len() implies (#[trigger] all.at(l[i])).prev == old(
                all,
            ).at(l[i]).prev && all.at(l[i]).next == old(all).at(l[i]).next by {
                assert(old(all).has(l[i]));
                assert(l.contains(l[i]));
                if s.contains(l[i]) {
                    let a = s.index_of(l[i]);
                    assert(s[a] == l[i]);
                }
            }
            self.leftovers.lemma_frame(old(all), all);
            let t = self.active@;
            assert forall|i: int, j: int| 0 <= i < t.len() && 0 <= j < l.len() implies #[trigger] t[i]
                != #[trigger] l[j] by {
                assert(l.contains(l[j]));
                if i < k {
                    assert(t[i] == s[i]);
                } else if i > k {
                    assert(t[i] == s[i - 1]);
                }
            }
            if old(self).tidy(old(all)) {
                assert forall|id: usize|
                    all.has(id) && !t.contains(id) && !l.contains(id) implies #[trigger] loose(
                    all,
                    id,
                ) by {
                    assert(old(all).has(id));
                    assert(t[k] == edge);
                    if s.contains(id) {
                        let a = s.index_of(id);
                        assert(s[a] == id);
                        if a < k {
                            assert(t[a] == id);
                        } else {
                            assert(t[a + 1] == id);
                        }
                    }
                    assert(loose(old(all), id));
                }
            }
        }
    }

    /// Remove an edge from the active sweep line. An edge that holds a
    /// partial trapezoid goes to the end of the leftovers.
    #[verifier::spinoff_prover]
    pub fn remove_edge(&mut self, edge: usize, all: &mut Edges<T>)
        requires
            old(self).wf(old(all)),
            old(self).active@.contains(edge),
        ensures
            final(self).active@ == old(self).active@.remove(old(self).active@.index_of(edge)),
            final(self).leftovers@ == (if old(all).at(edge).trapezoid.is_some() {
                old(self).leftovers@.push(edge)
            } else {
                old(self).leftovers@
            }),
            final(self).current_y == old(self).current_y,
            final(self).wf(final(all)),
            links_changed(
                old(all),
                final(all),
                old(self).active@.to_set().union(old(self).leftovers@.to_set()),
            ),
            !old(all).at(edge).trapezoid.is_some() ==> loose(final(all), edge),
            old(self).tidy(old(all)) ==> final(self).tidy(final(all)),
    {
        let ghost s = self.active@;
        let ghost l = self.leftovers@;
        let ghost i = s.index_of(edge);
        assert(0 <= i < s.len() && s[i] == edge);
        self.active.remove(edge, all);
        let ghost mid = *all;
        proof {
            assert forall|j: int| 0 <= j < l.len() implies (#[trigger] all.at(l[j])).prev == old(
                all,
            ).at(l[j]).prev && all.at(l[j]).next == old(all).at(l[j]).next by {
                assert(old(all).has(l[j]));
                if s.contains(l[j]) {
                    let a = s.index_of(l[j]);
                    assert(s[a] == l[j]);
                }
            }
            self.leftovers.lemma_frame(old(all), all);
            assert(!l.contains(edge)) by {
                if l.contains(edge) {
                    let b = l.index_of(edge);
                    assert(l[b] == edge);
                }
            }
        }

        // if the edge has a pending trapezoid, add it to the leftovers
        if all.get(edge).pending_trapezoid() {
            self.leftovers.push(edge, all);
            proof {
                let t = self.active@;
                assert forall|j: int| 0 <= j < t.len() implies (#[trigger] all.at(t[j])).prev
                    == mid.at(t[j]).prev && all.at(t[j]).next == mid.at(t[j]).next by {
                    assert(mid.has(t[j]));
                    let j0 = if j < i {
                        j
                    } else {
                        j + 1
                    };
                    assert(t[j] == s[j0]);
                    if l.contains(t[j]) {
                        let b = l.index_of(t[j]);
                        assert(l[b] == t[j]);
                    }
                }
                self.active.lemma_frame(&mid, all);
            }
        }
        proof {
            let t = self.active@;
            let m = self.leftovers@;
            assert forall|a: int, b: int| 0 <= a < t.len() && 0 <= b < m.len() implies #[trigger] t[a]
                != #[trigger] m[b] by {
                let a0 = if a < i {
                    a
                } else {
                    a + 1
                };
                assert(t[a] == s[a0]);
                if b < l.len() {
                    assert(m[b] == l[b]);
                }
            }
            assert forall|id: usize| #[trigger] old(all).has(id) implies super::linked_list::relinked(
                old(all),
                all,
                id,
            ) && (!s.to_set().union(l.to_set()).contains(id) ==> all.at(id) == old(all).at(id)) by {
                assert(mid.has(id));
                assert(super::linked_list::relinked(old(all), &mid, id));
                if !s.contains(id) && !l.contains(id) {
                    assert(mid.at(id) == old(all).at(id));
                    assert(id != edge);
                    assert(all.at(id) == mid.at(id));
                }
            }
            if old(self).tidy(old(all)) {
                if !old(all).at(edge).trapezoid.is_some() {
                    assert(all.at(edge) == mid.at(edge));
                }
                lemma_tidy_after_remove(old(all), all, s, l, t, m, edge);
            }
        }
    }

    /// Swap an edge with the edge immediately after in the sweep line.
    ///
    /// An edge that is not active, or that is the last active edge, has
    /// no successor: nothing changes.
    pub fn swap_edge(&mut self, edge: usize, all: &mut Edges<T>)
        requires
            old(self).wf(old(all)),
        ensures
            final(self).active@ == ({
                let s = old(self).active@;
                if s.contains(edge) && s.index_of(edge) + 1 < s.len() {
                    exchanged(s, s.index_of(edge))
                } else {
                    s
                }
            }),
            final(self).leftovers == old(self).leftovers,
            final(self).current_y == old(self).current_y,
            final(self).wf(final(all)),
            links_changed(old(all), final(all), old(self).active@.to_set()),
            old(self).tidy(old(all)) ==> final(self).tidy(final(all)),
    {
        let ghost s = self.active@;
        let ghost l = self.leftovers@;
        if self.active.contains(edge, all) {
            let ghost i = s.index_of(edge);
            assert(0 <= i < s.len() && s[i] == edge);
            self.active.swap(edge, all);
            proof {
                assert forall|j: int| 0 <= j < l.len() implies (#[trigger] all.at(l[j])).prev
                    == old(all).at(l[j]).prev && all.at(l[j]).next == old(all).at(l[j]).next by {
                    assert(old(all).has(l[j]));
                    if s.contains(l[j]) {
                        let a = s.index_of(l[j]);
                        assert(s[a] == l[j]);
                    }
                }
                self.leftovers.lemma_frame(old(all), all);
                let t = self.active@;
                assert forall|a: int, b: int|
                    0 <= a < t.len() && 0 <= b < l.len() implies #[trigger] t[a] != #[trigger] l[b] by {
                    if i + 1 < s.len() {
                        let a0 = if a == i {
                            i + 1
                        } else if a == i + 1 {
                            i
                        } else {
                            a
                        };
                        assert(t[a] == s[a0]);
                    }
                }
                if old(self).tidy(old(all)) {
                    super::linked_list::lemma_swapped_holds_same(s, edge);
                    lemma_tidy_same_members(old(all), all, s, l, t, l);
                }
            }
        } else {
            assert forall|id: usize| #[trigger] old(all).has(id) implies super::linked_list::relinked(
                old(all),
                all,
                id,
            ) by {}
        }
    }

    /// The leftover edges, in the order in which they were left over.
    pub fn leftovers(&self, all: &Edges<T>) -> (r: Vec<usize>)
        requires
            self.wf(all),
        ensures
            r@ == self.leftovers@,
    {
        self.leftovers.iter(all)
    }

    /// Remove an edge from the leftovers.
    #[verifier::spinoff_prover]
    pub fn remove_leftover(&mut self, edge: usize, all: &mut Edges<T>)
        requires
            old(self).wf(old(all)),
            old(self).leftovers@.contains(edge),
        ensures
            final(self).leftovers@ == old(self).leftovers@.remove(
                old(self).leftovers@.index_of(edge),
            ),
            final(self).active == old(self).active,
            final(self).current_y == old(self).current_y,
            final(self).wf(final(all)),
            links_changed(old(all), final(all), old(self).leftovers@.to_set()),
            old(self).tidy(old(all)) ==> final(self).tidy(final(all)),
    {
        let ghost s = self.active@;
        let ghost l = self.leftovers@;
        let ghost i = l.index_of(edge);
        assert(0 <= i < l.len() && l[i] == edge);
        self.leftovers.remove(edge, all);
        proof {
            assert forall|j: int| 0 <= j < s.len() implies (#[trigger] all.at(s[j])).prev == old(
                all,
            ).at(s[j]).prev && all.at(s[j]).next == old(all).at(s[j]).next by {
                assert(old(all).has(s[j]));
                if l.contains(s[j]) {
                    let a = l.index_of(s[j]);
                    assert(l[a] == s[j]);
                }
            }
            self.active.lemma_frame(old(all), all);
            let m = self.leftovers@;
            assert forall|a: int, b: int| 0 <= a < s.len() && 0 <= b < m.len() implies #[trigger] s[a]
                != #[trigger] m[b] by {
                let b0 = if b < i {
                    b
                } else {
                    b + 1
                };
                assert(m[b] == l[b0]);
            }
            if old(self).tidy(old(all)) {
                lemma_tidy_after_leaving(old(all), all, s, l, m, edge);
            }
        }
    }

    /// Take out the leftover items: returns them in order, and leaves no
    /// leftovers and the edges that were left over without links.
    pub fn take_leftovers(&mut self, all: &mut Edges<T>) -> (r: Vec<usize>)
        requires
            old(self).wf(old(all)),
        ensures
            r@ == old(self).leftovers@,
            final(self).leftovers@ == Seq::<usize>::empty(),
            final(self).active == old(self).active,
            final(self).current_y == old(self).current_y,
            final(self).wf(final(all)),
            unlinked(old(all), final(all), old(self).leftovers@),
            old(self).tidy(old(all)) ==> final(self).tidy(final(all)),
    {
        let ghost s = self.active@;
        let ghost l = self.leftovers@;
        let taken = self.leftovers.clear(all);
        proof {
            assert forall|i: int| 0 <= i < s.len() implies (#[trigger] all.at(s[i])).prev == old(
                all,
            ).at(s[i]).prev && all.at(s[i]).next == old(all).at(s[i]).next by {
                assert(old(all).has(s[i]));
                if l.contains(s[i]) {
                    let j = l.index_of(s[i]);
                    assert(l[j] == s[i]);
                }
            }
            self.active.lemma_frame(old(all), all);
            if old(self).tidy(old(all)) {
                assert forall|id: usize|
                    all.has(id) && !self.active@.contains(id) && !self.leftovers@.contains(
                        id,
                    ) implies #[trigger] loose(all, id) by {
                    assert(old(all).has(id));
                    if !l.contains(id) {
                        assert(loose(old(all), id));
                    }
                }
            }
        }
        taken
    }
}

impl<T: Real + ApproxEq> SweepLine<T> {
    /// The sweep line stays well formed and tidy while the links of the
    /// edges stay as they are.
    pub proof fn lemma_links_frame(&self, before: &Edges<T>, after: &Edges<T>)
        requires
            self.wf(before),
            after.edges@.len() == before.edges@.len(),
            forall|id: usize| #[trigger]
                before.has(id) ==> after.at(id).prev == before.at(id).prev && after.at(id).next
                    == before.at(id).next,
        ensures
            self.wf(after),
            self.tidy(before) ==> self.tidy(after),
    {
        assert forall|i: int| 0 <= i < self.active@.len() implies (#[trigger] after.at(
            self.active@[i],
        )).prev == before.at(self.active@[i]).prev && after.at(self.active@[i]).next == before.at(
            self.active@[i],
        ).next by {
            assert(before.has(self.active@[i]));
        }
        self.active.lemma_frame(before, after);
        assert forall|i: int| 0 <= i < self.leftovers@.len() implies (#[trigger] after.at(
            self.leftovers@[i],
        )).prev == before.at(self.leftovers@[i]).prev && after.at(self.leftovers@[i]).next
            == before.at(self.leftovers@[i]).next by {
            assert(before.has(self.leftovers@[i]));
        }
        self.leftovers.lemma_frame(before, after);
        if self.tidy(before) {
            assert forall|id: usize|
                after.has(id) && !self.active@.contains(id) && !self.leftovers@.contains(
                    id,
                ) implies #[trigger] loose(after, id) by {
                assert(before.has(id));
                assert(loose(before, id));
            }
        }
    }
}

/// The left edge of the pair `j` of `order`: the edges at `0` and `1` make
/// the pair `0`, those at `2` and `3` the pair `1`, and so on.
pub open spec fn left_of(order: Seq<usize>, j: int) -> usize {
    order[2 * j]
}

/// The right edge of the pair `j` of `order`.
pub open spec fn right_of(order: Seq<usize>, j: int) -> usize {
    order[2 * j + 1]
}

/// `id` is the left edge of one of the first `k` pairs of `order`.
pub open spec fn is_left(order: Seq<usize>, k: int, id: usize) -> bool {
    exists|j: int| 0 <= j < k && #[trigger] left_of(order, j) == id
}

/// The trapezoids that pairing the first `k` pairs of `order` at the height
/// `y` completes, in the order of the pairs.
pub open spec fn emitted_upto<T: Real + ApproxEq>(
    all: &Edges<T>,
    order: Seq<usize>,
    y: T,
    k: nat,
) -> Seq<Trapezoid<T>>
    decreases k,
{
    if k == 0 {
        Seq::empty()
    } else {
        let j = (k - 1) as int;
        let earlier = emitted_upto(all, order, y, (k - 1) as nat);
        match all.at(left_of(order, j)).emitted(&all.at(right_of(order, j)), y, all) {
            Some(t) => earlier.push(t),
            None => earlier,
        }
    }
}

/// `after` is `before` once the first `k` pairs of `order` have been paired
/// at the height `y`: the left edge of each pair holds the partial
/// trapezoid that the pairing gives it, and nothing else has changed.
pub open spec fn pairs_updated<T: Real + ApproxEq>(
    before: &Edges<T>,
    after: &Edges<T>,
    order: Seq<usize>,
    y: T,
    k: int,
) -> bool {
    &&& after.edges@.len() == before.edges@.len()
    &&& forall|j: int|
        0 <= j < k ==> after.at(#[trigger] left_of(order, j)) == (BoEdge {
            trapezoid: Some(
                before.at(left_of(order, j)).paired(&before.at(right_of(order, j)), y, before),
            ),
            ..before.at(left_of(order, j))
        })
    &&& forall|id: usize|
        before.has(id) && !is_left(order, k, id) ==> #[trigger] after.at(id) == before.at(id)
}

/// The trapezoids that the pairing emits are those that its pairs
/// complete: a trapezoid is among them if and only if one of the pairs
/// completes it.
pub proof fn lemma_emitted_come_from_pairs<T: Real + ApproxEq>(
    all: &Edges<T>,
    order: Seq<usize>,
    y: T,
    k: nat,
    t: Trapezoid<T>,
)
    ensures
        emitted_upto(all, order, y, k).contains(t) <==> exists|j: int|
            0 <= j < k && #[trigger] all.at(left_of(order, j)).emitted(
                &all.at(right_of(order, j)),
                y,
                all,
            ) == Some(t),
    decreases k,
{
    if k == 0 {
        assert(!emitted_upto(all, order, y, k).contains(t)) by {
            if emitted_upto(all, order, y, k).contains(t) {
                let i = emitted_upto(all, order, y, k).index_of(t);
            }
        }
    } else {
        let last = (k - 1) as int;
        let earlier = emitted_upto(all, order, y, (k - 1) as nat);
        let now = emitted_upto(all, order, y, k);
        let made = all.at(left_of(order, last)).emitted(&all.at(right_of(order, last)), y, all);
        lemma_emitted_come_from_pairs(all, order, y, (k - 1) as nat, t);
        if now.contains(t) {
            let i = now.index_of(t);
            assert(now[i] == t);
            if made.is_some() && i == earlier.len() {
                assert(made == Some(t));
            } else {
                assert(earlier[i] == t);
                assert(earlier.contains(t));
                let j = choose|j: int|
                    0 <= j < k - 1 && #[trigger] all.at(left_of(order, j)).emitted(
                        &all.at(right_of(order, j)),
                        y,
                        all,
                    ) == Some(t);
                assert(0 <= j < k);
            }
        }
        if exists|j: int|
            0 <= j < k && #[trigger] all.at(left_of(order, j)).emitted(
                &all.at(right_of(order, j)),
                y,
                all,
            ) == Some(t) {
            let j = choose|j: int|
                0 <= j < k && #[trigger] all.at(left_of(order, j)).emitted(
                    &all.at(right_of(order, j)),
                    y,
                    all,
                ) == Some(t);
            if j == last {
                assert(now == earlier.push(t));
                assert(now[earlier.len() as int] == t);
            } else {
                assert(0 <= j < k - 1);
                assert(earlier.contains(t));
                let i = earlier.index_of(t);
                assert(earlier[i] == t);
                assert(now[i] == t);
            }
        }
    }
}

/// A pair whose left edge holds a partial trapezoid that is neither
/// upside down at the height `y` nor names a right edge on the line of
/// its new right neighbour emits a trapezoid exactly when the pairing
/// changes that partial trapezoid, and the trapezoid lies between the
/// line of the left edge and the line of the right edge that the partial
/// trapezoid named.
pub proof fn lemma_changed_pairs_emit<T: Real + ApproxEq>(
    all: &Edges<T>,
    left: &BoEdge<T>,
    right: &BoEdge<T>,
    y: T,
)
    requires
        left.trapezoid.is_some(),
        !crate::num::lt(y, left.trapezoid.unwrap().top),
        !all.at(left.trapezoid.unwrap().right_edge).colinear_spec(right),
    ensures
        left.emitted(right, y, all).is_some() <==> left.paired(right, y, all)
            != left.trapezoid.unwrap(),
        left.emitted(right, y, all) matches Some(t) ==> t.top == left.trapezoid.unwrap().top
            && t.bottom == y && t.left == all.at(left.id).edge.line() && t.right == all.at(
            left.trapezoid.unwrap().right_edge,
        ).edge.line(),
{
}

impl<T: Real + ApproxEq> SweepLine<T> {
    /// Pair the active edges two by two at the current height, and return
    /// the trapezoids that this completes.
    ///
    /// The tessellation is the plain pairing of neighbours: the fill rule
    /// is not consulted.
    #[verifier::spinoff_prover]
    pub fn trapezoids(&self, _fill_rule: FillRule, all: &mut Edges<T>) -> (r: Vec<Trapezoid<T>>)
        requires
            self.wf(old(all)),
            old(all).wf(),
        ensures
            r@ == emitted_upto(
                old(all),
                self.active@,
                self.current_y,
                (self.active@.len() / 2) as nat,
            ),
            pairs_updated(
                old(all),
                final(all),
                self.active@,
                self.current_y,
                self.active@.len() as int / 2,
            ),
            self.wf(final(all)),
            final(all).wf(),
            old(all).same_geometry(final(all)),
            forall|i: int| 0 <= i < r@.len() ==> (#[trigger] r@[i]).valid(),
            self.tidy(old(all)) ==> self.tidy(final(all)),
    {
        let current_y = self.current_y;
        let ghost s = self.active@;
        let pairs = self.active.pairs(all);
        let mut out: Vec<Trapezoid<T>> = Vec::new();
        let mut k: usize = 0;
        while k < pairs.len()
            invariant
                self.wf(old(all)),
                old(all).wf(),
                all.wf(),
                s == self.active@,
                current_y == self.current_y,
                pairs@.len() == s.len() / 2,
                forall|j: int|
                    0 <= j < pairs@.len() ==> #[trigger] pairs@[j] == (left_of(s, j), right_of(s, j)),
                0 <= k <= pairs@.len(),
                out@ == emitted_upto(old(all), s, current_y, k as nat),
                forall|i: int| 0 <= i < out@.len() ==> (#[trigger] out@[i]).valid(),
                pairs_updated(old(all), all, s, current_y, k as int),
                forall|i: int|
                    0 <= i < all.edges@.len() ==> {
                        &&& (#[trigger] all.edges@[i]).same_geometry(&old(all).edges@[i])
                        &&& all.edges@[i].prev == old(all).edges@[i].prev
                        &&& all.edges@[i].next == old(all).edges@[i].next
                    },
            decreases pairs@.len() - k,
        {
            let (l, r) = pairs[k];
            let ghost before = *all;
            proof {
                assert(pairs@[k as int] == (left_of(s, k as int), right_of(s, k as int)));
                assert(old(all).has(s[2 * k]) && old(all).has(s[2 * k + 1]));
                assert(!is_left(s, k as int, l)) by {
                    if is_left(s, k as int, l) {
                        let j = choose|j: int| 0 <= j < k && #[trigger] left_of(s, j) == l;
                        assert(s[2 * j] == s[2 * k]);
                    }
                }
                assert(all.at(l) == old(all).at(l));
                assert(!is_left(s, k as int, r)) by {
                    if is_left(s, k as int, r) {
                        let j = choose|j: int| 0 <= j < k && #[trigger] left_of(s, j) == r;
                        assert(s[2 * j] == s[2 * k + 1]);
                    }
                }
                assert(all.at(r) == old(all).at(r));
                assert(all.edges@[l - 1].id == l);
                assert(all.edges@[r - 1].id == r);
            }
            let right = *all.get(r);
            let mut left = *all.get(l);
            proof {
                if let Some(p) = left.trapezoid {
                    assert(all.edges@[p.right_edge - 1].wf());
                    p.lemma_completed_is_valid(
                        current_y,
                        all.at(l).edge.line(),
                        all.at(p.right_edge).edge.line(),
                    );
                }
            }
            let done = left.start_trapezoid(&right, current_y, all);
            all.set(l, left);
            if let Some(trapezoid) = done {
                out.push(trapezoid);
            }
            proof {
                let a = old(all).at(l);
                let b = old(all).at(r);
                assert(a.emitted(&b, current_y, &before) == a.emitted(&b, current_y, old(all))) by {
                    if let Some(p) = a.trapezoid {
                        assert(before.edges@[p.right_edge - 1].same_geometry(
                            &old(all).edges@[p.right_edge - 1],
                        ));
                        assert(before.edges@[l - 1].same_geometry(&old(all).edges@[l - 1]));
                    }
                }
                assert(a.paired(&b, current_y, &before) == a.paired(&b, current_y, old(all))) by {
                    if let Some(p) = a.trapezoid {
                        assert(before.edges@[p.right_edge - 1].same_geometry(
                            &old(all).edges@[p.right_edge - 1],
                        ));
                    }
                }
                assert forall|j: int| 0 <= j < k + 1 implies all.at(#[trigger] left_of(s, j)) == (BoEdge {
                    trapezoid: Some(
                        old(all).at(left_of(s, j)).paired(
                            &old(all).at(right_of(s, j)),
                            current_y,
                            old(all),
                        ),
                    ),
                    ..old(all).at(left_of(s, j))
                }) by {
                    if j < k {
                        assert(s[2 * j] != s[2 * k]);
                        assert(before.at(left_of(s, j)) == all.at(left_of(s, j)));
                    }
                }
                assert forall|id: usize| old(all).has(id) && !is_left(s, k + 1, id) implies #[trigger] all.at(
                    id,
                ) == old(all).at(id) by {
                    assert(left_of(s, k as int) == l);
                    assert(id != l);
                    assert(!is_left(s, k as int, id)) by {
                        if is_left(s, k as int, id) {
                            let j = choose|j: int| 0 <= j < k && #[trigger] left_of(s, j) == id;
                            assert(0 <= j < k + 1 && left_of(s, j) == id);
                        }
                    }
                    assert(before.at(id) == old(all).at(id));
                }
                assert forall|i: int| 0 <= i < all.edges@.len() implies {
                    &&& (#[trigger] all.edges@[i]).id == i + 1
                    &&& all.edges@[i].wf()
                    &&& all.edges@[i].trapezoid matches Some(p) ==> all.has(p.right_edge)
                } by {
                    assert(before.edges@[i].id == i + 1);
                }
            }
            k += 1;
        }
        proof {
            self.active.lemma_frame(old(all), all);
            self.leftovers.lemma_frame(old(all), all);
            assert forall|i: int| 0 <= i < old(all).edges@.len() implies (#[trigger] old(
                all,
            ).edges@[i]).same_geometry(&all.edges@[i]) by {
                assert(all.edges@[i].same_geometry(&old(all).edges@[i]));
            }
            if self.tidy(old(all)) {
                assert forall|id: usize|
                    all.has(id) && !self.active@.contains(id) && !self.leftovers@.contains(
                        id,
                    ) implies #[trigger] loose(all, id) by {
                    assert(loose(old(all), id));
                    assert(all.edges@[id - 1].prev == old(all).edges@[id - 1].prev);
                }
            }
        }
        out
    }
}

/// The trapezoids that completing the first `k` of the leftover edges
/// gives, each at the bottom of its own edge, in the order of the edges.
pub open spec fn completed_upto<T: Real + ApproxEq>(
    all: &Edges<T>,
    leftovers: Seq<usize>,
    k: nat,
) -> Seq<Trapezoid<T>>
    decreases k,
{
    if k == 0 {
        Seq::empty()
    } else {
        let earlier = completed_upto(all, leftovers, (k - 1) as nat);
        let e = all.at(leftovers[k - 1]);
        match e.trapezoid {
            None => earlier,
            Some(p) => match p.completed(
                e.edge.bottom(),
                e.edge.line(),
                all.at(p.right_edge).edge.line(),
            ) {
                Some(t) => earlier.push(t),
                None => earlier,
            },
        }
    }
}

/// `after` is `before` with the partial trapezoids and the links of the
/// edges of `cleared` taken away, and nothing else changed.
pub open spec fn partials_cleared<T: Copy>(
    before: &Edges<T>,
    after: &Edges<T>,
    cleared: Seq<usize>,
) -> bool {
    &&& after.edges@.len() == before.edges@.len()
    &&& forall|id: usize| #[trigger]
        before.has(id) ==> after.at(id) == (if cleared.contains(id) {
            BoEdge { trapezoid: None, prev: None, next: None, ..before.at(id) }
        } else {
            before.at(id)
        })
}

/// `after` is `before` with the links of the edges of `freed` taken away,
/// and the partial trapezoids of the first `k` of them.
pub open spec fn partly_cleared<T: Copy>(
    before: &Edges<T>,
    after: &Edges<T>,
    freed: Seq<usize>,
    k: int,
) -> bool {
    &&& after.edges@.len() == before.edges@.len()
    &&& forall|id: usize| #[trigger]
        before.has(id) ==> after.at(id) == (if freed.contains(id) {
            BoEdge {
                trapezoid: if freed.subrange(0, k).contains(id) {
                    None
                } else {
                    before.at(id).trapezoid
                },
                prev: None,
                next: None,
                ..before.at(id)
            }
        } else {
            before.at(id)
        })
}

impl<T: Real + ApproxEq> SweepLine<T> {
    /// Take out the leftover edges and complete the partial trapezoid of
    /// each at the bottom of its own segment. Returns the trapezoids that
    /// this gives, in the order of the leftovers.
    #[verifier::spinoff_prover]
    pub fn complete_leftovers(&mut self, all: &mut Edges<T>) -> (r: Vec<Trapezoid<T>>)
        requires
            old(self).wf(old(all)),
            old(all).wf(),
        ensures
            r@ == completed_upto(old(all), old(self).leftovers@, old(self).leftovers@.len()),
            partials_cleared(old(all), final(all), old(self).leftovers@),
            final(self).leftovers@ == Seq::<usize>::empty(),
            final(self).active == old(self).active,
            final(self).current_y == old(self).current_y,
            final(self).wf(final(all)),
            final(all).wf(),
            old(all).same_geometry(final(all)),
            forall|i: int| 0 <= i < r@.len() ==> (#[trigger] r@[i]).valid(),
            old(self).tidy(old(all)) ==> final(self).tidy(final(all)),
    {
        let ghost l = self.leftovers@;
        let ids = self.take_leftovers(all);
        let ghost taken = *all;
        proof {
            assert forall|i: int| 0 <= i < all.edges@.len() implies {
                &&& (#[trigger] all.edges@[i]).id == i + 1
                &&& all.edges@[i].wf()
                &&& all.edges@[i].trapezoid matches Some(p) ==> all.has(p.right_edge)
            } by {
                assert(old(all).edges.len() == old(all).edges@.len());
                assert(old(all).has((i + 1) as usize));
                assert(old(all).edges@[i].id == i + 1);
            }
            assert forall|x: usize| #[trigger] old(all).has(x) implies all.at(x) == (if l.contains(
                x,
            ) {
                BoEdge {
                    trapezoid: if l.subrange(0, 0).contains(x) {
                        None
                    } else {
                        old(all).at(x).trapezoid
                    },
                    prev: None,
                    next: None,
                    ..old(all).at(x)
                }
            } else {
                old(all).at(x)
            }) by {
                if l.subrange(0, 0).contains(x) {
                    let j = l.subrange(0, 0).index_of(x);
                }
            }
        }
        let mut out: Vec<Trapezoid<T>> = Vec::new();
        let mut k: usize = 0;
        while k < ids.len()
            invariant
                old(self).wf(old(all)),
                old(all).wf(),
                all.wf(),
                ids@ == l,
                l == old(self).leftovers@,
                0 <= k <= l.len(),
                out@ == completed_upto(old(all), l, k as nat),
                forall|i: int| 0 <= i < out@.len() ==> (#[trigger] out@[i]).valid(),
                partly_cleared(old(all), all, l, k as int),
            decreases l.len() - k,
        {
            let id = ids[k];
            let ghost upto = l.subrange(0, k as int);
            proof {
                assert(old(all).has(l[k as int]));
                assert(l.contains(id));
                assert(!upto.contains(id)) by {
                    if upto.contains(id) {
                        let j = upto.index_of(id);
                        assert(upto[j] == id);
                        assert(l[j] == l[k as int]);
                    }
                }
                assert(all.at(id).trapezoid == old(all).at(id).trapezoid);
                assert(all.edges@[id - 1].wf());
                assert(all.edges@[id - 1].id == id);
            }
            let mut edge = *all.get(id);
            let ghost before = *all;
            proof {
                if let Some(p) = edge.trapezoid {
                    assert(all.has(p.right_edge));
                    assert(all.edges@[p.right_edge - 1].wf());
                    assert(old(all).has(p.right_edge));
                    assert(all.at(p.right_edge).edge == old(all).at(p.right_edge).edge);
                    p.lemma_completed_is_valid(
                        edge.edge.bottom(),
                        all.at(id).edge.line(),
                        all.at(p.right_edge).edge.line(),
                    );
                }
            }
            let done = edge.complete_trapezoid(edge.edge().bottom(), all);
            all.set(id, edge);
            if let Some(trapezoid) = done {
                out.push(trapezoid);
            }
            proof {
                let next = l.subrange(0, k + 1);
                assert forall|x: usize| #[trigger] old(all).has(x) implies all.at(x) == (if l.contains(
                    x,
                ) {
                    BoEdge {
                        trapezoid: if next.contains(x) {
                            None
                        } else {
                            old(all).at(x).trapezoid
                        },
                        prev: None,
                        next: None,
                        ..old(all).at(x)
                    }
                } else {
                    old(all).at(x)
                }) by {
                    assert(before.has(x));
                    if x == id {
                        assert(next[k as int] == id);
                    } else {
                        assert(all.at(x) == before.at(x));
                        if upto.contains(x) {
                            let j = upto.index_of(x);
                            assert(upto[j] == x);
                            assert(next[j] == x);
                        }
                        if next.contains(x) {
                            let j = next.index_of(x);
                            assert(next[j] == x);
                            assert(upto[j] == x);
                        }
                    }
                }
                assert forall|i: int| 0 <= i < all.edges@.len() implies {
                    &&& (#[trigger] all.edges@[i]).id == i + 1
                    &&& all.edges@[i].wf()
                    &&& all.edges@[i].trapezoid matches Some(p) ==> all.has(p.right_edge)
                } by {
                    assert(before.edges@[i].id == i + 1);
                }
            }
            k += 1;
        }
        proof {
            assert(l.subrange(0, l.len() as int) == l);
            assert(old(all).edges.len() == old(all).edges@.len());
            assert forall|i: int| 0 <= i < old(all).edges@.len() implies (#[trigger] old(
                all,
            ).edges@[i]).same_geometry(&all.edges@[i]) by {
                assert(old(all).has((i + 1) as usize));
                assert(all.at((i + 1) as usize).same_geometry(&old(all).at((i + 1) as usize)));
            }
            assert forall|i: int| 0 <= i < self.active@.len() implies (#[trigger] all.at(
                self.active@[i],
            )).prev == taken.at(self.active@[i]).prev && all.at(self.active@[i]).next == taken.at(
                self.active@[i],
            ).next by {
                assert(old(all).has(self.active@[i]));
                assert(taken.has(self.active@[i]));
            }
            self.active.lemma_frame(&taken, all);
            if old(self).tidy(old(all)) {
                assert forall|id: usize|
                    all.has(id) && !self.active@.contains(id) && !self.leftovers@.contains(
                        id,
                    ) implies #[trigger] loose(all, id) by {
                    assert(old(all).has(id));
                    if !l.contains(id) {
                        assert(loose(old(all), id));
                    }
                }
            }
        }
        out
    }
}

/// The edge has ended at the height `y` or above it.
pub open spec fn ended_by<T: Real + ApproxEq>(all: &Edges<T>, id: usize, y: T) -> bool {
    crate::num::le(all.at(id).edge.bottom(), y)
}

/// Those of the first `k` leftover edges that have not ended by the height
/// `y`, in order.
pub open spec fn pending_upto<T: Real + ApproxEq>(
    all: &Edges<T>,
    leftovers: Seq<usize>,
    y: T,
    k: nat,
) -> Seq<usize>
    decreases k,
{
    if k == 0 {
        Seq::empty()
    } else {
        let earlier = pending_upto(all, leftovers, y, (k - 1) as nat);
        if ended_by(all, leftovers[k - 1], y) {
            earlier
        } else {
            earlier.push(leftovers[k - 1])
        }
    }
}

/// The trapezoids that completing those of the first `k` leftover edges
/// gives that have ended by the height `y`, each at the bottom of its own
/// edge, in the order of the edges.
pub open spec fn ended_upto<T: Real + ApproxEq>(
    all: &Edges<T>,
    leftovers: Seq<usize>,
    y: T,
    k: nat,
) -> Seq<Trapezoid<T>>
    decreases k,
{
    if k == 0 {
        Seq::empty()
    } else {
        let earlier = ended_upto(all, leftovers, y, (k - 1) as nat);
        let e = all.at(leftovers[k - 1]);
        match e.trapezoid {
            Some(p) if ended_by(all, leftovers[k - 1], y) => match p.completed(
                e.edge.bottom(),
                e.edge.line(),
                all.at(p.right_edge).edge.line(),
            ) {
                Some(t) => earlier.push(t),
                None => earlier,
            },
            _ => earlier,
        }
    }
}

/// `after` is `before` with the partial trapezoids taken away from those
/// of the first `k` edges of `leftovers` that have ended by the height
/// `y`. No links but those of edges of `leftovers` have changed.
pub open spec fn ended_cleared<T: Real + ApproxEq>(
    before: &Edges<T>,
    after: &Edges<T>,
    leftovers: Seq<usize>,
    y: T,
    k: int,
) -> bool {
    &&& after.edges@.len() == before.edges@.len()
    &&& forall|id: usize| #[trigger]
        before.has(id) ==> after.at(id) == (BoEdge {
            prev: after.at(id).prev,
            next: after.at(id).next,
            trapezoid: if leftovers.subrange(0, k).contains(id) && ended_by(before, id, y) {
                None
            } else {
                before.at(id).trapezoid
            },
            ..before.at(id)
        }) && (!leftovers.contains(id) ==> after.at(id).prev == before.at(id).prev && after.at(
            id,
        ).next == before.at(id).next)
}

/// The edges that are still pending are those of the leftover edges that
/// have not ended.
pub proof fn lemma_pending_are_leftovers<T: Real + ApproxEq>(
    all: &Edges<T>,
    leftovers: Seq<usize>,
    y: T,
    k: nat,
)
    requires
        k <= leftovers.len(),
    ensures
        forall|x: usize| #[trigger]
            pending_upto(all, leftovers, y, k).contains(x) <==> leftovers.subrange(
                0,
                k as int,
            ).contains(x) && !ended_by(all, x, y),
    decreases k,
{
    let now = pending_upto(all, leftovers, y, k);
    let upto = leftovers.subrange(0, k as int);
    if k == 0 {
        assert forall|x: usize| #[trigger] now.contains(x) <==> upto.contains(x) && !ended_by(
            all,
            x,
            y,
        ) by {
            if now.contains(x) {
                let i = now.index_of(x);
            }
            if upto.contains(x) {
                let i = upto.index_of(x);
            }
        }
    } else {
        lemma_pending_are_leftovers(all, leftovers, y, (k - 1) as nat);
        let earlier = pending_upto(all, leftovers, y, (k - 1) as nat);
        let before = leftovers.subrange(0, k - 1);
        let last = leftovers[k - 1];
        assert forall|x: usize| #[trigger] now.contains(x) <==> upto.contains(x) && !ended_by(
            all,
            x,
            y,
        ) by {
            if now.contains(x) {
                let i = now.index_of(x);
                assert(now[i] == x);
                if i < earlier.len() {
                    assert(earlier[i] == x);
                    assert(earlier.contains(x));
                    let j = before.index_of(x);
                    assert(before[j] == x);
                    assert(upto[j] == x);
                } else {
                    assert(upto[k - 1] == x);
                }
            }
            if upto.contains(x) && !ended_by(all, x, y) {
                let j = upto.index_of(x);
                assert(upto[j] == x);
                if j < k - 1 {
                    assert(before[j] == x);
                    assert(earlier.contains(x));
                    let i = earlier.index_of(x);
                    assert(earlier[i] == x);
                    assert(now[i] == x);
                } else {
                    assert(x == last);
                    assert(now[earlier.len() as int] == x);
                }
            }
        }
    }
}

impl<T: Real + ApproxEq> SweepLine<T> {
    /// Complete the partial trapezoids of the leftover edges that have
    /// ended by the height of the sweep line, each at the bottom of its own
    /// segment. Returns the trapezoids that this gives, in the order of the
    /// leftovers. The edges that have not ended stay leftovers, in order.
    #[verifier::spinoff_prover]
    pub fn complete_ended_leftovers(&mut self, all: &mut Edges<T>) -> (r: Vec<Trapezoid<T>>)
        requires
            old(self).wf(old(all)),
            old(all).wf(),
        ensures
            r@ == ended_upto(
                old(all),
                old(self).leftovers@,
                old(self).current_y,
                old(self).leftovers@.len(),
            ),
            final(self).leftovers@ == pending_upto(
                old(all),
                old(self).leftovers@,
                old(self).current_y,
                old(self).leftovers@.len(),
            ),
            ended_cleared(
                old(all),
                final(all),
                old(self).leftovers@,
                old(self).current_y,
                old(self).leftovers@.len() as int,
            ),
            final(self).active == old(self).active,
            final(self).current_y == old(self).current_y,
            final(self).wf(final(all)),
            final(all).wf(),
            old(all).same_geometry(final(all)),
            forall|x: usize| #[trigger]
                final(self).leftovers@.contains(x) ==> old(self).leftovers@.contains(x),
            forall|i: int| 0 <= i < r@.len() ==> (#[trigger] r@[i]).valid(),
            old(self).tidy(old(all)) ==> final(self).tidy(final(all)),
    {
        let ghost l = self.leftovers@;
        let ghost s = self.active@;
        let y = self.current_y;
        let ids = self.take_leftovers(all);
        proof {
            assert(old(all).edges.len() == old(all).edges@.len());
            assert forall|i: int| 0 <= i < all.edges@.len() implies {
                &&& (#[trigger] all.edges@[i]).id == i + 1
                &&& all.edges@[i].wf()
                &&& all.edges@[i].trapezoid matches Some(p) ==> all.has(p.right_edge)
            } by {
                assert(old(all).has((i + 1) as usize));
                assert(old(all).edges@[i].id == i + 1);
            }
            assert forall|x: usize| #[trigger] old(all).has(x) implies all.at(x) == (BoEdge {
                prev: all.at(x).prev,
                next: all.at(x).next,
                trapezoid: if l.subrange(0, 0).contains(x) && ended_by(old(all), x, y) {
                    None
                } else {
                    old(all).at(x).trapezoid
                },
                ..old(all).at(x)
            }) && (!l.contains(x) ==> all.at(x).prev == old(all).at(x).prev && all.at(x).next
                == old(all).at(x).next) by {
                if l.subrange(0, 0).contains(x) {
                    let j = l.subrange(0, 0).index_of(x);
                }
            }
            assert forall|i: int| 0 <= i < l.len() implies loose(all, #[trigger] l[i]) by {
                assert(old(all).has(l[i]));
                assert(l.contains(l[i]));
            }
        }
        let mut out: Vec<Trapezoid<T>> = Vec::new();
        let mut k: usize = 0;
        while k < ids.len()
            invariant
                old(self).wf(old(all)),
                old(all).wf(),
                all.wf(),
                self.wf(all),
                self.active == old(self).active,
                self.current_y == old(self).current_y,
                y == self.current_y,
                s == self.active@,
                ids@ == l,
                l == old(self).leftovers@,
                0 <= k <= l.len(),
                out@ == ended_upto(old(all), l, y, k as nat),
                self.leftovers@ == pending_upto(old(all), l, y, k as nat),
                forall|i: int| 0 <= i < out@.len() ==> (#[trigger] out@[i]).valid(),
                ended_cleared(old(all), all, l, y, k as int),
                forall|i: int| k <= i < l.len() ==> loose(all, #[trigger] l[i]),
                forall|i: int|
                    0 <= i < k && ended_by(old(all), l[i], y) ==> loose(all, #[trigger] l[i]),
            decreases l.len() - k,
        {
            let id = ids[k];
            let ghost before = *all;
            let ghost upto = l.subrange(0, k as int);
            let ghost next = l.subrange(0, k + 1);
            proof {
                T::lemma_laws();
                assert(old(all).has(l[k as int]));
                assert(l.contains(id));
                assert(!upto.contains(id)) by {
                    if upto.contains(id) {
                        let j = upto.index_of(id);
                        assert(upto[j] == id);
                        assert(l[j] == l[k as int]);
                    }
                }
                assert(all.at(id).trapezoid == old(all).at(id).trapezoid);
                assert(all.at(id).edge == old(all).at(id).edge);
                assert(all.edges@[id - 1].wf());
                assert(all.edges@[id - 1].id == id);
                assert(!s.contains(id)) by {
                    if s.contains(id) {
                        let a = s.index_of(id);
                        assert(s[a] == l[k as int]);
                    }
                }
                lemma_pending_are_leftovers(old(all), l, y, k as nat);
                assert(!self.leftovers@.contains(id));
                assert forall|x: usize| next.contains(x) <==> upto.contains(x) || x == id by {
                    if next.contains(x) {
                        let j = next.index_of(x);
                        assert(next[j] == x);
                        if j < k {
                            assert(upto[j] == x);
                        }
                    }
                    if upto.contains(x) {
                        let j = upto.index_of(x);
                        assert(upto[j] == x);
                        assert(next[j] == x);
                    }
                    assert(next[k as int] == id);
                }
            }
            if all.get(id).edge().bottom() <= y {
                let mut edge = *all.get(id);
                proof {
                    if let Some(p) = edge.trapezoid {
                        assert(all.has(p.right_edge));
                        assert(all.edges@[p.right_edge - 1].wf());
                        assert(old(all).has(p.right_edge));
                        assert(all.at(p.right_edge).edge == old(all).at(p.right_edge).edge);
                        p.lemma_completed_is_valid(
                            edge.edge.bottom(),
                            all.at(id).edge.line(),
                            all.at(p.right_edge).edge.line(),
                        );
                    }
                }
                let done = edge.complete_trapezoid(edge.edge().bottom(), all);
                all.set(id, edge);
                if let Some(trapezoid) = done {
                    out.push(trapezoid);
                }
                proof {
                    assert forall|i: int| 0 <= i < all.edges@.len() implies {
                        &&& (#[trigger] all.edges@[i]).id == i + 1
                        &&& all.edges@[i].wf()
                        &&& all.edges@[i].trapezoid matches Some(p) ==> all.has(p.right_edge)
                    } by {
                        assert(before.edges@[i].id == i + 1);
                    }
                    assert forall|i: int| 0 <= i < s.len() implies (#[trigger] all.at(s[i])).prev
                        == before.at(s[i]).prev && all.at(s[i]).next == before.at(s[i]).next by {
                        assert(before.has(s[i]));
                    }
                    self.active.lemma_frame(&before, all);
                    let m = self.leftovers@;
                    assert forall|i: int| 0 <= i < m.len() implies (#[trigger] all.at(m[i])).prev
                        == before.at(m[i]).prev && all.at(m[i]).next == before.at(m[i]).next by {
                        assert(before.has(m[i]));
                    }
                    self.leftovers.lemma_frame(&before, all);
                    assert forall|x: usize| #[trigger] old(all).has(x) implies all.at(x) == (BoEdge {
                        prev: all.at(x).prev,
                        next: all.at(x).next,
                        trapezoid: if next.contains(x) && ended_by(old(all), x, y) {
                            None
                        } else {
                            old(all).at(x).trapezoid
                        },
                        ..old(all).at(x)
                    }) && (!l.contains(x) ==> all.at(x).prev == old(all).at(x).prev && all.at(
                        x,
                    ).next == old(all).at(x).next) by {
                        assert(before.has(x));
                        if x != id {
                            assert(all.at(x) == before.at(x));
                        }
                    }
                    assert forall|i: int| 0 <= i < l.len() && loose(&before, l[i]) implies loose(
                        all,
                        #[trigger] l[i],
                    ) by {
                        assert(before.has(l[i]));
                    }
                }
            } else {
                self.leftovers.push(id, all);
                proof {
                    let m0 = pending_upto(old(all), l, y, k as nat);
                    super::edge::lemma_links_keep_edges(&before, all, m0.to_set().insert(id));
                    assert forall|i: int| 0 <= i < s.len() implies (#[trigger] all.at(s[i])).prev
                        == before.at(s[i]).prev && all.at(s[i]).next == before.at(s[i]).next by {
                        assert(before.has(s[i]));
                        assert(s[i] != id);
                        if m0.contains(s[i]) {
                            assert(upto.contains(s[i]));
                            let j = upto.index_of(s[i]);
                            assert(upto[j] == s[i]);
                            assert(l[j] == s[i]);
                        }
                    }
                    self.active.lemma_frame(&before, all);
                    let m = self.leftovers@;
                    assert forall|a: int, b: int|
                        0 <= a < s.len() && 0 <= b < m.len() implies #[trigger] s[a]
                        != #[trigger] m[b] by {
                        if b < m0.len() {
                            assert(m[b] == m0[b]);
                            assert(m0.contains(m0[b]));
                            assert(upto.contains(m0[b]));
                            let j = upto.index_of(m0[b]);
                            assert(upto[j] == m0[b]);
                            assert(l[j] == m0[b]);
                        } else {
                            assert(m[b] == id);
                        }
                    }
                    assert forall|x: usize| #[trigger] old(all).has(x) implies all.at(x) == (BoEdge {
                        prev: all.at(x).prev,
                        next: all.at(x).next,
                        trapezoid: if next.contains(x) && ended_by(old(all), x, y) {
                            None
                        } else {
                            old(all).at(x).trapezoid
                        },
                        ..old(all).at(x)
                    }) && (!l.contains(x) ==> all.at(x).prev == old(all).at(x).prev && all.at(
                        x,
                    ).next == old(all).at(x).next) by {
                        assert(before.has(x));
                        assert(super::linked_list::relinked(&before, all, x));
                        if !l.contains(x) {
                            assert(x != id);
                            if m0.contains(x) {
                                assert(upto.contains(x));
                                let j = upto.index_of(x);
                                assert(upto[j] == x);
                                assert(l[j] == x);
                            }
                            assert(all.at(x) == before.at(x));
                        }
                    }
                    assert forall|i: int| k < i < l.len() implies loose(all, #[trigger] l[i]) by {
                        assert(before.has(l[i]));
                        assert(l[i] != id);
                        if m0.contains(l[i]) {
                            assert(upto.contains(l[i]));
                            let j = upto.index_of(l[i]);
                            assert(upto[j] == l[i]);
                            assert(l[j] == l[i]);
                        }
                        assert(all.at(l[i]) == before.at(l[i]));
                    }
                    assert forall|i: int| 0 <= i < k && ended_by(old(all), l[i], y) implies loose(
                        all,
                        #[trigger] l[i],
                    ) by {
                        assert(before.has(l[i]));
                        assert(l[i] != id);
                        assert(!m0.contains(l[i]));
                        assert(all.at(l[i]) == before.at(l[i]));
                    }
                }
            }
            k += 1;
        }
        proof {
            lemma_pending_are_leftovers(old(all), l, y, l.len());
            assert(l.subrange(0, l.len() as int) == l);
            if old(self).tidy(old(all)) {
                assert forall|id: usize|
                    all.has(id) && !self.active@.contains(id) && !self.leftovers@.contains(
                        id,
                    ) implies #[trigger] loose(all, id) by {
                    assert(old(all).has(id));
                    if l.contains(id) {
                        let j = l.index_of(id);
                        assert(l[j] == id);
                        assert(ended_by(old(all), id, y));
                    } else {
                        assert(loose(old(all), id));
                    }
                }
            }
            assert(old(all).edges.len() == old(all).edges@.len());
            assert forall|i: int| 0 <= i < old(all).edges@.len() implies (#[trigger] old(
                all,
            ).edges@[i]).same_geometry(&all.edges@[i]) by {
                assert(old(all).has((i + 1) as usize));
                assert(all.at((i + 1) as usize).same_geometry(&old(all).at((i + 1) as usize)));
            }
        }
        out
    }
}

} // verus!
