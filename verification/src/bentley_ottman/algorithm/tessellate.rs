//! The part of the sweep that builds trapezoids.

use super::edge::{lemma_links_keep_edges, BoEdge, Edges};
use super::events::{lemma_queue_frame, lemma_skip_spurious_settles, skip_spurious};
use super::linked_list::relinked;
use super::sweep_line::{
    completed_upto, emitted_upto, ended_cleared, ended_upto, pairs_updated, partials_cleared,
    pending_upto,
};
use super::{Algorithm, Variant};
use crate::bentley_ottman::Event;
use crate::num::{le, Real};
use crate::trapezoid::Trapezoid;
use crate::ApproxEq;
use vstd::prelude::*;

verus! {

/// Appends the trapezoids of `more` to `buffer`.
pub fn append_all<T: Copy>(buffer: &mut Vec<Trapezoid<T>>, more: Vec<Trapezoid<T>>)
    ensures
        final(buffer)@ == old(buffer)@ + more@,
{
    let mut i: usize = 0;
    while i < more.len()
        invariant
            0 <= i <= more@.len(),
            buffer@ == old(buffer)@ + more@.subrange(0, i as int),
        decreases more@.len() - i,
    {
        buffer.push(more[i]);
        proof {
            assert(more@.subrange(0, i as int).push(more@[i as int]) == more@.subrange(0, i + 1));
        }
        i += 1;
    }
    proof {
        assert(more@.subrange(0, more@.len() as int) == more@);
    }
}

impl<T: Real + ApproxEq> Algorithm<T> {
    /// `post` is `pre` with other edges, lists and buffered trapezoids:
    /// the queue, the height of the sweep line and the kind of the variant
    /// with its flag, fill rule and budget are the same.
    pub open spec fn same_course(pre: &Self, post: &Self) -> bool {
        &&& post.event_queue == pre.event_queue
        &&& post.sweep_line.current_y == pre.sweep_line.current_y
        &&& match (pre.variant, post.variant) {
            (Variant::NoTrapezoids, Variant::NoTrapezoids) => true,
            (Variant::Trapezoids(a), Variant::Trapezoids(b)) => a.fused_leftovers
                == b.fused_leftovers && a.fill_rule == b.fill_rule && a.budget == b.budget,
            _ => false,
        }
    }

    /// The edge `e` takes over the partial trapezoid of the leftover edge
    /// `l`: `l` has ended no higher than `e` begins, and `e` lies on its
    /// line.
    pub open spec fn fusable(all: &Edges<T>, e: usize, l: usize) -> bool {
        le(all.at(e).edge.top(), all.at(l).edge.bottom()) && all.at(e).colinear_spec(&all.at(l))
    }

    /// `k` is the place of the first leftover edge whose partial trapezoid
    /// `e` takes over, or the number of the leftovers where there is none.
    pub open spec fn fuse_point(all: &Edges<T>, leftovers: Seq<usize>, e: usize, k: int) -> bool {
        &&& 0 <= k <= leftovers.len()
        &&& forall|j: int| 0 <= j < k ==> !Self::fusable(all, e, #[trigger] leftovers[j])
        &&& k < leftovers.len() ==> Self::fusable(all, e, leftovers[k])
    }

    /// `post` is what the sweep `pre` becomes when the active edge `e` takes
    /// over the partial trapezoid of the leftover edge at the place `k`,
    /// and that edge leaves the leftovers.
    pub open spec fn handed_over(pre: &Self, post: &Self, e: usize, k: int) -> bool {
        let l = pre.sweep_line.leftovers@;
        &&& Self::same_course(pre, post)
        &&& post.variant == pre.variant
        &&& post.sweep_line.active == pre.sweep_line.active
        &&& post.sweep_line.leftovers@ == l.remove(k)
        &&& post.edges.edges@.len() == pre.edges.edges@.len()
        &&& forall|id: usize| #[trigger]
            pre.edges.has(id) ==> post.edges.at(id) == (BoEdge {
                prev: post.edges.at(id).prev,
                next: post.edges.at(id).next,
                trapezoid: if id == e {
                    pre.edges.at(l[k]).trapezoid
                } else if id == l[k] {
                    None
                } else {
                    pre.edges.at(id).trapezoid
                },
                ..pre.edges.at(id)
            }) && (!l.contains(id) ==> post.edges.at(id).prev == pre.edges.at(id).prev
                && post.edges.at(id).next == pre.edges.at(id).next)
    }

    /// `post` is what the sweep `pre` becomes when the edge `e`, which has
    /// just started, is joined with the leftovers.
    ///
    /// In the variant with trapezoids, the first leftover edge that `e`
    /// continues hands its partial trapezoid to `e` and leaves the
    /// leftovers. Nothing changes where there is no such edge, and in the
    /// variant without trapezoids.
    pub open spec fn fused(pre: &Self, post: &Self, e: usize) -> bool {
        let l = pre.sweep_line.leftovers@;
        if pre.variant is NoTrapezoids {
            Self::unchanged(pre, post)
        } else {
            exists|k: int|
                Self::fuse_point(&pre.edges, l, e, k) && (if k == l.len() {
                    Self::unchanged(pre, post)
                } else {
                    Self::handed_over(pre, post, e, k)
                })
        }
    }

    /// Joining an edge with the leftovers leaves the active list as it is.
    pub proof fn lemma_fused_keeps_active(pre: &Self, post: &Self, e: usize)
        requires
            Self::fused(pre, post, e),
        ensures
            post.sweep_line.active == pre.sweep_line.active,
    {
    }

    /// Walks the leftovers for the first edge whose partial trapezoid the
    /// edge takes over. Returns its handle, if there is one, and its place.
    fn find_fusable(&self, edge: usize) -> (r: (Option<usize>, Ghost<int>))
        requires
            self.wf(),
            self.edges.has(edge),
        ensures
            Self::fuse_point(&self.edges, self.sweep_line.leftovers@, edge, r.1@),
            r.0 == (if r.1@ < self.sweep_line.leftovers@.len() {
                Some(self.sweep_line.leftovers@[r.1@])
            } else {
                None
            }),
    {
        let ghost l = self.sweep_line.leftovers@;
        let ids = self.sweep_line.leftovers(&self.edges);
        let mut k: usize = 0;
        while k < ids.len()
            invariant
                self.wf(),
                self.edges.has(edge),
                l == self.sweep_line.leftovers@,
                ids@ == l,
                0 <= k <= l.len(),
                forall|j: int| 0 <= j < k ==> !Self::fusable(&self.edges, edge, #[trigger] l[j]),
            decreases l.len() - k,
        {
            let line = ids[k];
            proof {
                T::lemma_laws();
            }
            assert(self.edges.has(l[k as int]));
            if self.edges.get(edge).edge().top() <= self.edges.get(line).edge().bottom()
                && self.edges.get(edge).colinear(self.edges.get(line)) {
                return (Some(line), Ghost(k as int));
            }
            k += 1;
        }
        (None, Ghost(k as int))
    }

    /// Moves the partial trapezoid of the leftover edge `line` to the
    /// active edge `edge`, and takes `line` out of the leftovers.
    #[verifier::spinoff_prover]
    fn hand_over(&mut self, edge: usize, line: usize, Ghost(k): Ghost<int>)
        requires
            old(self).wf(),
            old(self).sweep_line.active@.contains(edge),
            0 <= k < old(self).sweep_line.leftovers@.len(),
            old(self).sweep_line.leftovers@[k] == line,
        ensures
            Self::handed_over(old(self), final(self), edge, k),
            final(self).wf(),
            Self::steady(old(self), final(self)),
    {
        let ghost s = self.sweep_line.active@;
        let ghost l = self.sweep_line.leftovers@;
        let ghost q = self.queue();
        proof {
            self.sweep_line.active.lemma_neighbours(&self.edges, edge);
            assert(self.edges.has(l[k]));
            assert(l.contains(line));
            assert(s.contains(edge));
            let a = s.index_of(edge);
            assert(s[a] != l[k]);
        }
        self.edges.move_trapezoid(edge, line);
        let ghost mid = self.edges;
        proof {
            assert forall|id: usize| #[trigger] old(self).edges.has(id) implies mid.at(id).prev
                == old(self).edges.at(id).prev && mid.at(id).next == old(self).edges.at(id).next by {}
            self.sweep_line.lemma_links_frame(&old(self).edges, &mid);
        }
        self.sweep_line.remove_leftover(line, &mut self.edges);
        proof {
            let l2 = self.sweep_line.leftovers@;
            assert(l.index_of(line) == k) by {
                let a = l.index_of(line);
                assert(l[a] == l[k]);
            }
            lemma_links_keep_edges(&mid, &self.edges, l.to_set());
            old(self).edges.lemma_same_geometry_trans(&mid, &self.edges);
            assert forall|i: int| 0 <= i < q.len() && (#[trigger] q[i]).event_type is Start implies !s.contains(
                q[i].edge_id,
            ) && !l2.contains(q[i].edge_id) by {
                let x = q[i].edge_id;
                assert(!l.contains(x));
                if l2.contains(x) {
                    let b = l2.index_of(x);
                    assert(l2[b] == x);
                    let b0 = if b < k {
                        b
                    } else {
                        b + 1
                    };
                    assert(l[b0] == x);
                }
            }
            lemma_queue_frame(&old(self).edges, &self.edges, s, l, s, l2, q);
            assert forall|id: usize| #[trigger] old(self).edges.has(id) implies self.edges.at(id)
                == (BoEdge {
                prev: self.edges.at(id).prev,
                next: self.edges.at(id).next,
                trapezoid: if id == edge {
                    old(self).edges.at(l[k]).trapezoid
                } else if id == l[k] {
                    None
                } else {
                    old(self).edges.at(id).trapezoid
                },
                ..old(self).edges.at(id)
            }) && (!l.contains(id) ==> self.edges.at(id).prev == old(self).edges.at(id).prev
                && self.edges.at(id).next == old(self).edges.at(id).next) by {
                assert(mid.has(id));
                assert(relinked(&mid, &self.edges, id));
                assert(mid.at(id).prev == old(self).edges.at(id).prev);
            }
        }
    }

    /// See if the edge that has just started continues a leftover edge,
    /// and hand it the partial trapezoid of the first one that it does.
    pub fn fuse_leftover(&mut self, edge: usize)
        requires
            old(self).wf(),
            old(self).sweep_line.active@.contains(edge),
        ensures
            Self::fused(old(self), final(self), edge),
            final(self).wf(),
            Self::steady(old(self), final(self)),
    {
        proof {
            self.edges.lemma_same_geometry_refl();
        }
        match &self.variant {
            Variant::NoTrapezoids => {
                return ;
            },
            Variant::Trapezoids(_) => {},
        }
        proof {
            self.sweep_line.active.lemma_neighbours(&self.edges, edge);
        }
        // iterate over the leftover edges and see if we need
        let (found, Ghost(k)) = self.find_fusable(edge);
        if let Some(line) = found {
            // remove the leftover and break
            self.hand_over(edge, line, Ghost(k));
        }
    }

    /// `post` is what the sweep `pre` becomes when the leftover edges are
    /// taken out and their partial trapezoids completed, each at the bottom
    /// of its own edge, and the trapezoids put into the buffer.
    pub open spec fn drained(pre: &Self, post: &Self) -> bool {
        let l = pre.sweep_line.leftovers@;
        &&& Self::same_course(pre, post)
        &&& post.sweep_line.active == pre.sweep_line.active
        &&& post.sweep_line.leftovers@ == Seq::<usize>::empty()
        &&& partials_cleared(&pre.edges, &post.edges, l)
        &&& post.variant.buffer() == (if pre.variant is Trapezoids {
            pre.variant.buffer() + completed_upto(&pre.edges, l, l.len())
        } else {
            pre.variant.buffer()
        })
    }

    /// Completes the partial trapezoids of the leftover edges, and puts the
    /// trapezoids into the buffer, where there is one.
    #[verifier::spinoff_prover]
    pub fn drain_leftovers(&mut self)
        requires
            old(self).wf(),
        ensures
            Self::drained(old(self), final(self)),
            final(self).wf(),
            Self::steady(old(self), final(self)),
    {
        let ghost q = self.queue();
        let ghost s = self.sweep_line.active@;
        let ghost l = self.sweep_line.leftovers@;
        let done = self.sweep_line.complete_leftovers(&mut self.edges);
        proof {
            assert forall|i: int| 0 <= i < q.len() && (#[trigger] q[i]).event_type is Start implies !s.contains(
                q[i].edge_id,
            ) && !Seq::<usize>::empty().contains(q[i].edge_id) by {}
            lemma_queue_frame(&old(self).edges, &self.edges, s, l, s, Seq::empty(), q);
        }
        match &mut self.variant {
            Variant::NoTrapezoids => {},
            Variant::Trapezoids(t) => {
                append_all(&mut t.trapezoids, done);
            },
        }
    }

    /// `post` is what the sweep `pre` becomes when the partial trapezoids
    /// of the leftover edges that have ended by the height of the sweep
    /// line are completed, each at the bottom of its own edge, and the
    /// trapezoids put into the buffer. Those edges leave the leftovers.
    pub open spec fn ended_drained(pre: &Self, post: &Self) -> bool {
        let l = pre.sweep_line.leftovers@;
        let y = pre.sweep_line.current_y;
        &&& Self::same_course(pre, post)
        &&& post.sweep_line.active == pre.sweep_line.active
        &&& post.sweep_line.leftovers@ == pending_upto(&pre.edges, l, y, l.len())
        &&& ended_cleared(&pre.edges, &post.edges, l, y, l.len() as int)
        &&& post.variant.buffer() == (if pre.variant is Trapezoids {
            pre.variant.buffer() + ended_upto(&pre.edges, l, y, l.len())
        } else {
            pre.variant.buffer()
        })
    }

    /// Completes the partial trapezoids of the leftover edges that have
    /// ended by the height of the sweep line, and puts the trapezoids into
    /// the buffer, where there is one.
    #[verifier::spinoff_prover]
    pub fn drain_ended_leftovers(&mut self)
        requires
            old(self).wf(),
        ensures
            Self::ended_drained(old(self), final(self)),
            final(self).wf(),
            Self::steady(old(self), final(self)),
            forall|x: usize| #[trigger]
                final(self).sweep_line.leftovers@.contains(x) ==> old(
                    self,
                ).sweep_line.leftovers@.contains(x),
    {
        let ghost q = self.queue();
        let ghost s = self.sweep_line.active@;
        let ghost l = self.sweep_line.leftovers@;
        let done = self.sweep_line.complete_ended_leftovers(&mut self.edges);
        proof {
            let l2 = self.sweep_line.leftovers@;
            assert forall|i: int| 0 <= i < q.len() && (#[trigger] q[i]).event_type is Start implies !s.contains(
                q[i].edge_id,
            ) && !l2.contains(q[i].edge_id) by {
                assert(!l.contains(q[i].edge_id));
            }
            lemma_queue_frame(&old(self).edges, &self.edges, s, l, s, l2, q);
        }
        match &mut self.variant {
            Variant::NoTrapezoids => {},
            Variant::Trapezoids(t) => {
                append_all(&mut t.trapezoids, done);
            },
        }
    }

    /// `post` is what the sweep `pre` becomes when the active edges are
    /// paired two by two at the height of the sweep line, and the
    /// trapezoids that this completes are put into the buffer.
    pub open spec fn paired_up(pre: &Self, post: &Self) -> bool {
        let s = pre.sweep_line.active@;
        let y = pre.sweep_line.current_y;
        &&& Self::same_course(pre, post)
        &&& post.sweep_line == pre.sweep_line
        &&& pairs_updated(&pre.edges, &post.edges, s, y, s.len() as int / 2)
        &&& post.variant.buffer() == pre.variant.buffer() + emitted_upto(
            &pre.edges,
            s,
            y,
            (s.len() / 2) as nat,
        )
    }

    /// Pairs the active edges at the height of the sweep line and puts the
    /// completed trapezoids into the buffer.
    #[verifier::spinoff_prover]
    pub fn pair_active(&mut self)
        requires
            old(self).wf(),
            old(self).variant is Trapezoids,
        ensures
            Self::paired_up(old(self), final(self)),
            final(self).wf(),
            Self::steady(old(self), final(self)),
    {
        let ghost q = self.queue();
        let ghost s = self.sweep_line.active@;
        let ghost l = self.sweep_line.leftovers@;
        match &mut self.variant {
            Variant::NoTrapezoids => {},
            Variant::Trapezoids(t) => {
                let done = self.sweep_line.trapezoids(t.fill_rule, &mut self.edges);
                append_all(&mut t.trapezoids, done);
            },
        }
        proof {
            lemma_queue_frame(&old(self).edges, &self.edges, s, l, s, l, q);
            let b = self.variant.buffer();
            let b0 = old(self).variant.buffer();
            assert forall|i: int| 0 <= i < b.len() implies (#[trigger] b[i]).valid() by {
                if i < b0.len() {
                    assert(b[i] == b0[i]);
                }
            }
        }
    }

    /// `post` is what the sweep `pre` becomes before it handles an event
    /// at the height `new_y`.
    ///
    /// The variant without trapezoids does nothing, and the other does
    /// nothing unless the height is approximately that of the sweep line.
    /// It then completes the trapezoids of the leftovers that have ended
    /// and pairs the active edges.
    pub open spec fn advanced(pre: &Self, post: &Self, new_y: T) -> bool {
        if pre.variant is Trapezoids && pre.sweep_line.current_y.approx_eq_spec(&new_y) {
            exists|mid: Self| Self::ended_drained(pre, &mid) && Self::paired_up(&mid, post)
        } else {
            Self::unchanged(pre, post)
        }
    }

    /// Complete the trapezoid computation for the height of the sweep
    /// line, before an event at the height `new_y` is handled.
    pub fn increment_y(&mut self, new_y: T)
        requires
            old(self).wf(),
        ensures
            Self::advanced(old(self), final(self), new_y),
            final(self).wf(),
            Self::steady(old(self), final(self)),
            final(self).sweep_line.active == old(self).sweep_line.active,
            final(self).event_queue == old(self).event_queue,
            forall|x: usize| #[trigger]
                final(self).sweep_line.leftovers@.contains(x) ==> old(
                    self,
                ).sweep_line.leftovers@.contains(x),
    {
        let wanted = match &self.variant {
            Variant::NoTrapezoids => false,
            Variant::Trapezoids(_) => self.sweep_line.current_y().approx_eq(&new_y),
        };
        if wanted {
            // we may need to iterate over the stopped lines to
            // see if there are any trapezoids we can use
            self.drain_ended_leftovers();
            let ghost mid = *self;
            // combine that with the traps that the sweep line may be
            // generating for us
            self.pair_active();
            proof {
                assert(Self::ended_drained(old(self), &mid) && Self::paired_up(&mid, self));
                old(self).edges.lemma_same_geometry_trans(&mid.edges, &self.edges);
            }
        } else {
            proof {
                self.edges.lemma_same_geometry_refl();
            }
        }
    }

    /// The number of rounds that the tessellation may still take; none in
    /// the variant without trapezoids.
    pub open spec fn rounds_left(&self) -> usize {
        match self.variant {
            Variant::Trapezoids(t) => t.budget,
            Variant::NoTrapezoids => 0,
        }
    }

    /// The tessellation has nothing more to give: the buffer is empty, and
    /// either the budget is used up, or the last leftovers have been
    /// completed and the sweep has no event left to visit.
    pub open spec fn finished(&self) -> bool {
        &&& self.variant.buffer().len() == 0
        &&& self.rounds_left() == 0 || (self.closed() && skip_spurious(
            &self.edges,
            self.queue(),
        ).0.is_none())
    }

    /// The flag is set that says that the last leftovers have been
    /// completed.
    pub open spec fn closed(&self) -> bool {
        self.variant matches Variant::Trapezoids(t) && t.fused_leftovers
    }

    /// `post` is `pre` with one round less to take.
    pub open spec fn charged(pre: &Self, post: &Self) -> bool {
        &&& post.edges == pre.edges
        &&& post.sweep_line == pre.sweep_line
        &&& post.event_queue == pre.event_queue
        &&& post.variant.buffer() == pre.variant.buffer()
        &&& match (pre.variant, post.variant) {
            (Variant::Trapezoids(a), Variant::Trapezoids(b)) => a.fused_leftovers
                == b.fused_leftovers && a.fill_rule == b.fill_rule && a.budget == b.budget + 1,
            _ => false,
        }
    }

    /// `post` is `pre` with the flag set that says that the last leftovers
    /// have been completed.
    pub open spec fn flagged(pre: &Self, post: &Self) -> bool {
        &&& post.edges == pre.edges
        &&& post.sweep_line == pre.sweep_line
        &&& post.event_queue == pre.event_queue
        &&& post.variant.buffer() == pre.variant.buffer()
        &&& match (pre.variant, post.variant) {
            (Variant::Trapezoids(a), Variant::Trapezoids(b)) => b.fused_leftovers && a.fill_rule
                == b.fill_rule && a.budget == b.budget,
            _ => false,
        }
    }

    /// `post` is what the tessellation `pre`, with nothing in its buffer and
    /// a round left to take, becomes in one round: the sweep takes a step;
    /// where it has no event left and the last leftovers are yet to be
    /// completed, they are.
    pub open spec fn progressed(pre: &Self, post: &Self) -> bool {
        &&& pre.variant.buffer().len() == 0
        &&& exists|c: Self, r: Option<Event<T>>, a: Self|
            #[trigger] Self::charged(pre, &c) && #[trigger] Self::stepped(&c, &a, r) && (
            if r.is_some() || a.closed() {
                Self::unchanged(&a, post)
            } else {
                exists|b: Self| #[trigger] Self::flagged(&a, &b) && Self::drained(&b, post)
            })
    }

    /// `post` is what the tessellation `pre` becomes in `n` rounds.
    pub open spec fn progressed_in(pre: &Self, post: &Self, n: nat) -> bool
        decreases n,
    {
        if n == 0 {
            Self::unchanged(pre, post)
        } else {
            exists|mid: Self|
                Self::progressed_in(pre, &mid, (n - 1) as nat) && #[trigger] Self::progressed(
                    &mid,
                    post,
                )
        }
    }

    /// `post` is `pre` with the first trapezoid taken out of the buffer.
    pub open spec fn handed_out(pre: &Self, post: &Self) -> bool {
        &&& post.edges == pre.edges
        &&& post.sweep_line == pre.sweep_line
        &&& post.event_queue == pre.event_queue
        &&& pre.variant.buffer().len() > 0
        &&& post.variant.buffer() == pre.variant.buffer().drop_first()
        &&& match (pre.variant, post.variant) {
            (Variant::Trapezoids(a), Variant::Trapezoids(b)) => a.fused_leftovers
                == b.fused_leftovers && a.fill_rule == b.fill_rule && a.budget == b.budget,
            _ => false,
        }
    }

    /// One more round makes one more round.
    pub proof fn lemma_round_added(first: &Self, pre: &Self, post: &Self, n: nat)
        requires
            Self::progressed_in(first, pre, n),
            Self::progressed(pre, post),
        ensures
            Self::progressed_in(first, post, n + 1),
    {
        assert(((n + 1) - 1) as nat == n);
        assert(Self::progressed_in(first, pre, ((n + 1) - 1) as nat) && Self::progressed(pre, post));
    }

    /// A step of the sweep leaves the variant as it is where it returns
    /// nothing.
    pub proof fn lemma_stepped_keeps_variant(pre: &Self, post: &Self, r: Option<Event<T>>)
        requires
            Self::stepped(pre, post, r),
        ensures
            r.is_none() ==> post.variant == pre.variant && post.edges == pre.edges
                && post.sweep_line == pre.sweep_line,
    {
    }

    /// Get the next trapezoid in the algorithm.
    ///
    /// The trapezoids leave the buffer oldest first. While the buffer is
    /// empty the sweep takes steps to fill it, one in each round, and each
    /// round takes one from the budget; when the sweep has no event left,
    /// the trapezoids of the last leftovers are completed, once. The
    /// tessellation ends when that has given nothing, or when the budget of
    /// rounds is used up.
    #[verifier::spinoff_prover]
    pub fn next_trapezoid(&mut self) -> (r: Option<Trapezoid<T>>)
        requires
            old(self).wf(),
            old(self).variant is Trapezoids,
        ensures
            final(self).wf(),
            final(self).variant is Trapezoids,
            old(self).edges.same_geometry(&final(self).edges),
            match r {
                Some(t) => t.valid() && exists|n: nat, mid: Self|
                    #[trigger] Self::progressed_in(old(self), &mid, n) && Self::handed_out(
                        &mid,
                        final(self),
                    ) && t == mid.variant.buffer()[0] && old(self).rounds_left()
                        == final(self).rounds_left() + n,
                None => final(self).finished() && exists|n: nat| #[trigger]
                    Self::progressed_in(old(self), final(self), n) && old(self).rounds_left()
                        == final(self).rounds_left() + n,
            },
            old(self).finished() ==> r.is_none(),
    {
        let ghost mut n: nat = 0;
        proof {
            self.edges.lemma_same_geometry_refl();
        }
        loop
            invariant
                self.wf(),
                self.variant is Trapezoids,
                old(self).edges.same_geometry(&self.edges),
                Self::progressed_in(old(self), self, n),
                old(self).rounds_left() == self.rounds_left() + n,
                old(self).finished() ==> Self::unchanged(old(self), self),
            decreases self.rounds_left(),
        {
            let ghost start = *self;
            let fused = match &mut self.variant {
                Variant::Trapezoids(t) => {
                    if t.trapezoids.len() > 0 {
                        let trapezoid = t.trapezoids.remove(0);
                        proof {
                            assert(start.variant.buffer()[0].valid());
                        }
                        return Some(trapezoid);
                    }
                    if t.budget == 0 {
                        return None;
                    }
                    t.budget = t.budget - 1;
                    t.fused_leftovers
                },
                Variant::NoTrapezoids => true,
            };
            let ghost charged = *self;
            // try to repopulate the trapezoid list
            // by fetching the next event
            //
            // if we're out of events, try to run through
            // the last leftovers and squeeze trapezoids
            // out of there
            let event = self.next_event();
            let ghost a = *self;
            proof {
                assert(Self::charged(&start, &charged));
                old(self).edges.lemma_same_geometry_trans(&start.edges, &self.edges);
                Self::lemma_stepped_keeps_variant(&charged, &a, event);
            }
            if event.is_none() {
                if fused {
                    proof {
                        lemma_skip_spurious_settles(&charged.edges, charged.queue());
                        assert(Self::stepped(&charged, &a, event));
                        assert(Self::unchanged(&a, self));
                        assert(Self::progressed(&start, self));
                        Self::lemma_round_added(old(self), &start, self, n);
                    }
                    return None;
                }
                match &mut self.variant {
                    Variant::Trapezoids(t) => {
                        t.fused_leftovers = true;
                    },
                    Variant::NoTrapezoids => {},
                }
                let ghost b = *self;
                self.drain_leftovers();
                proof {
                    assert(Self::flagged(&a, &b));
                    assert(Self::drained(&b, self));
                    assert(Self::stepped(&charged, &a, event));
                    assert(Self::progressed(&start, self));
                    old(self).edges.lemma_same_geometry_trans(&a.edges, &self.edges);
                }
            } else {
                proof {
                    assert(Self::stepped(&charged, &a, event));
                    assert(Self::unchanged(&a, self));
                    assert(Self::progressed(&start, self));
                }
            }
            proof {
                Self::lemma_round_added(old(self), &start, self, n);
                n = n + 1;
            }
        }
    }

    /// Get the number of pending trapezoids.
    pub fn trapezoid_len(&self) -> (r: usize)
        ensures
            r == self.variant.buffer().len(),
    {
        match &self.variant {
            Variant::Trapezoids(t) => t.trapezoids.len(),
            Variant::NoTrapezoids => 0,
        }
    }
}

} // verus!
