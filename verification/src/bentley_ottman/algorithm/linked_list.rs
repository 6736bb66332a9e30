//! The list that threads the edges of the store through their `prev` and
//! `next` links.

use super::edge::{BoEdge, Edges};
use vstd::prelude::*;

verus! {

/// A doubly linked list of edges, linked through the edges themselves.
///
/// The list holds the handle of its first edge. Its view is the sequence of
/// the handles of its edges, first to last.
pub struct LinkedList {
    /// The first edge of the list, or `None` if the list is empty.
    pub root: Option<usize>,
    /// The handles of the edges of the list, in order.
    pub order: Ghost<Seq<usize>>,
}

impl View for LinkedList {
    type V = Seq<usize>;

    open spec fn view(&self) -> Seq<usize> {
        self.order@
    }
}

impl Default for LinkedList {
    fn default() -> (r: Self)
        ensures
            r@ == Seq::<usize>::empty(),
            r.root.is_none(),
    {
        LinkedList { root: None, order: Ghost(Seq::empty()) }
    }
}

/// `order` with the elements at `i` and `i + 1` exchanged.
pub open spec fn exchanged(order: Seq<usize>, i: int) -> Seq<usize> {
    order.update(i, order[i + 1]).update(i + 1, order[i])
}

/// The edge with the handle `id` is in `after` what it is in `before`, but
/// for its links.
pub open spec fn relinked<T: Copy>(before: &Edges<T>, after: &Edges<T>, id: usize) -> bool {
    after.at(id) == (BoEdge { prev: after.at(id).prev, next: after.at(id).next, ..before.at(id) })
}

/// `after` holds the edges of `before` with no more than links changed, and
/// those only on the edges whose handles are in `touched`.
pub open spec fn links_changed<T: Copy>(
    before: &Edges<T>,
    after: &Edges<T>,
    touched: Set<usize>,
) -> bool {
    &&& after.edges@.len() == before.edges@.len()
    &&& forall|id: usize| #[trigger]
        before.has(id) ==> relinked(before, after, id) && (!touched.contains(id) ==> after.at(id)
            == before.at(id))
}

impl LinkedList {
    /// The links of the edges of the list form one chain from the root:
    /// no edge occurs twice, each edge's `prev` is the edge before it and
    /// its `next` the edge after it, and the ends have none.
    pub open spec fn wf<T: Copy>(&self, all: &Edges<T>) -> bool {
        let s = self@;
        &&& s.no_duplicates()
        &&& forall|i: int| 0 <= i < s.len() ==> all.has(#[trigger] s[i])
        &&& self.root == (if s.len() == 0 {
            None
        } else {
            Some(s[0])
        })
        &&& forall|i: int|
            0 <= i < s.len() ==> (#[trigger] all.at(s[i])).prev == (if i == 0 {
                None
            } else {
                Some(s[i - 1])
            })
        &&& forall|i: int|
            0 <= i < s.len() ==> (#[trigger] all.at(s[i])).next == (if i + 1 == s.len() {
                None
            } else {
                Some(s[i + 1])
            })
    }

    /// A list stays well formed while the links of its edges stay as they
    /// are.
    pub proof fn lemma_frame<T: Copy>(&self, before: &Edges<T>, after: &Edges<T>)
        requires
            self.wf(before),
            after.edges@.len() == before.edges@.len(),
            forall|i: int|
                0 <= i < self@.len() ==> (#[trigger] after.at(self@[i])).prev == before.at(
                    self@[i],
                ).prev && after.at(self@[i]).next == before.at(self@[i]).next,
        ensures
            self.wf(after),
    {
    }

    /// The handles of the edges of the list, first to last.
    pub fn iter<T: Copy>(&self, all: &Edges<T>) -> (r: Vec<usize>)
        requires
            self.wf(all),
        ensures
            r@ == self@,
    {
        let mut out: Vec<usize> = Vec::new();
        let mut cur = self.root;
        let ghost mut i: int = 0;
        while cur.is_some()
            invariant
                self.wf(all),
                0 <= i <= self@.len(),
                cur == (if i < self@.len() {
                    Some(self@[i])
                } else {
                    None
                }),
                out@ == self@.subrange(0, i),
            decreases self@.len() - i,
        {
            let id = cur.unwrap();
            out.push(id);
            cur = all.get(id).next();
            proof {
                assert(self@.subrange(0, i).push(self@[i]) == self@.subrange(0, i + 1));
                i = i + 1;
            }
        }
        proof {
            assert(self@.subrange(0, self@.len() as int) == self@);
        }
        out
    }

    /// The edges of the list two by two: the first with the second, the
    /// third with the fourth, and so on. A last edge without a partner is
    /// left out.
    pub fn pairs<T: Copy>(&self, all: &Edges<T>) -> (r: Vec<(usize, usize)>)
        requires
            self.wf(all),
        ensures
            r@.len() == self@.len() / 2,
            forall|k: int|
                0 <= k < r@.len() ==> #[trigger] r@[k] == (self@[2 * k], self@[2 * k + 1]),
    {
        let ids = self.iter(all);
        let mut out: Vec<(usize, usize)> = Vec::new();
        let mut i: usize = 0;
        while i + 1 < ids.len()
            invariant
                ids@ == self@,
                i == 2 * out@.len(),
                i <= ids@.len(),
                forall|k: int|
                    0 <= k < out@.len() ==> #[trigger] out@[k] == (self@[2 * k], self@[2 * k + 1]),
            decreases ids@.len() - i,
        {
            out.push((ids[i], ids[i + 1]));
            i += 2;
        }
        out
    }

    /// Tells whether the edge is in the list.
    pub fn contains<T: Copy>(&self, edge: usize, all: &Edges<T>) -> (r: bool)
        requires
            self.wf(all),
        ensures
            r == self@.contains(edge),
    {
        let mut cur = self.root;
        let ghost mut i: int = 0;
        while cur.is_some()
            invariant
                self.wf(all),
                0 <= i <= self@.len(),
                cur == (if i < self@.len() {
                    Some(self@[i])
                } else {
                    None
                }),
                forall|j: int| 0 <= j < i ==> self@[j] != edge,
            decreases self@.len() - i,
        {
            let id = cur.unwrap();
            if id == edge {
                return true;
            }
            cur = all.get(id).next();
            proof {
                i = i + 1;
            }
        }
        false
    }
}

impl LinkedList {
    /// Push an edge to the end of the linked list.
    #[verifier::spinoff_prover]
    pub fn push<T: Copy>(&mut self, edge: usize, all: &mut Edges<T>)
        requires
            old(self).wf(old(all)),
            old(all).has(edge),
            !old(self)@.contains(edge),
        ensures
            final(self)@ == old(self)@.push(edge),
            final(self).wf(final(all)),
            links_changed(old(all), final(all), old(self)@.to_set().insert(edge)),
    {
        let ghost s = self@;
        match self.root {
            None => {
                self.root = Some(edge);
                all.set_prev(edge, None);
            },
            Some(first) => {
                // find the last node and add to it
                let mut node = first;
                let mut next = all.get(node).next();
                let ghost mut i: int = 0;
                while next.is_some()
                    invariant
                        self.wf(all),
                        self@ == s,
                        0 <= i < s.len(),
                        node == s[i],
                        next == all.at(node).next,
                    decreases s.len() - i,
                {
                    node = next.unwrap();
                    next = all.get(node).next();
                    proof {
                        i = i + 1;
                    }
                }
                all.set_next(node, Some(edge));
                all.set_prev(edge, Some(node));
            },
        }
        all.set_next(edge, None);
        self.order = Ghost(s.push(edge));
        proof {
            let t = self@;
            assert forall|k: int| 0 <= k < t.len() implies all.has(#[trigger] t[k]) by {
                if k < s.len() {
                    assert(t[k] == s[k]);
                }
            }
            assert forall|id: usize| #[trigger] old(all).has(id) implies relinked(
                old(all),
                all,
                id,
            ) && (!s.to_set().insert(edge).contains(id) ==> all.at(id) == old(all).at(id)) by {
                if id != edge && !s.contains(id) {
                    assert(all.at(id) == old(all).at(id));
                }
            }
        }
    }
}

/// `k` is the place at which `edge` goes into `order`: `before` has refused
/// every edge ahead of `k`, and has accepted the edge at `k` where there is
/// one.
pub open spec fn insertion_point<T: Copy, F: Fn(&BoEdge<T>, &BoEdge<T>) -> bool>(
    order: Seq<usize>,
    all: &Edges<T>,
    edge: usize,
    before: F,
    k: int,
) -> bool {
    &&& 0 <= k <= order.len()
    &&& forall|j: int|
        0 <= j < k ==> call_ensures(before, (&all.at(edge), &all.at(#[trigger] order[j])), false)
    &&& k < order.len() ==> call_ensures(before, (&all.at(edge), &all.at(order[k])), true)
}

impl LinkedList {
    /// Walks the list for the first edge that `edge` goes before. Returns
    /// its handle, or none where `edge` goes to the end, and the place.
    fn find_insertion<T: Copy, F: Fn(&BoEdge<T>, &BoEdge<T>) -> bool>(
        &self,
        edge: usize,
        all: &Edges<T>,
        before: &F,
    ) -> (r: (Option<usize>, Ghost<int>))
        requires
            self.wf(all),
            all.has(edge),
            forall|i: int|
                0 <= i < self@.len() ==> call_requires(
                    *before,
                    (&all.at(edge), &all.at(#[trigger] self@[i])),
                ),
        ensures
            insertion_point(self@, all, edge, *before, r.1@),
            r.0 == (if r.1@ < self@.len() {
                Some(self@[r.1@])
            } else {
                None
            }),
    {
        let ghost s = self@;
        let mut cur = self.root;
        let mut found: Option<usize> = None;
        let ghost mut k: int = 0;
        while cur.is_some() && found.is_none()
            invariant
                self.wf(all),
                self@ == s,
                all.has(edge),
                0 <= k <= s.len(),
                forall|i: int|
                    0 <= i < s.len() ==> call_requires(
                        *before,
                        (&all.at(edge), &all.at(#[trigger] s[i])),
                    ),
                cur == (if k < s.len() {
                    Some(s[k])
                } else {
                    None
                }),
                forall|j: int|
                    0 <= j < k ==> call_ensures(
                        *before,
                        (&all.at(edge), &all.at(#[trigger] s[j])),
                        false,
                    ),
                found.is_some() ==> k < s.len() && found == Some(s[k]) && call_ensures(
                    *before,
                    (&all.at(edge), &all.at(s[k])),
                    true,
                ),
            decreases
                    s.len() - k + (if found.is_none() {
                        1int
                    } else {
                        0int
                    }),
        {
            let id = cur.unwrap();
            if before(all.get(edge), all.get(id)) {
                found = Some(id);
            } else {
                cur = all.get(id).next();
                proof {
                    k = k + 1;
                }
            }
        }
        (found, Ghost(k))
    }

    /// Links `edge` into the list just before `node`, which stands at the
    /// place `k`.
    #[verifier::spinoff_prover]
    fn link_before<T: Copy>(
        &mut self,
        edge: usize,
        node: usize,
        all: &mut Edges<T>,
        Ghost(k): Ghost<int>,
    )
        requires
            old(self).wf(old(all)),
            old(all).has(edge),
            !old(self)@.contains(edge),
            0 <= k < old(self)@.len(),
            old(self)@[k] == node,
        ensures
            final(self)@ == old(self)@.insert(k, edge),
            final(self).wf(final(all)),
            links_changed(old(all), final(all), old(self)@.to_set().insert(edge)),
    {
        let ghost s = self@;
        let prev = all.get(node).prev();
        if let Some(prev) = prev {
            all.set_next(prev, Some(edge));
        } else {
            self.root = Some(edge);
        }
        all.set_prev(edge, prev);
        all.set_next(edge, Some(node));
        all.set_prev(node, Some(edge));
        self.order = Ghost(s.insert(k, edge));
        proof {
            let t = self@;
            assert forall|i: int| 0 <= i < t.len() implies all.has(#[trigger] t[i]) by {
                if i < k {
                    assert(t[i] == s[i]);
                } else if i > k {
                    assert(t[i] == s[i - 1]);
                }
            }
            assert(t.no_duplicates()) by {
                assert forall|i: int, j: int|
                    0 <= i < t.len() && 0 <= j < t.len() && i != j implies t[i] != t[j] by {
                    let a = if i < k {
                        i
                    } else {
                        i - 1
                    };
                    let b = if j < k {
                        j
                    } else {
                        j - 1
                    };
                    if i != k && j != k {
                        assert(t[i] == s[a] && t[j] == s[b]);
                    } else if i == k {
                        assert(t[j] == s[b]);
                        assert(s.contains(s[b]));
                    } else {
                        assert(t[i] == s[a]);
                        assert(s.contains(s[a]));
                    }
                }
            }
            assert forall|i: int| 0 <= i < t.len() implies (#[trigger] all.at(t[i])).prev == (if i
                == 0 {
                None
            } else {
                Some(t[i - 1])
            }) && all.at(t[i]).next == (if i + 1 == t.len() {
                None
            } else {
                Some(t[i + 1])
            }) by {
                if i < k {
                    assert(t[i] == s[i]);
                    assert(old(all).at(s[i]).next == Some(s[i + 1]));
                    assert(old(all).at(s[i]).prev == (if i == 0 {
                        None
                    } else {
                        Some(s[i - 1])
                    }));
                } else if i > k {
                    assert(t[i] == s[i - 1]);
                    assert(old(all).at(s[i - 1]).prev == (if i - 1 == 0 {
                        None
                    } else {
                        Some(s[i - 2])
                    }));
                    assert(old(all).at(s[i - 1]).next == (if i == s.len() {
                        None
                    } else {
                        Some(s[i])
                    }));
                }
            }
            assert forall|id: usize| #[trigger] old(all).has(id) implies relinked(
                old(all),
                all,
                id,
            ) && (!s.to_set().insert(edge).contains(id) ==> all.at(id) == old(all).at(id)) by {
                if id != edge && !s.contains(id) {
                    assert(all.at(id) == old(all).at(id));
                }
            }
        }
    }

    /// Insert an edge into this linked list.
    ///
    /// The closure should return `true` if the edge should be inserted
    /// before the given element. The edge goes before the first element
    /// for which it does, and to the end where there is none.
    pub fn insert<T: Copy, F: Fn(&BoEdge<T>, &BoEdge<T>) -> bool>(
        &mut self,
        edge: usize,
        all: &mut Edges<T>,
        before: F,
    )
        requires
            old(self).wf(old(all)),
            old(all).has(edge),
            !old(self)@.contains(edge),
            forall|i: int|
                0 <= i < old(self)@.len() ==> call_requires(
                    before,
                    (&old(all).at(edge), &old(all).at(#[trigger] old(self)@[i])),
                ),
        ensures
            exists|k: int|
                insertion_point(old(self)@, old(all), edge, before, k)
                    && final(self)@ == old(self)@.insert(k, edge),
            final(self).wf(final(all)),
            links_changed(old(all), final(all), old(self)@.to_set().insert(edge)),
    {
        let ghost s = self@;
        // find the node to insert this edge before
        let (found, Ghost(k)) = self.find_insertion(edge, all, &before);
        match found {
            Some(node) => {
                self.link_before(edge, node, all, Ghost(k));
            },
            None => {
                // insert at the end
                self.push(edge, all);
                proof {
                    assert(s.insert(k, edge) == s.push(edge));
                }
            },
        }
    }

    /// Remove an edge from this linked list.
    #[verifier::spinoff_prover]
    pub fn remove<T: Copy>(&mut self, edge: usize, all: &mut Edges<T>)
        requires
            old(self).wf(old(all)),
            old(self)@.contains(edge),
        ensures
            final(self)@ == old(self)@.remove(old(self)@.index_of(edge)),
            final(self).wf(final(all)),
            links_changed(old(all), final(all), old(self)@.to_set()),
            final(all).at(edge).prev.is_none(),
            final(all).at(edge).next.is_none(),
    {
        let ghost s = self@;
        let ghost i = s.index_of(edge);
        assert(0 <= i < s.len() && s[i] == edge);
        let prev = all.get(edge).prev();
        let next = all.get(edge).next();

        if let Some(prev) = prev {
            all.set_next(prev, next);
        } else {
            self.root = next;
        }
        if let Some(next) = next {
            all.set_prev(next, prev);
        }
        all.set_next(edge, None);
        all.set_prev(edge, None);
        self.order = Ghost(s.remove(i));
        proof {
            let t = self@;
            assert forall|j: int| 0 <= j < t.len() implies all.has(#[trigger] t[j]) by {
                if j < i {
                    assert(t[j] == s[j]);
                } else {
                    assert(t[j] == s[j + 1]);
                }
            }
            assert(t.no_duplicates()) by {
                assert forall|a: int, b: int| 0 <= a < t.len() && 0 <= b < t.len() && a != b implies t[a] != t[b] by {
                    let a0 = if a < i { a } else { a + 1 };
                    let b0 = if b < i { b } else { b + 1 };
                    assert(t[a] == s[a0] && t[b] == s[b0]);
                }
            }
            assert forall|j: int| 0 <= j < t.len() implies (#[trigger] all.at(t[j])).prev == (if j
                == 0 {
                None
            } else {
                Some(t[j - 1])
            }) && all.at(t[j]).next == (if j + 1 == t.len() {
                None
            } else {
                Some(t[j + 1])
            }) by {
                if j < i {
                    assert(t[j] == s[j]);
                    assert(old(all).at(s[j]).prev == (if j == 0 {
                        None
                    } else {
                        Some(s[j - 1])
                    }));
                } else {
                    assert(t[j] == s[j + 1]);
                    assert(old(all).at(s[j + 1]).next == (if j + 2 == s.len() {
                        None
                    } else {
                        Some(s[j + 2])
                    }));
                }
            }
            assert forall|id: usize| #[trigger] old(all).has(id) implies relinked(
                old(all),
                all,
                id,
            ) && (!s.to_set().contains(id) ==> all.at(id) == old(all).at(id)) by {
                if !s.contains(id) {
                    assert(all.at(id) == old(all).at(id));
                }
            }
        }
    }

    /// Swap an edge with the next edge in the linked list.
    ///
    /// An edge without a next edge, be it the last of the list or an edge
    /// that is in no list, leaves the list and the edges as they are.
    #[verifier::spinoff_prover]
    pub fn swap<T: Copy>(&mut self, edge: usize, all: &mut Edges<T>)
        requires
            old(self).wf(old(all)),
            old(all).has(edge),
            old(self)@.contains(edge) || old(all).at(edge).next.is_none(),
        ensures
            final(self)@ == ({
                let i = old(self)@.index_of(edge);
                if !old(self)@.contains(edge) || i + 1 == old(self)@.len() {
                    old(self)@
                } else {
                    exchanged(old(self)@, i)
                }
            }),
            !old(self)@.contains(edge) || old(self)@.index_of(edge) + 1 == old(self)@.len() ==> {
                &&& *final(all) == *old(all)
                &&& *final(self) == *old(self)
            },
            final(self).wf(final(all)),
            links_changed(old(all), final(all), old(self)@.to_set()),
    {
        let ghost s = self@;
        let ghost i = s.index_of(edge);
        assert(s.contains(edge) ==> 0 <= i < s.len() && s[i] == edge);
        let next = match all.get(edge).next() {
            Some(next) => next,
            None => {
                assert forall|id: usize| #[trigger] old(all).has(id) implies relinked(
                    old(all),
                    all,
                    id,
                ) by {}
                return ;
            },
        };
        assert(next == s[i + 1]);
        let prev = all.get(edge).prev();
        let next_next = all.get(next).next();

        if let Some(prev) = prev {
            all.set_next(prev, Some(next));
        } else {
            self.root = Some(next);
        }
        if let Some(next_next) = next_next {
            all.set_prev(next_next, Some(edge));
        }
        all.set_next(edge, next_next);
        all.set_prev(edge, Some(next));
        all.set_prev(next, prev);
        all.set_next(next, Some(edge));
        self.order = Ghost(exchanged(s, i));
        proof {
            let t = self@;
            assert forall|j: int| 0 <= j < t.len() implies all.has(#[trigger] t[j]) by {
                if j == i {
                    assert(t[j] == s[i + 1]);
                } else if j == i + 1 {
                    assert(t[j] == s[i]);
                } else {
                    assert(t[j] == s[j]);
                }
            }
            assert(t.no_duplicates()) by {
                assert forall|a: int, b: int| 0 <= a < t.len() && 0 <= b < t.len() && a != b implies t[a] != t[b] by {
                    let a0 = if a == i { i + 1 } else if a == i + 1 { i } else { a };
                    let b0 = if b == i { i + 1 } else if b == i + 1 { i } else { b };
                    assert(t[a] == s[a0] && t[b] == s[b0]);
                }
            }
            assert forall|j: int| 0 <= j < t.len() implies (#[trigger] all.at(t[j])).prev == (if j
                == 0 {
                None
            } else {
                Some(t[j - 1])
            }) && all.at(t[j]).next == (if j + 1 == t.len() {
                None
            } else {
                Some(t[j + 1])
            }) by {
                if j != i && j != i + 1 {
                    assert(t[j] == s[j]);
                    assert(old(all).at(s[j]).prev == (if j == 0 {
                        None
                    } else {
                        Some(s[j - 1])
                    }));
                    assert(old(all).at(s[j]).next == (if j + 1 == s.len() {
                        None
                    } else {
                        Some(s[j + 1])
                    }));
                }
            }
            assert forall|id: usize| #[trigger] old(all).has(id) implies relinked(
                old(all),
                all,
                id,
            ) && (!s.to_set().contains(id) ==> all.at(id) == old(all).at(id)) by {
                if !s.contains(id) {
                    assert(all.at(id) == old(all).at(id));
                }
            }
        }
    }
}

/// The element that stands just ahead of `id` in `order`, if any.
pub open spec fn before_in(order: Seq<usize>, id: usize) -> Option<usize> {
    if order.contains(id) && order.index_of(id) > 0 {
        Some(order[order.index_of(id) - 1])
    } else {
        None
    }
}

/// The element that stands just behind `id` in `order`, if any.
pub open spec fn after_in(order: Seq<usize>, id: usize) -> Option<usize> {
    if order.contains(id) && order.index_of(id) + 1 < order.len() {
        Some(order[order.index_of(id) + 1])
    } else {
        None
    }
}

impl LinkedList {
    /// The links of an edge of the list name its neighbours in the list.
    pub proof fn lemma_neighbours<T: Copy>(&self, all: &Edges<T>, id: usize)
        requires
            self.wf(all),
            self@.contains(id),
        ensures
            all.has(id),
            all.at(id).prev == before_in(self@, id),
            all.at(id).next == after_in(self@, id),
            before_in(self@, id) matches Some(p) ==> self@.contains(p) && all.has(p),
            after_in(self@, id) matches Some(n) ==> self@.contains(n) && all.has(n),
    {
        let i = self@.index_of(id);
        assert(0 <= i < self@.len() && self@[i] == id);
        assert(all.at(self@[i]).prev == (if i == 0 {
            None
        } else {
            Some(self@[i - 1])
        }));
        if i > 0 {
            assert(self@.contains(self@[i - 1]));
        }
        if i + 1 < self@.len() {
            assert(self@.contains(self@[i + 1]));
        }
    }
}

/// The edge with the handle `id` is in no list: it has no links.
pub open spec fn loose<T: Copy>(all: &Edges<T>, id: usize) -> bool {
    all.at(id).prev.is_none() && all.at(id).next.is_none()
}

/// `after` is `before` with the links of the edges of `freed` taken away,
/// and nothing else changed.
pub open spec fn unlinked<T: Copy>(before: &Edges<T>, after: &Edges<T>, freed: Seq<usize>) -> bool {
    &&& after.edges@.len() == before.edges@.len()
    &&& forall|id: usize| #[trigger]
        before.has(id) ==> after.at(id) == (if freed.contains(id) {
            BoEdge { prev: None, next: None, ..before.at(id) }
        } else {
            before.at(id)
        })
}

impl LinkedList {
    /// Take all edges out of the list. Returns their handles in order, and
    /// leaves the list empty and the edges without links.
    #[verifier::spinoff_prover]
    pub fn clear<T: Copy>(&mut self, all: &mut Edges<T>) -> (r: Vec<usize>)
        requires
            old(self).wf(old(all)),
        ensures
            r@ == old(self)@,
            final(self)@ == Seq::<usize>::empty(),
            final(self).wf(final(all)),
            unlinked(old(all), final(all), old(self)@),
    {
        let ghost s = self@;
        let ids = self.iter(all);
        let mut k: usize = 0;
        while k < ids.len()
            invariant
                ids@ == s,
                s.no_duplicates(),
                forall|i: int| 0 <= i < s.len() ==> old(all).has(#[trigger] s[i]),
                0 <= k <= s.len(),
                unlinked(old(all), all, s.subrange(0, k as int)),
            decreases s.len() - k,
        {
            let id = ids[k];
            let ghost before = *all;
            assert(old(all).has(s[k as int]));
            all.set_prev(id, None);
            all.set_next(id, None);
            proof {
                let upto = s.subrange(0, k as int);
                let next = s.subrange(0, k + 1);
                assert forall|x: usize| #[trigger] old(all).has(x) implies all.at(x) == (if next.contains(
                    x,
                ) {
                    BoEdge { prev: None, next: None, ..old(all).at(x) }
                } else {
                    old(all).at(x)
                }) by {
                    assert(before.has(x));
                    if x == id {
                        assert(next[k as int] == id);
                        if upto.contains(id) {
                            let j = upto.index_of(id);
                            assert(upto[j] == id);
                            assert(s[j] == s[k as int]);
                        }
                    } else {
                        assert(all.at(x) == before.at(x));
                        if upto.contains(x) {
                            let j = upto.index_of(x);
                            assert(upto[j] == x);
                            assert(next[j] == x);
                        }
                        if next.contains(x) {
                            let j = next.index_of(x);
                            assert(next[j] == x);
                            assert(upto[j] == x);
                        }
                    }
                }
            }
            k += 1;
        }
        proof {
            assert(s.subrange(0, s.len() as int) == s);
        }
        self.root = None;
        self.order = Ghost(Seq::empty());
        ids
    }
}

/// What `order` becomes when the elements of `pushed` are pushed onto it
/// one after the other.
pub open spec fn pushed_in_turn(order: Seq<usize>, pushed: Seq<usize>) -> Seq<usize>
    decreases pushed.len(),
{
    if pushed.len() == 0 {
        order
    } else {
        pushed_in_turn(order, pushed.drop_last()).push(pushed.last())
    }
}

/// Edges that are pushed one after the other stand in the list in the
/// order in which they were pushed, behind the edges that it held.
pub proof fn lemma_push_keeps_insertion_order(order: Seq<usize>, pushed: Seq<usize>)
    ensures
        pushed_in_turn(order, pushed) == order + pushed,
    decreases pushed.len(),
{
    if pushed.len() == 0 {
        assert(order + pushed == order);
    } else {
        lemma_push_keeps_insertion_order(order, pushed.drop_last());
        assert((order + pushed.drop_last()).push(pushed.last()) == order + pushed);
    }
}

/// No element of `order` goes before an element that stands ahead of it.
pub open spec fn ordered_by(order: Seq<usize>, goes_before: spec_fn(usize, usize) -> bool) -> bool {
    forall|i: int, j: int|
        0 <= i < j < order.len() ==> goes_before(#[trigger] order[i], #[trigger] order[j])
}

/// Where the comparator is total and transitive, an edge that is inserted
/// before the first element that it goes before leaves an ordered list
/// ordered.
pub proof fn lemma_insert_keeps_comparator_order(
    order: Seq<usize>,
    edge: usize,
    k: int,
    goes_before: spec_fn(usize, usize) -> bool,
)
    requires
        forall|a: usize, b: usize| #[trigger] goes_before(a, b) || goes_before(b, a),
        forall|a: usize, b: usize, c: usize|
            #[trigger] goes_before(a, b) && #[trigger] goes_before(b, c) ==> goes_before(a, c),
        ordered_by(order, goes_before),
        0 <= k <= order.len(),
        forall|j: int| 0 <= j < k ==> !goes_before(edge, #[trigger] order[j]),
        k < order.len() ==> goes_before(edge, order[k]),
    ensures
        ordered_by(order.insert(k, edge), goes_before),
{
    let t = order.insert(k, edge);
    assert forall|i: int, j: int| 0 <= i < j < t.len() implies goes_before(
        #[trigger] t[i],
        #[trigger] t[j],
    ) by {
        if j == k {
            assert(t[i] == order[i]);
            assert(goes_before(edge, order[i]) || goes_before(order[i], edge));
        } else if i == k {
            assert(t[j] == order[j - 1]);
            if j - 1 > k {
                assert(goes_before(order[k], order[j - 1]));
            }
        } else {
            let a = if i < k {
                i
            } else {
                i - 1
            };
            let b = if j < k {
                j
            } else {
                j - 1
            };
            assert(t[i] == order[a] && t[j] == order[b]);
        }
    }
}

/// A list from which the edge at `i` was removed holds that edge no more,
/// and the edges on either side of it are linked to each other.
pub proof fn lemma_remove_rejoins<T: Copy>(
    list: &LinkedList,
    all: &Edges<T>,
    before: Seq<usize>,
    i: int,
)
    requires
        before.no_duplicates(),
        0 <= i < before.len(),
        list@ == before.remove(i),
        list.wf(all),
    ensures
        !list@.contains(before[i]),
        list@.len() == before.len() - 1,
        forall|j: int| 0 <= j < i ==> list@[j] == before[j],
        forall|j: int| i <= j < list@.len() ==> list@[j] == before[j + 1],
        0 < i < before.len() - 1 ==> all.at(before[i - 1]).next == Some(before[i + 1]) && all.at(
            before[i + 1],
        ).prev == Some(before[i - 1]),
        i == 0 && before.len() > 1 ==> list.root == Some(before[1]) && all.at(before[1]).prev
            == None::<usize>,
        i == before.len() - 1 && before.len() > 1 ==> all.at(before[i - 1]).next == None::<usize>,
{
    let t = list@;
    if t.contains(before[i]) {
        let j = choose|j: int| 0 <= j < t.len() && t[j] == before[i];
        if j < i {
            assert(t[j] == before[j]);
        } else {
            assert(t[j] == before[j + 1]);
        }
    }
    if 0 < i < before.len() - 1 {
        assert(t[i - 1] == before[i - 1]);
        assert(t[i] == before[i + 1]);
        assert(all.at(t[i - 1]).next == Some(t[i]));
        assert(all.at(t[i]).prev == Some(t[i - 1]));
    }
    if i == 0 && before.len() > 1 {
        assert(t[0] == before[1]);
        assert(all.at(t[0]).prev == None::<usize>);
    }
    if i == before.len() - 1 && before.len() > 1 {
        assert(t[i - 1] == before[i - 1]);
        assert(all.at(t[i - 1]).next == None::<usize>);
    }
}

/// A swap exchanges the elements at `i` and `i + 1` and no others, and a
/// second swap at the same place restores the order.
pub proof fn lemma_swap_exchanges_two(order: Seq<usize>, i: int)
    requires
        0 <= i,
        i + 1 < order.len(),
    ensures
        exchanged(order, i).len() == order.len(),
        exchanged(order, i)[i] == order[i + 1],
        exchanged(order, i)[i + 1] == order[i],
        forall|j: int|
            0 <= j < order.len() && j != i && j != i + 1 ==> exchanged(order, i)[j] == order[j],
        exchanged(exchanged(order, i), i) == order,
{
    assert(exchanged(exchanged(order, i), i) =~= order);
}

/// The list once the edge has changed places with its successor, and
/// the list as it is where the edge is not in it or is its last.
pub open spec fn swapped(order: Seq<usize>, edge: usize) -> Seq<usize> {
    if order.contains(edge) && order.index_of(edge) + 1 < order.len() {
        exchanged(order, order.index_of(edge))
    } else {
        order
    }
}

/// A swap moves no element in or out of the list.
pub proof fn lemma_swapped_holds_same(order: Seq<usize>, edge: usize)
    ensures
        forall|x: usize| #[trigger] swapped(order, edge).contains(x) <==> order.contains(x),
{
    let t = swapped(order, edge);
    if order.contains(edge) && order.index_of(edge) + 1 < order.len() {
        let i = order.index_of(edge);
        assert forall|x: usize| #[trigger] t.contains(x) <==> order.contains(x) by {
            if t.contains(x) {
                let a = t.index_of(x);
                assert(t[a] == x);
                let a0 = if a == i {
                    i + 1
                } else if a == i + 1 {
                    i
                } else {
                    a
                };
                assert(order[a0] == x);
            }
            if order.contains(x) {
                let a = order.index_of(x);
                assert(order[a] == x);
                let a0 = if a == i {
                    i + 1
                } else if a == i + 1 {
                    i
                } else {
                    a
                };
                assert(t[a0] == x);
            }
        }
    }
}

/// What a list holds once the element `id` has been removed from it, and
/// what another holds once `id` has been pushed onto it or not.
pub proof fn lemma_moved(
    s: Seq<usize>,
    l: Seq<usize>,
    s2: Seq<usize>,
    l2: Seq<usize>,
    id: usize,
)
    requires
        s.no_duplicates(),
        s.contains(id),
        s2 == s.remove(s.index_of(id)),
        l2 == l || l2 == l.push(id),
    ensures
        forall|x: usize| #[trigger] s2.contains(x) <==> s.contains(x) && x != id,
        forall|x: usize| #[trigger] l2.contains(x) ==> l.contains(x) || x == id,
{
    let i = s.index_of(id);
    assert(0 <= i < s.len() && s[i] == id);
    assert forall|x: usize| #[trigger] s2.contains(x) <==> s.contains(x) && x != id by {
        if s2.contains(x) {
            let a = s2.index_of(x);
            assert(s2[a] == x);
            let a0 = if a < i {
                a
            } else {
                a + 1
            };
            assert(s[a0] == x);
        }
        if s.contains(x) && x != id {
            let a = s.index_of(x);
            assert(s[a] == x);
            if a < i {
                assert(s2[a] == x);
            } else {
                assert(s2[a - 1] == x);
            }
        }
    }
    assert forall|x: usize| #[trigger] l2.contains(x) implies l.contains(x) || x == id by {
        let b = l2.index_of(x);
        assert(l2[b] == x);
        if b < l.len() {
            assert(l[b] == x);
        }
    }
}

/// What a list holds once the element `id` has been inserted at `k`.
pub proof fn lemma_inserted(s: Seq<usize>, k: int, id: usize)
    requires
        0 <= k <= s.len(),
    ensures
        forall|x: usize| #[trigger] s.insert(k, id).contains(x) <==> s.contains(x) || x == id,
{
    let t = s.insert(k, id);
    assert forall|x: usize| #[trigger] t.contains(x) <==> s.contains(x) || x == id by {
        if t.contains(x) {
            let a = t.index_of(x);
            assert(t[a] == x);
            if a < k {
                assert(s[a] == x);
            } else if a > k {
                assert(s[a - 1] == x);
            }
        }
        if s.contains(x) {
            let a = s.index_of(x);
            assert(s[a] == x);
            if a < k {
                assert(t[a] == x);
            } else {
                assert(t[a + 1] == x);
            }
        }
        if x == id {
            assert(t[k] == x);
        }
    }
}

} // verus!
