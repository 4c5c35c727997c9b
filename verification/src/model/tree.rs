//! Facts about the trees of the model: what lies below what, and what a change leaves alone.

use vstd::prelude::*;

use crate::model::heap::{kids, Body, Heap};

verus! {

impl Heap {
    /// A node lies below itself.
    pub proof fn lemma_below_self(self, n: usize)
        ensures
            self.below(n, n),
    {
        assert(self.reach(n, n, 0));
    }

    /// What stands inside a node below `n` lies below `n`.
    pub proof fn lemma_below_kid(self, n: usize, q: usize, m: usize)
        requires
            self.below(n, q),
            self.kid(q, m),
        ensures
            self.below(n, m),
    {
        let k = choose|k: nat| #[trigger] self.reach(n, q, k);
        assert(self.reach(n, q, ((k + 1) - 1) as nat));
        assert(self.reach(n, m, k + 1));
    }

    /// What lies below something below `n` lies below `n`.
    pub proof fn lemma_below_below(self, n: usize, q: usize, m: usize)
        requires
            self.below(n, q),
            self.below(q, m),
        ensures
            self.below(n, m),
    {
        let k = choose|k: nat| #[trigger] self.reach(q, m, k);
        self.lemma_below_reach(n, q, m, k);
    }

    proof fn lemma_below_reach(self, n: usize, q: usize, m: usize, k: nat)
        requires
            self.below(n, q),
            self.reach(q, m, k),
        ensures
            self.below(n, m),
        decreases k,
    {
        if q != m {
            let c = choose|c: usize| #[trigger] self.kid(c, m) && self.reach(q, c, (k - 1) as nat);
            self.lemma_below_reach(n, q, c, (k - 1) as nat);
            self.lemma_below_kid(n, c, m);
        }
    }

    /// What lies below `n`, other than `n`, stands inside something below `n`.
    pub proof fn lemma_below_container(self, n: usize, m: usize) -> (q: usize)
        requires
            self.below(n, m),
            n != m,
        ensures
            self.kid(q, m),
            self.below(n, q),
    {
        let k = choose|k: nat| #[trigger] self.reach(n, m, k);
        let q = choose|q: usize| #[trigger] self.kid(q, m) && self.reach(n, q, (k - 1) as nat);
        q
    }

    /// Ranks get smaller on the way down.
    pub proof fn lemma_rank_below(self, rank: spec_fn(usize) -> nat, n: usize, m: usize)
        requires
            self.ranked(rank),
            self.below(n, m),
        ensures
            n == m || rank(m) < rank(n),
    {
        let k = choose|k: nat| #[trigger] self.reach(n, m, k);
        self.lemma_rank_reach(rank, n, m, k);
    }

    proof fn lemma_rank_reach(self, rank: spec_fn(usize) -> nat, n: usize, m: usize, k: nat)
        requires
            self.ranked(rank),
            self.reach(n, m, k),
        ensures
            n == m || rank(m) < rank(n),
        decreases k,
    {
        if n != m {
            let q = choose|q: usize| #[trigger] self.kid(q, m) && self.reach(n, q, (k - 1) as nat);
            self.lemma_rank_reach(rank, n, q, (k - 1) as nat);
        }
    }

    /// In a tree, the container of what lies below `n`, other than `n`, lies below `n`.
    pub proof fn lemma_parent_below(self, n: usize, m: usize, p: usize)
        requires
            self.well_formed(),
            self.below(n, m),
            n != m,
            self.kid(p, m),
        ensures
            self.below(n, p),
    {
        let q = self.lemma_below_container(n, m);
        assert(p == q);
    }

    /// Nothing contains itself.
    pub proof fn lemma_not_below_kid(self, p: usize, c: usize)
        requires
            self.well_formed(),
            self.kid(p, c),
        ensures
            !self.below(c, p),
            c != p,
    {
        let rank = choose|rank: spec_fn(usize) -> nat| self.ranked(rank);
        if self.below(c, p) {
            self.lemma_rank_below(rank, c, p);
        }
    }

    /// Two nodes side by side do not contain each other.
    pub proof fn lemma_siblings(self, p: usize, c: usize, d: usize)
        requires
            self.well_formed(),
            self.kid(p, c),
            self.kid(p, d),
            c != d,
        ensures
            !self.below(c, d),
    {
        if self.below(c, d) {
            self.lemma_parent_below(c, d, p);
            self.lemma_not_below_kid(p, c);
        }
    }

    /// What does not lie in a loose tree has nothing below it that does.
    pub proof fn lemma_apart(self, n: usize, c: usize, m: usize)
        requires
            self.well_formed(),
            self.loose(n),
            !self.below(n, c),
            self.below(c, m),
        ensures
            !self.below(n, m),
    {
        let k = choose|k: nat| #[trigger] self.reach(c, m, k);
        self.lemma_apart_reach(n, c, m, k);
    }

    proof fn lemma_apart_reach(self, n: usize, c: usize, m: usize, k: nat)
        requires
            self.well_formed(),
            self.loose(n),
            !self.below(n, c),
            self.reach(c, m, k),
        ensures
            !self.below(n, m),
        decreases k,
    {
        if self.below(n, m) {
            let q = choose|q: usize| #[trigger] self.kid(q, m) && self.reach(c, q, (k - 1) as nat);
            self.lemma_parent_below(n, m, q);
            self.lemma_apart_reach(n, c, q, (k - 1) as nat);
        }
    }

    /// What lies below `n` depends only on what the nodes below `n` hold.
    pub proof fn lemma_below_frame(self, other: Heap, n: usize)
        requires
            forall|x: usize| #[trigger]
                self.below(n, x) ==> (self.has(x) ==> other.has(x) && kids(other.body(x)) == kids(
                    self.body(x),
                )) && (other.has(x) ==> self.has(x)),
        ensures
            forall|m: usize| self.below(n, m) <==> other.below(n, m),
    {
        assert forall|m: usize| self.below(n, m) <==> other.below(n, m) by {
            if self.below(n, m) {
                let k = choose|k: nat| #[trigger] self.reach(n, m, k);
                self.lemma_reach_there(other, n, m, k);
            }
            if other.below(n, m) {
                let k = choose|k: nat| #[trigger] other.reach(n, m, k);
                self.lemma_reach_back(other, n, m, k);
            }
        }
    }

    proof fn lemma_reach_there(self, other: Heap, n: usize, m: usize, k: nat)
        requires
            forall|x: usize| #[trigger]
                self.below(n, x) ==> (self.has(x) ==> other.has(x) && kids(other.body(x)) == kids(
                    self.body(x),
                )),
            self.reach(n, m, k),
        ensures
            other.below(n, m),
        decreases k,
    {
        if n == m {
            other.lemma_below_self(n);
        } else {
            let q = choose|q: usize| #[trigger] self.kid(q, m) && self.reach(n, q, (k - 1) as nat);
            assert(self.below(n, q));
            self.lemma_reach_there(other, n, q, (k - 1) as nat);
            assert(other.kid(q, m));
            other.lemma_below_kid(n, q, m);
        }
    }

    proof fn lemma_reach_back(self, other: Heap, n: usize, m: usize, k: nat)
        requires
            forall|x: usize| #[trigger]
                self.below(n, x) ==> (self.has(x) ==> other.has(x) && kids(other.body(x)) == kids(
                    self.body(x),
                )) && (other.has(x) ==> self.has(x)),
            other.reach(n, m, k),
        ensures
            self.below(n, m),
        decreases k,
    {
        if n == m {
            self.lemma_below_self(n);
        } else {
            let q = choose|q: usize| #[trigger]
                other.kid(q, m) && other.reach(n, q, (k - 1) as nat);
            self.lemma_reach_back(other, n, q, (k - 1) as nat);
            assert(self.kid(q, m));
            self.lemma_below_kid(n, q, m);
        }
    }

    /// A tree that was added does not reach into what was there before.
    pub proof fn lemma_grown_apart(self, n: usize, after: Heap, m: usize)
        requires
            self.well_formed(),
            self.grown(n, after),
            self.has(m),
        ensures
            !after.below(n, m),
    {
        if after.below(n, m) {
            let k = choose|k: nat| #[trigger] after.reach(n, m, k);
            self.lemma_grown_reach(n, after, m, k);
        }
    }

    proof fn lemma_grown_reach(self, n: usize, after: Heap, m: usize, k: nat)
        requires
            self.well_formed(),
            self.grown(n, after),
            self.has(m),
        ensures
            !after.reach(n, m, k),
        decreases k,
    {
        if after.reach(n, m, k) {
            let q = choose|q: usize| #[trigger]
                after.kid(q, m) && after.reach(n, q, (k - 1) as nat);
            // `m` stands inside something, so it did before, and inside the same thing
            assert(after.attached(m) && m != after.root);
            let p = choose|p: usize| self.kid(p, m);
            assert(after.kid(p, m));
            assert(p == q);
            self.lemma_grown_reach(n, after, q, (k - 1) as nat);
        }
    }

    /// What lies below a node that was there before is the same once a tree was added.
    pub proof fn lemma_grown_below(self, n: usize, after: Heap, m: usize)
        requires
            self.well_formed(),
            self.grown(n, after),
            self.has(m),
        ensures
            forall|x: usize| self.below(m, x) <==> after.below(m, x),
            forall|x: usize| self.below(m, x) ==> self.has(x),
    {
        assert forall|x: usize| self.below(m, x) implies self.has(x) by {
            if x != m {
                let q = self.lemma_below_container(m, x);
            }
        }
        assert forall|x: usize| #[trigger] self.below(m, x) implies (self.has(x) ==> after.has(x)
            && kids(after.body(x)) == kids(self.body(x))) && (after.has(x) ==> self.has(x)) by {
            assert(self.has(x));
        }
        self.lemma_below_frame(after, m);
    }

    /// Freeing the tree that was added last restores the heap.
    pub proof fn lemma_grown_freed(self, n: usize, after: Heap)
        requires
            self.well_formed(),
            self.grown(n, after),
        ensures
            after.without(n) == self,
    {
        let back = after.without(n);
        assert forall|m: usize| back.has(m) <==> self.has(m) by {
            if self.has(m) {
                self.lemma_grown_apart(n, after, m);
            }
        }
        assert forall|m: usize| self.has(m) implies back.nodes[m] == self.nodes[m] by {
            assert(back.has(m));
        }
        assert forall|m: usize| back.nodes.dom().contains(m) <==> self.nodes.dom().contains(m) by {
            assert(back.has(m) <==> self.has(m));
        }
        assert(back.nodes.dom() =~= self.nodes.dom());
        assert forall|m: usize| back.nodes.dom().contains(m) implies back.nodes[m]
            == self.nodes[m] by {
            assert(self.has(m));
        }
        assert(back.nodes =~= self.nodes);
    }

    /// Which collector the document reports to has no bearing on its trees.
    pub proof fn lemma_same_trees(self, other: Heap)
        requires
            other.nodes == self.nodes,
            other.root == self.root,
        ensures
            forall|n: usize, m: usize| self.below(n, m) <==> other.below(n, m),
            self.well_formed() <==> other.well_formed(),
    {
        assert forall|n: usize, m: usize| self.below(n, m) <==> other.below(n, m) by {
            self.lemma_below_frame(other, n);
        }
        if self.well_formed() {
            self.lemma_same_well_formed(other);
        }
        if other.well_formed() {
            other.lemma_same_well_formed(self);
        }
    }

    proof fn lemma_same_well_formed(self, other: Heap)
        requires
            other.nodes == self.nodes,
            other.root == self.root,
            self.well_formed(),
        ensures
            other.well_formed(),
    {
        assert forall|p: usize, c: usize| self.kid(p, c) == other.kid(p, c) by {}
        let rank = choose|rank: spec_fn(usize) -> nat| self.ranked(rank);
        assert(other.ranked(rank)) by {
            assert forall|p: usize, c: usize| #[trigger] other.kid(p, c) implies rank(c) < rank(
                p,
            ) by {
                assert(self.kid(p, c));
            }
        }
        assert forall|p: usize, c: usize| #[trigger] other.kid(p, c) implies other.has(c)
            && other.attached(c) && c != other.root by {
            assert(self.kid(p, c));
        }
        assert forall|c: usize| #[trigger]
            other.has(c) && other.attached(c) && c != other.root implies exists|p: usize|
            other.kid(p, c) by {
            assert(self.has(c));
            let p = choose|p: usize| self.kid(p, c);
            assert(other.kid(p, c));
        }
        assert forall|p: usize, q: usize, c: usize| #[trigger]
            other.kid(p, c) && #[trigger] other.kid(q, c) implies p == q by {
            assert(self.kid(p, c) && self.kid(q, c));
        }
        assert forall|p: usize| #[trigger] other.has(p) implies kids(
            other.body(p),
        ).no_duplicates() by {
            assert(self.has(p));
        }
        assert(other.pairs_distinct()) by {
            assert forall|pair: usize, p: usize, i: int| #[trigger]
                other.pair_at(pair, p, i) implies pair != 0 by {
                assert(self.pair_at(pair, p, i));
            }
            assert forall|pair: usize, p: usize, i: int, q: usize, j: int| #[trigger]
                other.pair_at(pair, p, i) && #[trigger] other.pair_at(pair, q, j) implies p == q
                && i == j by {
                assert(self.pair_at(pair, p, i) && self.pair_at(pair, q, j));
            }
        }
        assert forall|p: usize| #[trigger] other.has(p) implies (other.body(
            p,
        ) matches Body::Sequence(items) ==> items.len() <= i32::MAX) by {
            assert(self.has(p));
        }
    }

    /// The items of a sequence exist, and none is null.
    pub proof fn lemma_item(self, p: usize, i: int)
        requires
            self.well_formed(),
            self.is_sequence(p),
            0 <= i < self.items(p).len(),
        ensures
            self.kid(p, self.items(p)[i]),
            self.has(self.items(p)[i]),
            self.attached(self.items(p)[i]),
            self.items(p)[i] != 0,
            self.items(p).index_of(self.items(p)[i]) == i,
            self.items(p).no_duplicates(),
    {
        assert(kids(self.body(p))[i] == self.items(p)[i]);
        assert(self.kid(p, self.items(p)[i]));
    }

    /// Taking an item out of a sequence does not change what lies below the item.
    pub proof fn lemma_item_out(self, p: usize, i: int)
        requires
            self.well_formed(),
            self.is_sequence(p),
            0 <= i < self.items(p).len(),
        ensures
            forall|m: usize|
                self.below(self.items(p)[i], m) <==> self.without_item(p, i).below(
                    self.items(p)[i],
                    m,
                ),
            !self.below(self.items(p)[i], p),
            self.without_item(p, i).loose(self.items(p)[i]),
    {
        let old = self.items(p)[i];
        let out = self.without_item(p, i);
        self.lemma_item(p, i);
        self.lemma_not_below_kid(p, old);
        assert forall|x: usize| #[trigger] self.below(old, x) implies (self.has(x) ==> out.has(x)
            && kids(out.body(x)) == kids(self.body(x))) && (out.has(x) ==> self.has(x)) by {
            assert(x != p);
        }
        self.lemma_below_frame(out, old);
    }

    /// Taking an item out, freeing it and putting another in its place replaces it.
    pub proof fn lemma_item_replaced(self, p: usize, i: int, item: usize)
        requires
            self.well_formed(),
            self.is_sequence(p),
            0 <= i < self.items(p).len(),
            self.loose(item),
        ensures
            ({
                let rest = self.without_item(p, i).without(self.items(p)[i]);
                &&& rest.is_sequence(p)
                &&& rest.items(p) == self.items(p).remove(i)
                &&& rest.loose(item)
                &&& rest.with_item(p, i, item) == self.with_item_replaced(p, i, item)
            }),
    {
        let old = self.items(p)[i];
        let out = self.without_item(p, i);
        let rest = out.without(old);
        self.lemma_item(p, i);
        self.lemma_item_out(p, i);
        assert(out.has(p) && !out.below(old, p));
        assert(rest.has(p));
        assert(old != p);
        assert(rest.nodes[p] == out.nodes[p]);
        assert(rest.items(p) == self.items(p).remove(i));
        if self.below(old, item) {
            assert(item != old);
            let q = self.lemma_below_container(old, item);
            assert(self.attached(item));
        }
        assert(rest.has(item));
        assert(item != p ==> rest.nodes[item] == self.nodes[item]);
        assert(self.items(p).remove(i).insert(i, item) =~= self.items(p).update(i, item));
        let a = rest.with_item(p, i, item);
        let b = self.with_item_replaced(p, i, item);
        assert forall|m: usize| a.nodes.dom().contains(m) <==> b.nodes.dom().contains(m) by {
            assert(out.has(m) <==> self.has(m));
            assert(self.below(old, m) <==> out.below(old, m));
        }
        assert(a.nodes.dom() =~= b.nodes.dom());
        assert forall|m: usize| a.nodes.dom().contains(m) implies a.nodes[m] == b.nodes[m] by {
            if m != p && m != item {
                assert(!self.below(old, m));
                self.lemma_below_self(old);
                assert(m != old);
            }
        }
        assert(a.nodes =~= b.nodes);
    }
}

} // verus!
