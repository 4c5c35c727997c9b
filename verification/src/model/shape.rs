//! Every edit leaves the nodes in the shape of trees.

use vstd::prelude::*;

use crate::model::heap::{keys, kids, values, Body, Entry, Heap};

verus! {

impl Heap {
    /// Whether `m` lies below one of the nodes in `freed`.
    pub open spec fn under(self, freed: Set<usize>, m: usize) -> bool {
        exists|x: usize| freed.contains(x) && #[trigger] self.below(x, m)
    }

    /// Whether `h` is this heap with other nodes inside the node at `p`: those in `added` were
    /// loose before, those in `freed` stood there and are freed with all that lies below them, and
    /// whatever else does not stand there any more is left loose.
    pub open spec fn rewired(
        self,
        p: usize,
        added: Set<usize>,
        freed: Set<usize>,
        h: Heap,
    ) -> bool {
        let before = kids(self.body(p));
        let after = kids(h.body(p));
        &&& self.has(p)
        &&& h.root == self.root
        &&& forall|m: usize| #[trigger] h.has(m) <==> self.has(m) && !self.under(freed, m)
        &&& forall|m: usize| #[trigger] h.has(m) && m != p ==> h.body(m) == self.body(m)
        &&& forall|m: usize| #[trigger]
            h.has(m) ==> (h.attached(m) <==> after.contains(m) || (self.attached(m)
                && !before.contains(m)))
        &&& after.no_duplicates()
        &&& forall|c: usize| #[trigger]
            after.contains(c) ==> added.contains(c) || before.contains(c)
        &&& forall|c: usize| #[trigger]
            added.contains(c) ==> after.contains(c) && self.loose(c) && !self.below(c, p)
        &&& forall|x: usize| #[trigger]
            freed.contains(x) ==> before.contains(x) && !after.contains(x)
        &&& h.pairs_distinct()
        &&& h.body(p) matches Body::Sequence(items) ==> items.len() <= i32::MAX
    }

    /// A node that is freed takes along exactly what it contains: whatever stands inside a node
    /// that stays, stays.
    proof fn lemma_rewired_kid(
        self,
        p: usize,
        added: Set<usize>,
        freed: Set<usize>,
        h: Heap,
        q: usize,
        c: usize,
    )
        requires
            self.well_formed(),
            self.rewired(p, added, freed, h),
            h.has(q),
            q != p,
            self.kid(q, c),
        ensures
            h.has(c),
            h.attached(c),
            !kids(self.body(p)).contains(c),
    {
        if kids(self.body(p)).contains(c) {
            assert(self.kid(p, c));
        }
        assert(self.has(c));
        if self.under(freed, c) {
            let x = choose|x: usize| freed.contains(x) && #[trigger] self.below(x, c);
            self.lemma_parent_below(x, c, q);
            assert(self.under(freed, q));
        }
    }

    proof fn lemma_rewired_stays(
        self,
        p: usize,
        added: Set<usize>,
        freed: Set<usize>,
        h: Heap,
    )
        requires
            self.well_formed(),
            self.rewired(p, added, freed, h),
        ensures
            h.has(p),
            self.root != 0 ==> h.has(self.root) && h.attached(self.root),
            forall|c: usize|
                kids(h.body(p)).contains(c) ==> h.has(c) && h.attached(c) && c != self.root,
    {
        let before = kids(self.body(p));
        let after = kids(h.body(p));
        if self.under(freed, p) {
            let x = choose|x: usize| freed.contains(x) && #[trigger] self.below(x, p);
            assert(self.kid(p, x));
            self.lemma_not_below_kid(p, x);
        }
        if self.root != 0 {
            if before.contains(self.root) {
                assert(self.kid(p, self.root));
            }
            if self.under(freed, self.root) {
                let x = choose|x: usize| freed.contains(x) && #[trigger] self.below(x, self.root);
                let q = self.lemma_below_container(x, self.root);
            }
        }
        assert forall|c: usize| after.contains(c) implies h.has(c) && h.attached(c) && c
            != self.root by {
            if added.contains(c) {
                assert(self.loose(c));
                assert(c != self.root);
                if self.under(freed, c) {
                    let x = choose|x: usize| freed.contains(x) && #[trigger] self.below(x, c);
                    assert(self.kid(p, x));
                    assert(x != c);
                    let q = self.lemma_below_container(x, c);
                }
            } else {
                assert(self.kid(p, c));
                if self.under(freed, c) {
                    let x = choose|x: usize| freed.contains(x) && #[trigger] self.below(x, c);
                    assert(self.kid(p, x));
                    self.lemma_siblings(p, x, c);
                }
            }
            assert(h.has(c));
        }
    }

    proof fn lemma_rewired_ranked(
        self,
        p: usize,
        added: Set<usize>,
        bound: nat,
        freed: Set<usize>,
        rank: spec_fn(usize) -> nat,
        h: Heap,
    )
        requires
            self.well_formed(),
            self.ranked(rank),
            forall|c: usize| #[trigger] added.contains(c) ==> rank(c) < bound,
            self.rewired(p, added, freed, h),
        ensures
            exists|rank: spec_fn(usize) -> nat| h.ranked(rank),
    {
        let before = kids(self.body(p));
        let after = kids(h.body(p));
        let lifted = |m: usize| -> nat
            {
                if self.under(added, m) {
                    rank(m)
                } else {
                    rank(m) + bound
                }
            };
        assert forall|q: usize, c: usize| #[trigger] h.kid(q, c) implies lifted(c) < lifted(q) by {
            if q != p || before.contains(c) {
                assert(self.kid(q, c));
                if self.under(added, q) {
                    let a = choose|a: usize| added.contains(a) && #[trigger] self.below(a, q);
                    self.lemma_below_kid(a, q, c);
                    assert(self.under(added, c));
                } else if self.under(added, c) {
                    let a = choose|a: usize| added.contains(a) && #[trigger] self.below(a, c);
                    assert(a != c);
                    self.lemma_parent_below(a, c, q);
                    assert(self.under(added, q));
                }
            } else {
                assert(added.contains(c));
                self.lemma_below_self(c);
                assert(self.under(added, c));
                if self.under(added, p) {
                    let a = choose|a: usize| added.contains(a) && #[trigger] self.below(a, p);
                }
            }
        }
        assert(h.ranked(lifted));
    }

    /// Putting loose trees in and taking trees out keeps the shape.
    pub proof fn lemma_rewired(self, p: usize, added: Set<usize>, freed: Set<usize>, h: Heap)
        requires
            self.well_formed(),
            self.rewired(p, added, freed, h),
            added.finite(),
        ensures
            h.well_formed(),
    {
        let before = kids(self.body(p));
        let after = kids(h.body(p));
        self.lemma_rewired_stays(p, added, freed, h);
        assert forall|q: usize, c: usize| #[trigger] h.kid(q, c) implies h.has(c) && h.attached(c)
            && c != h.root by {
            if q != p {
                assert(self.kid(q, c));
                self.lemma_rewired_kid(p, added, freed, h, q, c);
            }
        }
        assert forall|c: usize| #[trigger]
            h.has(c) && h.attached(c) && c != h.root implies exists|q: usize| h.kid(q, c) by {
            if after.contains(c) {
                assert(h.kid(p, c));
            } else {
                assert(self.has(c));
                let q = choose|q: usize| self.kid(q, c);
                assert(q != p);
                if self.under(freed, q) {
                    let x = choose|x: usize| freed.contains(x) && #[trigger] self.below(x, q);
                    self.lemma_below_kid(x, q, c);
                    assert(self.under(freed, c));
                }
                assert(h.has(q));
                assert(h.kid(q, c));
            }
        }
        assert forall|q: usize, r: usize, c: usize| #[trigger]
            h.kid(q, c) && #[trigger] h.kid(r, c) implies q == r by {
            if q != p {
                assert(self.kid(q, c));
                self.lemma_rewired_kid(p, added, freed, h, q, c);
            }
            if r != p {
                assert(self.kid(r, c));
                self.lemma_rewired_kid(p, added, freed, h, r, c);
            }
        }
        assert forall|q: usize| #[trigger] h.has(q) implies kids(h.body(q)).no_duplicates() by {
            assert(self.has(q));
        }
        assert forall|q: usize| #[trigger] h.has(q) implies (h.body(q) matches Body::Sequence(
            items,
        ) ==> items.len() <= i32::MAX) by {
            assert(self.has(q));
        }
        let rank = choose|rank: spec_fn(usize) -> nat| self.ranked(rank);
        let bound = lemma_bounded(rank, added);
        self.lemma_rewired_ranked(p, added, bound, freed, rank, h);
    }
}

/// Finitely many nodes have ranks below some number.
proof fn lemma_bounded(rank: spec_fn(usize) -> nat, nodes: Set<usize>) -> (bound: nat)
    requires
        nodes.finite(),
    ensures
        forall|c: usize| #[trigger] nodes.contains(c) ==> rank(c) < bound,
    decreases nodes.len(),
{
    if nodes.len() == 0 {
        0
    } else {
        let n = nodes.choose();
        let rest = lemma_bounded(rank, nodes.remove(n));
        assert forall|c: usize| #[trigger] nodes.contains(c) implies rank(c) < rest + rank(n)
            + 1 by {
            assert(c != n ==> nodes.remove(n).contains(c));
        }
        rest + rank(n) + 1
    }
}

/// What stands inside a mapping: the keys, then the values.
pub proof fn lemma_kids_of_mapping(entries: Seq<Entry>)
    ensures
        kids(Body::Mapping(entries)).len() == 2 * entries.len(),
        forall|i: int|
            0 <= i < entries.len() ==> kids(Body::Mapping(entries))[i] == #[trigger] entries[i].key,
        forall|i: int|
            0 <= i < entries.len() ==> kids(Body::Mapping(entries))[entries.len() + i]
                == #[trigger] entries[i].value,
        forall|i: int|
            entries.len() <= i < 2 * entries.len() ==> #[trigger] kids(Body::Mapping(entries))[i]
                == entries[i - entries.len()].value,
{
}

impl Heap {
    /// A loose node does not contain what lies below the root.
    pub proof fn lemma_loose_apart(self, n: usize, p: usize)
        requires
            self.well_formed(),
            self.loose(n),
            self.root != 0,
            self.below(self.root, p),
        ensures
            !self.below(n, p),
    {
        let k = choose|k: nat| #[trigger] self.reach(self.root, p, k);
        self.lemma_loose_reach(n, p, k);
    }

    proof fn lemma_loose_reach(self, n: usize, p: usize, k: nat)
        requires
            self.well_formed(),
            self.loose(n),
            self.root != 0,
            self.reach(self.root, p, k),
        ensures
            !self.below(n, p),
        decreases k,
    {
        if self.below(n, p) {
            if p == self.root {
                let q = self.lemma_below_container(n, p);
            } else {
                let q = choose|q: usize| #[trigger]
                    self.kid(q, p) && self.reach(self.root, q, (k - 1) as nat);
                assert(n != p);
                self.lemma_parent_below(n, p, q);
                self.lemma_loose_reach(n, q, (k - 1) as nat);
            }
        }
    }

    /// What stands inside a node contains neither that node nor anything loose.
    proof fn lemma_kid_apart(self, p: usize, c: usize, n: usize)
        requires
            self.well_formed(),
            self.kid(p, c),
            self.loose(n),
        ensures
            !self.below(c, p),
            !self.below(c, n),
    {
        self.lemma_not_below_kid(p, c);
        if self.below(c, n) {
            assert(c != n);
            let q = self.lemma_below_container(c, n);
        }
    }

    /// Putting a loose node in the place of another, which is freed, keeps the shape.
    proof fn lemma_swap_shape(self, p: usize, k: int, node: usize, body: Body, h: Heap)
        requires
            self.well_formed(),
            self.has(p),
            0 <= k < kids(self.body(p)).len(),
            self.loose(node),
            !self.below(node, p),
            kids(body) == kids(self.body(p)).update(k, node),
            h == self.without(kids(self.body(p))[k]).with_body(p, body).with_attached(node, true),
            h.pairs_distinct(),
            body matches Body::Sequence(items) ==> items.len() <= i32::MAX,
        ensures
            h.well_formed(),
    {
        let old = kids(self.body(p))[k];
        let before = kids(self.body(p));
        self.lemma_below_self(node);
        self.lemma_below_self(old);
        assert(self.kid(p, old));
        self.lemma_kid_apart(p, old, node);
        assert(h.body(p) == body);
        self.lemma_replaced(p, k, node, h);
        assert forall|m: usize| #[trigger] h.has(m) <==> self.has(m) && !self.under(
            set![old],
            m,
        ) by {
            if self.below(old, m) {
                assert(set![old].contains(old));
                assert(self.under(set![old], m));
            }
        }
        assert forall|m: usize| #[trigger] h.has(m) implies (h.attached(m) <==> kids(
            h.body(p),
        ).contains(m) || (self.attached(m) && !before.contains(m))) by {
            if m != node {
                assert(h.attached(m) == self.attached(m));
                assert(m != old);
                if before.contains(m) {
                    assert(self.kid(p, m));
                }
            }
        }
        self.lemma_rewired(p, set![node], set![old], h);
    }

    /// Replacing the value of a pair keeps the shape.
    pub proof fn lemma_with_value_shape(self, p: usize, i: int, value: usize)
        requires
            self.well_formed(),
            self.is_mapping(p),
            0 <= i < self.entries(p).len(),
            self.loose(value),
            !self.below(value, p),
        ensures
            self.with_value(p, i, value).well_formed(),
    {
        let entries = self.entries(p);
        let h = self.with_value(p, i, value);
        let changed = entries.update(i, Entry { value, ..entries[i] });
        let k = entries.len() + i;
        let old = entries[i].value;
        self.lemma_below_self(value);
        lemma_kids_of_mapping(entries);
        lemma_kids_of_mapping(changed);
        assert(kids(self.body(p))[k] == old);
        self.lemma_kid_apart(p, old, value);
        assert(kids(Body::Mapping(changed)) =~= kids(self.body(p)).update(k, value));
        assert(h.pairs_distinct()) by {
            assert forall|pair: usize, q: usize, j: int| #[trigger]
                h.pair_at(pair, q, j) implies self.pair_at(pair, q, j) by {
                if q == p {
                    assert(h.body(p) == Body::Mapping(changed));
                } else {
                    assert(h.body(q) == self.body(q));
                }
            }
        }
        self.lemma_swap_shape(p, k, value, Body::Mapping(changed), h);
    }

    /// Replacing an item keeps the shape.
    pub proof fn lemma_with_item_replaced_shape(self, p: usize, i: int, item: usize)
        requires
            self.well_formed(),
            self.is_sequence(p),
            0 <= i < self.items(p).len(),
            self.loose(item),
            !self.below(item, p),
        ensures
            self.with_item_replaced(p, i, item).well_formed(),
    {
        let h = self.with_item_replaced(p, i, item);
        self.lemma_below_self(item);
        self.lemma_item(p, i);
        self.lemma_kid_apart(p, self.items(p)[i], item);
        assert(h.pairs_distinct()) by {
            assert forall|pair: usize, q: usize, j: int| #[trigger]
                h.pair_at(pair, q, j) implies self.pair_at(pair, q, j) by {
                if q == p {
                    assert(h.body(p) == Body::Sequence(self.items(p).update(i, item)));
                } else {
                    assert(h.body(q) == self.body(q));
                }
            }
        }
        self.lemma_swap_shape(p, i, item, Body::Sequence(self.items(p).update(i, item)), h);
    }

    /// Adding a pair of loose nodes keeps the shape.
    pub proof fn lemma_with_entry_shape(self, p: usize, e: Entry)
        requires
            self.well_formed(),
            self.is_mapping(p),
            self.loose(e.key),
            self.loose(e.value),
            e.key != e.value,
            !self.below(e.key, p),
            !self.below(e.value, p),
            e.pair != 0,
            !(exists|q: usize, i: int| self.pair_at(e.pair, q, i)),
        ensures
            self.with_entry(p, e).well_formed(),
    {
        let entries = self.entries(p);
        let h = self.with_entry(p, e);
        let changed = entries.push(e);
        let before = kids(self.body(p));
        let after = kids(h.body(p));
        let n = entries.len() as int;
        self.lemma_below_self(e.key);
        self.lemma_below_self(e.value);
        lemma_kids_of_mapping(entries);
        lemma_kids_of_mapping(changed);
        assert(h.body(p) == Body::Mapping(changed));
        assert(after =~= keys(entries).push(e.key) + values(entries).push(e.value));
        assert forall|j: int| 0 <= j < before.len() implies before[j] != e.key && before[j]
            != e.value by {
            assert(self.kid(p, before[j]));
        }
        assert(after[n] == e.key && after[2 * n + 1] == e.value);
        assert forall|j: int|
            0 <= j < after.len() && j != n && j != 2 * n + 1 implies #[trigger] after[j] == before[if j
            < n {
            j
        } else {
            j - 1
        }] by {}
        assert(after.no_duplicates());
        assert forall|c: usize| #[trigger] before.contains(c) implies after.contains(c) by {
            let j = before.index_of(c);
            assert(after[if j < n {
                j
            } else {
                j + 1
            }] == c);
        }
        let added = set![e.key, e.value];
        let freed = Set::<usize>::empty();
        assert forall|c: usize| #[trigger] after.contains(c) implies added.contains(c)
            || before.contains(c) by {
            let j = after.index_of(c);
            assert(j == n || j == 2 * n + 1 || before[if j < n {
                j
            } else {
                j - 1
            }] == c);
        }
        assert forall|m: usize| #[trigger] h.has(m) implies (h.attached(m) <==> after.contains(m)
            || (self.attached(m) && !before.contains(m))) by {
            if before.contains(m) {
                assert(self.kid(p, m));
            }
        }
        assert(h.pairs_distinct()) by {
            assert forall|pair: usize, q: usize, j: int| #[trigger]
                h.pair_at(pair, q, j) implies self.pair_at(pair, q, j) || (pair == e.pair && q == p
                && j == n) by {
                if q != p {
                    assert(h.body(q) == self.body(q));
                }
            }
        }
        self.lemma_rewired(p, added, freed, h);
    }

    /// What stands inside a node once another took the place of one that stood there.
    proof fn lemma_replaced(self, p: usize, k: int, node: usize, h: Heap)
        requires
            self.well_formed(),
            self.has(p),
            0 <= k < kids(self.body(p)).len(),
            self.loose(node),
            kids(h.body(p)) == kids(self.body(p)).update(k, node),
        ensures
            kids(h.body(p)).no_duplicates(),
            !kids(h.body(p)).contains(kids(self.body(p))[k]),
            kids(h.body(p)).contains(node),
            forall|c: usize| #[trigger]
                kids(h.body(p)).contains(c) ==> c == node || kids(self.body(p)).contains(c),
            forall|c: usize| #[trigger]
                kids(self.body(p)).contains(c) && c != kids(self.body(p))[k] ==> kids(
                    h.body(p),
                ).contains(c),
    {
        let before = kids(self.body(p));
        let after = kids(h.body(p));
        assert forall|j: int| 0 <= j < before.len() implies before[j] != node by {
            assert(self.kid(p, before[j]));
        }
        assert(after[k] == node);
        assert forall|c: usize| #[trigger] before.contains(c) && c
            != before[k] implies after.contains(c) by {
            let j = before.index_of(c);
            assert(after[j] == c);
        }
        assert forall|c: usize| #[trigger] after.contains(c) implies c == node || before.contains(
            c,
        ) by {
            let j = after.index_of(c);
            assert(j == k || before[j] == c);
        }
    }

    /// Freeing a loose tree keeps the shape.
    pub proof fn lemma_without_shape(self, n: usize)
        requires
            self.well_formed(),
            self.loose(n),
        ensures
            self.without(n).well_formed(),
    {
        let h = self.without(n);
        assert forall|m: usize| #[trigger] h.has(m) implies self.has(m) && !self.below(n, m)
            && h.nodes[m] == self.nodes[m] by {}
        assert forall|q: usize, c: usize| #[trigger] h.kid(q, c) implies self.kid(q, c) && h.has(
            c,
        ) by {
            assert(self.kid(q, c));
            if self.below(n, c) {
                self.lemma_parent_below(n, c, q);
            }
        }
        if self.root != 0 && self.below(n, self.root) {
            let q = self.lemma_below_container(n, self.root);
        }
        assert forall|c: usize| #[trigger]
            h.has(c) && h.attached(c) && c != h.root implies exists|q: usize| h.kid(q, c) by {
            assert(self.has(c) && self.attached(c));
            let q = choose|q: usize| self.kid(q, c);
            if self.below(n, q) {
                self.lemma_below_kid(n, q, c);
            }
            assert(h.has(q));
            assert(h.kid(q, c));
        }
        assert forall|q: usize| #[trigger] h.has(q) implies kids(h.body(q)).no_duplicates() by {
            assert(self.has(q));
        }
        assert forall|q: usize| #[trigger] h.has(q) implies (h.body(q) matches Body::Sequence(
            items,
        ) ==> items.len() <= i32::MAX) by {
            assert(self.has(q));
        }
        assert(h.pairs_distinct()) by {
            assert forall|pair: usize, q: usize, j: int| #[trigger]
                h.pair_at(pair, q, j) implies self.pair_at(pair, q, j) by {
                assert(h.body(q) == self.body(q));
            }
        }
        let rank = choose|rank: spec_fn(usize) -> nat| self.ranked(rank);
        assert(h.ranked(rank));
    }

    /// Making a loose node the root keeps the shape.
    pub proof fn lemma_with_root_shape(self, n: usize)
        requires
            self.well_formed(),
            self.loose(n),
        ensures
            self.with_root(n).well_formed(),
    {
        let h = self.with_root(n);
        let gone = |m: usize| self.root != 0 && self.below(self.root, m);
        if gone(n) {
            let q = self.lemma_below_container(self.root, n);
        }
        assert forall|m: usize| #[trigger] h.has(m) <==> self.has(m) && !gone(m) by {}
        assert forall|m: usize| #[trigger] h.has(m) implies h.body(m) == self.body(m) by {}
        assert forall|q: usize, c: usize| #[trigger] h.kid(q, c) implies self.kid(q, c) && h.has(c)
            && c != n by {
            assert(self.kid(q, c));
            if gone(c) {
                self.lemma_parent_below(self.root, c, q);
            }
        }
        assert forall|c: usize| #[trigger]
            h.has(c) && h.attached(c) && c != h.root implies exists|q: usize| h.kid(q, c) by {
            assert(self.has(c) && self.attached(c));
            if self.root != 0 {
                self.lemma_below_self(self.root);
            }
            let q = choose|q: usize| self.kid(q, c);
            if gone(q) {
                self.lemma_below_kid(self.root, q, c);
            }
            assert(h.has(q));
            assert(h.kid(q, c));
        }
        assert forall|q: usize| #[trigger] h.has(q) implies kids(h.body(q)).no_duplicates() by {
            assert(self.has(q));
        }
        assert forall|q: usize| #[trigger] h.has(q) implies (h.body(q) matches Body::Sequence(
            items,
        ) ==> items.len() <= i32::MAX) by {
            assert(self.has(q));
        }
        assert(h.pairs_distinct()) by {
            assert forall|pair: usize, q: usize, j: int| #[trigger]
                h.pair_at(pair, q, j) implies self.pair_at(pair, q, j) by {
                assert(h.body(q) == self.body(q));
            }
        }
        let rank = choose|rank: spec_fn(usize) -> nat| self.ranked(rank);
        assert(h.ranked(rank));
    }

    /// Trees side by side have nothing in common.
    pub proof fn lemma_disjoint(self, p: usize, c: usize, d: usize, m: usize)
        requires
            self.well_formed(),
            self.kid(p, c),
            self.kid(p, d),
            c != d,
            self.below(c, m),
        ensures
            !self.below(d, m),
    {
        let k = choose|k: nat| #[trigger] self.reach(c, m, k);
        self.lemma_disjoint_reach(p, c, d, m, k);
    }

    proof fn lemma_disjoint_reach(self, p: usize, c: usize, d: usize, m: usize, k: nat)
        requires
            self.well_formed(),
            self.kid(p, c),
            self.kid(p, d),
            c != d,
            self.reach(c, m, k),
        ensures
            !self.below(d, m),
        decreases k,
    {
        assert(self.below(c, m));
        if self.below(d, m) {
            self.lemma_siblings(p, c, d);
            self.lemma_siblings(p, d, c);
            let q = choose|q: usize| #[trigger] self.kid(q, m) && self.reach(c, q, (k - 1) as nat);
            self.lemma_parent_below(d, m, q);
            self.lemma_disjoint_reach(p, c, d, q, (k - 1) as nat);
        }
    }

    /// What lies below the value of a pair is not affected by the pair's removal.
    pub proof fn lemma_entry_out(self, p: usize, i: int)
        requires
            self.well_formed(),
            self.is_mapping(p),
            0 <= i < self.entries(p).len(),
        ensures
            ({
                let e = self.entries(p)[i];
                let out = self.without_entry(p, i);
                &&& self.kid(p, e.key)
                &&& self.kid(p, e.value)
                &&& e.key != e.value
                &&& e.value != 0
                &&& !self.below(e.key, p)
                &&& !self.below(e.value, p)
                &&& !self.below(e.key, e.value)
                &&& out.loose(e.value)
                &&& forall|m: usize| self.below(e.value, m) <==> out.below(e.value, m)
                &&& keys(self.entries(p)).index_of(e.key) == i
                &&& keys(self.entries(p)).contains(e.key)
            }),
    {
        let entries = self.entries(p);
        let e = entries[i];
        let out = self.without_entry(p, i);
        lemma_kids_of_mapping(entries);
        let inside = kids(self.body(p));
        assert(inside[i] == e.key && inside[entries.len() + i] == e.value);
        assert(self.kid(p, e.key) && self.kid(p, e.value));
        self.lemma_not_below_kid(p, e.key);
        self.lemma_not_below_kid(p, e.value);
        self.lemma_siblings(p, e.key, e.value);
        assert(keys(entries)[i] == e.key);
        assert(keys(entries).no_duplicates()) by {
            assert forall|a: int, b: int|
                0 <= a < entries.len() && 0 <= b < entries.len() && a != b implies #[trigger] keys(
                entries,
            )[a] != #[trigger] keys(entries)[b] by {
                assert(inside[a] != inside[b]);
            }
        }
        assert forall|x: usize| #[trigger] self.below(e.value, x) implies (self.has(x)
            ==> out.has(x) && kids(out.body(x)) == kids(self.body(x))) && (out.has(x) ==> self.has(
            x,
        )) by {
            self.lemma_disjoint(p, e.value, e.key, x);
            assert(x != p);
        }
        self.lemma_below_frame(out, e.value);
    }

    /// Deleting a pair keeps the shape.
    pub proof fn lemma_entry_deleted_shape(self, p: usize, i: int)
        requires
            self.well_formed(),
            self.is_mapping(p),
            0 <= i < self.entries(p).len(),
        ensures
            self.entry_deleted(p, i).well_formed(),
    {
        let entries = self.entries(p);
        let e = entries[i];
        let out = self.without_entry(p, i);
        let h = self.entry_deleted(p, i);
        let left = entries.remove(i);
        let before = kids(self.body(p));
        let after = kids(h.body(p));
        let n = entries.len() as int;
        let freed = set![e.key, e.value];
        let added = Set::<usize>::empty();
        self.lemma_entry_out(p, i);
        lemma_kids_of_mapping(entries);
        lemma_kids_of_mapping(left);
        assert(out.has(p) && out.body(p) == Body::Mapping(left));
        assert(h.has(p) && h.body(p) == Body::Mapping(left));
        let origin = |j: int|
            if j < i {
                j
            } else if j < n - 1 {
                j + 1
            } else if j < n - 1 + i {
                j + 1
            } else {
                j + 2
            };
        assert forall|j: int| 0 <= j < after.len() implies #[trigger] after[j]
            == before[origin(j)] && 0 <= origin(j) < before.len() && origin(j) != i && origin(j) != n
            + i by {
            if j < n - 1 {
                assert(after[j] == left[j].key);
                assert(before[origin(j)] == entries[origin(j)].key);
            } else {
                assert(after[j] == left[j - (n - 1)].value);
                assert(before[origin(j)] == entries[origin(j) - n].value);
            }
        }
        assert(before[i] == e.key && before[n + i] == e.value);
        assert forall|c: usize| #[trigger] after.contains(c) implies before.contains(c) && c
            != e.key && c != e.value by {
            let j = after.index_of(c);
            assert(before[origin(j)] == c);
        }
        assert forall|c: usize| #[trigger] before.contains(c) && c != e.key && c
            != e.value implies after.contains(c) by {
            let j = before.index_of(c);
            let t = if j < i {
                j
            } else if j < n {
                j - 1
            } else if j < n + i {
                j - 1
            } else {
                j - 2
            };
            assert(j != i && j != n + i);
            assert(after[t] == c);
        }
        assert(after.no_duplicates());
        assert forall|m: usize| #[trigger] h.has(m) <==> self.has(m) && !self.under(
            freed,
            m,
        ) by {
            assert(freed.contains(e.key) && freed.contains(e.value));
            if self.below(e.key, m) || self.below(e.value, m) {
                assert(self.under(freed, m));
            }
        }
        self.lemma_below_self(e.key);
        self.lemma_below_self(e.value);
        assert forall|m: usize| #[trigger] h.has(m) implies (h.attached(m) <==> after.contains(m)
            || (self.attached(m) && !before.contains(m))) by {
            assert(m != e.value && m != e.key);
            if before.contains(m) {
                assert(self.kid(p, m));
            }
        }
        assert(h.pairs_distinct()) by {
            assert forall|pair: usize, q: usize, j: int| #[trigger]
                h.pair_at(pair, q, j) implies self.pair_at(
                pair,
                q,
                if q == p && j >= i {
                    j + 1
                } else {
                    j
                },
            ) by {
                if q != p {
                    assert(h.body(q) == self.body(q));
                }
            }
        }
        self.lemma_rewired(p, added, freed, h);
    }

    /// Deleting an item keeps the shape.
    pub proof fn lemma_item_deleted_shape(self, p: usize, i: int)
        requires
            self.well_formed(),
            self.is_sequence(p),
            0 <= i < self.items(p).len(),
        ensures
            self.item_deleted(p, i).well_formed(),
    {
        let items = self.items(p);
        let old = items[i];
        let h = self.item_deleted(p, i);
        let before = kids(self.body(p));
        let after = kids(h.body(p));
        let freed = set![old];
        let added = Set::<usize>::empty();
        self.lemma_item(p, i);
        self.lemma_item_out(p, i);
        self.lemma_not_below_kid(p, old);
        self.lemma_below_self(old);
        assert(h.has(p) && h.body(p) == Body::Sequence(items.remove(i)));
        assert forall|c: usize| #[trigger] after.contains(c) implies before.contains(c) && c
            != old by {
            let j = after.index_of(c);
            assert(before[if j < i {
                j
            } else {
                j + 1
            }] == c);
        }
        assert forall|c: usize| #[trigger] before.contains(c) && c != old implies after.contains(
            c,
        ) by {
            let j = before.index_of(c);
            assert(after[if j < i {
                j
            } else {
                j - 1
            }] == c);
        }
        assert forall|m: usize| #[trigger] h.has(m) <==> self.has(m) && !self.under(
            freed,
            m,
        ) by {
            assert(freed.contains(old));
            if self.below(old, m) {
                assert(self.under(freed, m));
            }
        }
        assert forall|m: usize| #[trigger] h.has(m) implies (h.attached(m) <==> after.contains(m)
            || (self.attached(m) && !before.contains(m))) by {
            assert(m != old);
            if before.contains(m) {
                assert(self.kid(p, m));
            }
        }
        assert(h.pairs_distinct()) by {
            assert forall|pair: usize, q: usize, j: int| #[trigger]
                h.pair_at(pair, q, j) implies self.pair_at(pair, q, j) by {
                if q != p {
                    assert(h.body(q) == self.body(q));
                }
            }
        }
        self.lemma_rewired(p, added, freed, h);
    }

    /// Putting a loose item into a sequence keeps the shape.
    pub proof fn lemma_with_item_shape(self, p: usize, i: int, item: usize)
        requires
            self.well_formed(),
            self.is_sequence(p),
            0 <= i <= self.items(p).len() < i32::MAX,
            self.loose(item),
            !self.below(item, p),
        ensures
            self.with_item(p, i, item).well_formed(),
    {
        let items = self.items(p);
        let h = self.with_item(p, i, item);
        let before = kids(self.body(p));
        let after = kids(h.body(p));
        let added = set![item];
        let freed = Set::<usize>::empty();
        self.lemma_below_self(item);
        assert(h.body(p) == Body::Sequence(items.insert(i, item)));
        assert forall|j: int| 0 <= j < before.len() implies before[j] != item by {
            assert(self.kid(p, before[j]));
        }
        assert(after[i] == item);
        assert forall|j: int| 0 <= j < after.len() && j != i implies #[trigger] after[j]
            == before[if j < i {
            j
        } else {
            j - 1
        }] by {}
        assert(after.no_duplicates());
        assert forall|c: usize| #[trigger] before.contains(c) implies after.contains(c) by {
            let j = before.index_of(c);
            assert(after[if j < i {
                j
            } else {
                j + 1
            }] == c);
        }
        assert forall|c: usize| #[trigger] after.contains(c) implies added.contains(c)
            || before.contains(c) by {
            let j = after.index_of(c);
            assert(j == i || before[if j < i {
                j
            } else {
                j - 1
            }] == c);
        }
        assert forall|m: usize| #[trigger] h.has(m) implies (h.attached(m) <==> after.contains(m)
            || (self.attached(m) && !before.contains(m))) by {
            if before.contains(m) {
                assert(self.kid(p, m));
            }
        }
        assert(h.pairs_distinct()) by {
            assert forall|pair: usize, q: usize, j: int| #[trigger]
                h.pair_at(pair, q, j) implies self.pair_at(pair, q, j) by {
                if q != p {
                    assert(h.body(q) == self.body(q));
                }
            }
        }
        self.lemma_rewired(p, added, freed, h);
    }
}

} // verus!
