//! Sorting keeps the shape of the trees, and what every key stands for.

use vstd::prelude::*;

use crate::model::heap::{kids, Body, Entry, Heap};
use crate::model::shape::lemma_kids_of_mapping;

verus! {

/// Whether two bodies hold the same things, perhaps in another order.
pub open spec fn reordered(a: Body, b: Body) -> bool {
    match (a, b) {
        (Body::Mapping(x), Body::Mapping(y)) => x.to_multiset() == y.to_multiset(),
        (Body::Sequence(x), Body::Sequence(y)) => x.to_multiset() == y.to_multiset(),
        _ => a == b,
    }
}

/// Sequences with the same things in them are equally long, and where one repeats nothing neither
/// does the other.
pub proof fn lemma_same_things<A>(s: Seq<A>, t: Seq<A>)
    requires
        s.to_multiset() == t.to_multiset(),
    ensures
        s.len() == t.len(),
        forall|a: A| s.contains(a) <==> t.contains(a),
        s.no_duplicates() ==> t.no_duplicates(),
{
    s.to_multiset_ensures();
    t.to_multiset_ensures();
    assert forall|a: A| s.contains(a) <==> t.contains(a) by {
        assert(s.contains(a) <==> s.to_multiset().count(a) > 0);
        assert(t.contains(a) <==> t.to_multiset().count(a) > 0);
    }
    if s.no_duplicates() {
        s.lemma_multiset_has_no_duplicates();
        t.lemma_multiset_has_no_duplicates_conv();
    }
}

/// Reordering a body that repeats nothing changes neither what it holds nor that it repeats nothing.
pub proof fn lemma_reordered_kids(a: Body, b: Body)
    requires
        reordered(a, b),
        kids(a).no_duplicates(),
    ensures
        kids(b).no_duplicates(),
        kids(a).len() == kids(b).len(),
        forall|c: usize| kids(a).contains(c) <==> kids(b).contains(c),
{
    match (a, b) {
        (Body::Mapping(x), Body::Mapping(y)) => {
            lemma_reordered_entries(x, y);
            lemma_reordered_entries(y, x);
        },
        (Body::Sequence(x), Body::Sequence(y)) => {
            lemma_same_things(x, y);
        },
        _ => {},
    }
}

proof fn lemma_reordered_entries(x: Seq<Entry>, y: Seq<Entry>)
    requires
        x.to_multiset() == y.to_multiset(),
        kids(Body::Mapping(x)).no_duplicates(),
    ensures
        kids(Body::Mapping(y)).no_duplicates(),
        x.len() == y.len(),
        forall|c: usize|
            kids(Body::Mapping(y)).contains(c) ==> kids(Body::Mapping(x)).contains(c),
{
    let from = kids(Body::Mapping(x));
    let to = kids(Body::Mapping(y));
    let n = x.len() as int;
    lemma_kids_of_mapping(x);
    lemma_kids_of_mapping(y);
    assert(x.no_duplicates()) by {
        assert forall|i: int, j: int| 0 <= i < n && 0 <= j < n && i != j implies x[i] != x[j] by {
            assert(from[i] == x[i].key && from[j] == x[j].key);
        }
    }
    lemma_same_things(x, y);
    assert forall|i: int| 0 <= i < n implies x.contains(#[trigger] y[i]) by {
        assert(y.contains(y[i]));
    }
    assert forall|i: int, j: int| 0 <= i < to.len() && 0 <= j < to.len() && i != j implies to[i]
        != to[j] by {
        let e = y[if i < n {
            i
        } else {
            i - n
        }];
        let f = y[if j < n {
            j
        } else {
            j - n
        }];
        let a = x.index_of(e);
        let b = x.index_of(f);
        assert(x.contains(e) && x.contains(f));
        assert(to[i] == from[if i < n {
            a
        } else {
            n + a
        }]);
        assert(to[j] == from[if j < n {
            b
        } else {
            n + b
        }]);
        if a == b {
            assert(e == f);
        }
    }
    assert forall|c: usize| to.contains(c) implies from.contains(c) by {
        let i = to.index_of(c);
        let e = y[if i < n {
            i
        } else {
            i - n
        }];
        let a = x.index_of(e);
        assert(x.contains(e));
        assert(from[if i < n {
            a
        } else {
            n + a
        }] == c);
    }
}

impl Heap {
    /// Whether `h` is this heap with the things inside some nodes in another order.
    pub open spec fn reordered(self, h: Heap) -> bool {
        &&& h.root == self.root
        &&& forall|m: usize| #[trigger] h.has(m) <==> self.has(m)
        &&& forall|m: usize| #[trigger]
            h.has(m) ==> h.attached(m) == self.attached(m) && reordered(self.body(m), h.body(m))
    }

    /// Reordering keeps the shape.
    pub proof fn lemma_reordered_shape(self, h: Heap)
        requires
            self.well_formed(),
            self.reordered(h),
        ensures
            h.well_formed(),
    {
        assert forall|p: usize, c: usize| self.kid(p, c) <==> h.kid(p, c) by {
            if self.has(p) {
                assert(h.has(p));
                lemma_reordered_kids(self.body(p), h.body(p));
            } else {
                assert(!h.has(p));
            }
        }
        assert forall|p: usize, c: usize| #[trigger] h.kid(p, c) implies h.has(c) && h.attached(c)
            && c != h.root by {
            assert(self.kid(p, c));
            assert(h.has(c));
        }
        assert forall|c: usize| #[trigger]
            h.has(c) && h.attached(c) && c != h.root implies exists|p: usize| h.kid(p, c) by {
            assert(self.has(c) && self.attached(c));
            let p = choose|p: usize| self.kid(p, c);
            assert(h.kid(p, c));
        }
        assert forall|p: usize, q: usize, c: usize| #[trigger]
            h.kid(p, c) && #[trigger] h.kid(q, c) implies p == q by {
            assert(self.kid(p, c) && self.kid(q, c));
        }
        assert forall|p: usize| #[trigger] h.has(p) implies kids(h.body(p)).no_duplicates() by {
            assert(self.has(p));
            lemma_reordered_kids(self.body(p), h.body(p));
        }
        assert forall|p: usize| #[trigger] h.has(p) implies (h.body(p) matches Body::Sequence(
            items,
        ) ==> items.len() <= i32::MAX) by {
            assert(self.has(p));
            lemma_reordered_kids(self.body(p), h.body(p));
        }
        let rank = choose|rank: spec_fn(usize) -> nat| self.ranked(rank);
        assert(h.ranked(rank)) by {
            assert forall|p: usize, c: usize| #[trigger] h.kid(p, c) implies rank(c) < rank(p) by {
                assert(self.kid(p, c));
            }
        }
        self.lemma_reordered_pairs(h);
    }

    proof fn lemma_reordered_pairs(self, h: Heap)
        requires
            self.well_formed(),
            self.reordered(h),
        ensures
            h.pairs_distinct(),
    {
        assert forall|pair: usize, p: usize, i: int| #[trigger] h.pair_at(pair, p, i) implies pair
            != 0 by {
            self.lemma_place_before(h, p, i);
            assert(self.pair_at(pair, p, self.place_before(h, p, i)));
        }
        assert forall|pair: usize, p: usize, i: int, q: usize, j: int| #[trigger]
            h.pair_at(pair, p, i) && #[trigger] h.pair_at(pair, q, j) implies p == q && i == j by {
            self.lemma_place_before(h, p, i);
            self.lemma_place_before(h, q, j);
            assert(self.pair_at(pair, p, self.place_before(h, p, i)));
            assert(self.pair_at(pair, q, self.place_before(h, q, j)));
            assert(p == q);
            assert(h.entries(p)[i] == h.entries(p)[j]);
            let inside = kids(h.body(p));
            lemma_reordered_kids(self.body(p), h.body(p));
            lemma_kids_of_mapping(h.entries(p));
            assert(inside[i] == h.entries(p)[i].key && inside[j] == h.entries(p)[j].key);
        }
    }

    /// Where the `i`-th pair of the mapping at `p` in `h` stands here.
    spec fn place_before(self, h: Heap, p: usize, i: int) -> int {
        self.entries(p).index_of(h.entries(p)[i])
    }

    proof fn lemma_place_before(self, h: Heap, p: usize, i: int)
        requires
            self.reordered(h),
            h.has(p),
            0 <= i < h.entries(p).len(),
        ensures
            0 <= self.place_before(h, p, i) < self.entries(p).len(),
            self.entries(p)[self.place_before(h, p, i)] == h.entries(p)[i],
            self.has(p),
    {
        let x = self.entries(p);
        let y = h.entries(p);
        assert(reordered(self.body(p), h.body(p)));
        lemma_same_things(x, y);
        assert(y.contains(y[i]));
        assert(x.contains(y[i]));
    }
}

} // verus!
