//! What a change leaves of the ways that paths take.

use vstd::prelude::*;

use crate::model::heap::{kids, segments, Body, Entry, Heap};
use crate::model::shape::lemma_kids_of_mapping;
use crate::path::{key_part, last_slash, lemma_last_slash, lemma_last_slash_unique, parent_part};

verus! {

/// Two paths, one after the other.
pub open spec fn joined_path(a: Seq<char>, b: Seq<char>) -> Seq<char> {
    a + seq!['/'] + b
}

/// The steps of two paths, one after the other, are the steps of the one and then of the other.
pub proof fn lemma_segments_joined(a: Seq<char>, b: Seq<char>)
    ensures
        segments(joined_path(a, b)) == segments(a) + segments(b),
    decreases b.len(),
{
    let path = joined_path(a, b);
    let n = a.len() as int;
    lemma_last_slash(b);
    let at = last_slash(b);
    assert(path[n] == '/');
    assert forall|i: int| n + 1 + at < i < path.len() implies path[i] != '/' by {
        assert(path[i] == b[i - n - 1]);
    }
    if at >= 0 {
        assert(path[n + 1 + at] == b[at]);
    }
    lemma_last_slash_unique(path, n + 1 + at);
    assert(key_part(path) =~= key_part(b));
    if at >= 0 {
        assert(parent_part(path) =~= joined_path(a, parent_part(b)));
        lemma_segments_joined(a, parent_part(b));
    } else {
        assert(key_part(b) =~= b);
        assert(parent_part(path) =~= a);
        assert(parent_part(b).len() == 0);
        if b.len() > 0 {
            assert(segments(parent_part(b)) =~= Seq::<Seq<char>>::empty());
            assert(segments(b) =~= seq![b]);
        }
    }
    assert(segments(path) =~= segments(a) + segments(b));
}

impl Heap {
    /// A walk of two series of steps is the one and then the other.
    pub proof fn lemma_walk_joined(self, n: usize, a: Seq<Seq<char>>, b: Seq<Seq<char>>)
        requires
            !self.has(0),
        ensures
            self.walk(n, a + b) == self.walk(self.walk(n, a), b),
            self.plain_walk(n, a + b) <==> self.plain_walk(n, a) && (self.walk(n, a) != 0
                ==> self.plain_walk(self.walk(n, a), b)),
        decreases b.len(),
    {
        if b.len() == 0 {
            assert(a + b =~= a);
        } else {
            assert((a + b).drop_last() =~= a + b.drop_last());
            assert((a + b).last() == b.last());
            self.lemma_walk_joined(n, a, b.drop_last());
            if self.walk(n, a) == 0 {
                self.lemma_walk_nowhere(b.drop_last());
            }
        }
    }

    /// A step leads to a node inside the one it starts from.
    pub proof fn lemma_step(self, q: usize, seg: Seq<char>)
        requires
            self.step(q, seg) != 0,
        ensures
            self.has(q),
            self.kid(q, self.step(q, seg)),
    {
        match self.body(q) {
            Body::Scalar(_) => {},
            Body::Sequence(items) => {
                assert(kids(self.body(q)) == items);
            },
            Body::Mapping(entries) => {
                lemma_kids_of_mapping(entries);
                let i = self.find(q, seg) as int;
                assert(entries[i].value == kids(self.body(q))[entries.len() + i]);
            },
        }
    }

    /// From nowhere, no step leads anywhere.
    pub proof fn lemma_walk_nowhere(self, segs: Seq<Seq<char>>)
        requires
            !self.has(0),
        ensures
            self.walk(0, segs) == 0,
        decreases segs.len(),
    {
        if segs.len() > 0 {
            self.lemma_walk_nowhere(segs.drop_last());
        }
    }

    /// A search through pairs whose keys read alike gives the same position.
    pub proof fn lemma_same_find(self, h: Heap, entries: Seq<Entry>, name: Seq<char>, i: nat)
        requires
            forall|j: int|
                0 <= j < entries.len() ==> (self.named(#[trigger] entries[j], name) <==> h.named(
                    entries[j],
                    name,
                )),
        ensures
            self.find_from(entries, name, i) == h.find_from(entries, name, i),
        decreases entries.len() - i,
    {
        if i < entries.len() && !self.named(entries[i as int], name) {
            self.lemma_same_find(h, entries, name, i + 1);
        }
    }

    /// A tree that was added does not change what a mapping holds.
    pub proof fn lemma_find_grown(self, added: usize, h: Heap, p: usize, name: Seq<char>)
        requires
            self.well_formed(),
            self.grown(added, h),
            self.is_mapping(p),
        ensures
            h.is_mapping(p),
            h.entries(p) == self.entries(p),
            h.find(p, name) == self.find(p, name),
    {
        let entries = self.entries(p);
        lemma_kids_of_mapping(entries);
        assert(self.has(p));
        assert forall|j: int| 0 <= j < entries.len() implies (self.named(
            #[trigger] entries[j],
            name,
        ) <==> h.named(entries[j], name)) by {
            assert(kids(self.body(p))[j] == entries[j].key);
            assert(self.kid(p, entries[j].key));
        }
        self.lemma_same_find(h, entries, name, 0);
    }

    /// Whether `h` reads like this heap outside the tree under `p`, which is no scalar in either.
    pub open spec fn kept_outside(self, p: usize, h: Heap) -> bool {
        &&& self.same_rules(h)
        &&& self.has(p)
        &&& h.has(p)
        &&& !(self.body(p) is Scalar)
        &&& !(h.body(p) is Scalar)
        &&& forall|m: usize| #[trigger]
            self.has(m) && !self.below(p, m) ==> h.has(m) && h.body(m) == self.body(m)
                && h.nodes[m].style == self.nodes[m].style && h.nodes[m].tag == self.nodes[m].tag
    }

    /// A change under `p` does not affect the steps that lead to `p`.
    pub proof fn lemma_step_kept(self, p: usize, h: Heap, q: usize, seg: Seq<char>)
        requires
            self.well_formed(),
            self.kept_outside(p, h),
            !self.below(p, q),
            self.has(q),
        ensures
            h.step(q, seg) == self.step(q, seg),
    {
        let entries = self.entries(q);
        assert forall|j: int| 0 <= j < entries.len() implies (self.named(
            #[trigger] entries[j],
            seg,
        ) <==> h.named(entries[j], seg)) by {
            lemma_kids_of_mapping(entries);
            let key = entries[j].key;
            assert(kids(self.body(q))[j] == key);
            assert(self.kid(q, key));
            if self.below(p, key) && key != p {
                self.lemma_parent_below(p, key, q);
            }
        }
        self.lemma_same_find(h, entries, seg, 0);
    }

    /// A change under `p` does not affect the way to `p`, nor to anything outside.
    pub proof fn lemma_walk_kept(self, p: usize, h: Heap, n: usize, segs: Seq<Seq<char>>)
        requires
            self.well_formed(),
            self.kept_outside(p, h),
            self.walk(n, segs) != 0,
            self.walk(n, segs) == p || !self.below(p, self.walk(n, segs)),
        ensures
            h.walk(n, segs) == self.walk(n, segs),
        decreases segs.len(),
    {
        if segs.len() > 0 {
            let w = self.walk(n, segs);
            let q = self.walk(n, segs.drop_last());
            self.lemma_step(q, segs.last());
            if self.below(p, q) {
                self.lemma_below_kid(p, q, w);
                self.lemma_not_below_kid(q, w);
            }
            self.lemma_walk_kept(p, h, n, segs.drop_last());
            self.lemma_step_kept(p, h, q, segs.last());
        }
    }

    /// Where a walk leads, if anywhere, there is a node.
    pub proof fn lemma_walk_has(self, n: usize, segs: Seq<Seq<char>>)
        requires
            self.well_formed(),
            self.has(n),
        ensures
            self.walk(n, segs) == 0 || self.has(self.walk(n, segs)),
    {
        if segs.len() > 0 && self.walk(n, segs) != 0 {
            self.lemma_step(self.walk(n, segs.drop_last()), segs.last());
        }
    }

    /// One more tree does not affect the ways through the others.
    pub proof fn lemma_walk_grown(self, added: usize, h: Heap, n: usize, segs: Seq<Seq<char>>)
        requires
            self.well_formed(),
            self.grown(added, h),
            self.has(n),
        ensures
            h.walk(n, segs) == self.walk(n, segs),
            h.plain_walk(n, segs) == self.plain_walk(n, segs),
        decreases segs.len(),
    {
        if segs.len() > 0 {
            let q = self.walk(n, segs.drop_last());
            let seg = segs.last();
            self.lemma_walk_grown(added, h, n, segs.drop_last());
            self.lemma_walk_has(n, segs.drop_last());
            if q != 0 {
                let entries = self.entries(q);
                assert forall|j: int| 0 <= j < entries.len() implies (self.named(
                    #[trigger] entries[j],
                    seg,
                ) <==> h.named(entries[j], seg)) by {
                    lemma_kids_of_mapping(entries);
                    assert(kids(self.body(q))[j] == entries[j].key);
                    assert(self.kid(q, entries[j].key));
                }
                self.lemma_same_find(h, entries, seg, 0);
            }
        }
    }

    /// The first pair whose key reads `name`, if it is the `i`-th, is where the search ends.
    pub proof fn lemma_find_at(self, entries: Seq<Entry>, name: Seq<char>, from: nat, i: nat)
        requires
            from <= i <= entries.len(),
            forall|j: int| from <= j < i ==> !self.named(#[trigger] entries[j], name),
            i < entries.len() ==> self.named(entries[i as int], name),
        ensures
            self.find_from(entries, name, from) == i,
        decreases i - from,
    {
        if from < i {
            self.lemma_find_at(entries, name, from + 1, i);
        }
    }

    /// Where a search ends, and what it passed on the way.
    pub proof fn lemma_find_passed(self, entries: Seq<Entry>, name: Seq<char>, from: nat)
        requires
            from <= entries.len(),
        ensures
            ({
                let i = self.find_from(entries, name, from);
                &&& from <= i <= entries.len()
                &&& i < entries.len() ==> self.named(entries[i as int], name)
                &&& forall|j: int| from <= j < i ==> !self.named(#[trigger] entries[j], name)
            }),
        decreases entries.len() - from,
    {
        if from < entries.len() && !self.named(entries[from as int], name) {
            self.lemma_find_passed(entries, name, from + 1);
        }
    }
}

} // verus!
