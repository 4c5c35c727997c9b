//! The ways that libfyaml takes, plain steps or not, and what a change leaves of them.

use vstd::prelude::*;

use crate::model::heap::{front, head_part, kids, look, segments, whole_look, Body, Heap};
use crate::model::shape::lemma_kids_of_mapping;
use crate::model::walk::{joined_path, lemma_segments_joined};
use crate::path::{key_part, lemma_last_slash_unique, parent_part};

verus! {

/// The first part of a path goes on to a slash or to the end, and has no slash in it.
pub proof fn lemma_head_part(path: Seq<char>)
    requires
        path.len() > 0,
        path[0] != '/',
    ensures
        0 < head_part(path).len() <= path.len(),
        head_part(path) == path.take(head_part(path).len() as int),
        head_part(path).len() < path.len() ==> path[head_part(path).len() as int] == '/',
        forall|i: int| 0 <= i < head_part(path).len() ==> head_part(path)[i] != '/',
    decreases path.len(),
{
    let rest = path.skip(1);
    if rest.len() > 0 && rest[0] != '/' {
        lemma_head_part(rest);
    } else {
        assert(head_part(rest).len() == 0);
    }
    assert(head_part(path) == seq![path[0]] + head_part(rest));
    assert(head_part(path) =~= path.take(head_part(path).len() as int));
}

/// The steps of a path that does not begin with a slash are its first part and the steps after it.
proof fn lemma_first_segment(path: Seq<char>)
    requires
        path.len() > 0,
        path[0] != '/',
    ensures
        segments(path) == seq![head_part(path)] + segments(path.skip(head_part(path).len() as int)),
{
    lemma_head_part(path);
    let seg = head_part(path);
    let rest = path.skip(seg.len() as int);
    lemma_last_slash_unique(seg, -1);
    assert(key_part(seg) =~= seg);
    assert(parent_part(seg).len() == 0);
    assert(segments(parent_part(seg)) =~= Seq::<Seq<char>>::empty());
    assert(segments(seg) =~= seq![seg]);
    if rest.len() > 0 {
        let tail = rest.skip(1);
        assert(rest =~= joined_path(Seq::empty(), tail));
        assert(path =~= joined_path(seg, tail));
        lemma_segments_joined(Seq::empty(), tail);
        lemma_segments_joined(seg, tail);
        assert(segments(Seq::<char>::empty()) =~= Seq::<Seq<char>>::empty());
        assert(segments(rest) =~= segments(tail));
    } else {
        assert(path =~= seg);
        assert(segments(rest) =~= Seq::<Seq<char>>::empty());
        assert(segments(path) =~= seq![seg] + segments(rest));
    }
}

impl Heap {
    /// Trees with the same nodes in them look the same.
    pub proof fn lemma_same_look(self, h: Heap, n: usize)
        requires
            self.well_formed(),
            self.has(n),
            forall|m: usize| #[trigger]
                self.below(n, m) && self.has(m) ==> h.nodes[m].body == self.nodes[m].body
                    && h.nodes[m].style == self.nodes[m].style && h.nodes[m].tag
                    == self.nodes[m].tag,
        ensures
            whole_look(h.nodes, n) == whole_look(self.nodes, n),
    {
        assert forall|k: nat| #[trigger] whole_look(h.nodes, n)(k) == whole_look(self.nodes, n)(
            k,
        ) by {
            self.lemma_below_self(n);
            self.lemma_same_look_at(h, n, n, k);
        }
        assert(whole_look(h.nodes, n) =~= whole_look(self.nodes, n));
    }

    proof fn lemma_same_look_at(self, h: Heap, n: usize, m: usize, k: nat)
        requires
            self.well_formed(),
            self.below(n, m),
            self.has(m),
            forall|x: usize| #[trigger]
                self.below(n, x) && self.has(x) ==> h.nodes[x].body == self.nodes[x].body
                    && h.nodes[x].style == self.nodes[x].style && h.nodes[x].tag
                    == self.nodes[x].tag,
        ensures
            look(h.nodes, m, k) == look(self.nodes, m, k),
        decreases k,
    {
        if k > 0 {
            let j = (k - 1) as nat;
            assert forall|i: int| 0 <= i < kids(self.body(m)).len() implies look(
                h.nodes,
                #[trigger] kids(self.body(m))[i],
                j,
            ) == look(self.nodes, kids(self.body(m))[i], j) by {
                let c = kids(self.body(m))[i];
                assert(self.kid(m, c));
                self.lemma_below_kid(n, m, c);
                self.lemma_same_look_at(h, n, c, j);
            }
            match self.body(m) {
                Body::Scalar(_) => {},
                Body::Sequence(items) => {
                    assert(look(h.nodes, m, k)->items =~= look(self.nodes, m, k)->items);
                },
                Body::Mapping(entries) => {
                    lemma_kids_of_mapping(entries);
                    assert forall|i: int| 0 <= i < entries.len() implies look(
                        h.nodes,
                        (#[trigger] entries[i]).key,
                        j,
                    ) == look(self.nodes, entries[i].key, j) && look(h.nodes, entries[i].value, j)
                        == look(self.nodes, entries[i].value, j) by {
                        assert(kids(self.body(m))[i] == entries[i].key);
                        assert(kids(self.body(m))[entries.len() + i] == entries[i].value);
                    }
                    assert(look(h.nodes, m, k)->keys =~= look(self.nodes, m, k)->keys);
                    assert(look(h.nodes, m, k)->values =~= look(self.nodes, m, k)->values);
                },
            }
        }
    }

    /// Steps that lead to a node are plain.
    pub proof fn lemma_walk_plain(self, n: usize, segs: Seq<Seq<char>>)
        requires
            !self.has(0),
            self.walk(n, segs) != 0,
        ensures
            self.plain_walk(n, segs),
        decreases segs.len(),
    {
        if segs.len() > 0 {
            self.lemma_step(self.walk(n, segs.drop_last()), segs.last());
            self.lemma_walk_plain(n, segs.drop_last());
        }
    }

    /// From nowhere, no path leads anywhere.
    pub proof fn lemma_lead_nowhere(self, path: Seq<char>)
        requires
            !self.has(0),
        ensures
            self.lead(0, path) == 0,
        decreases path.len(),
    {
        if path.len() > 0 && path[0] == '/' {
            self.lemma_lead_nowhere(path.skip(1));
        }
    }

    /// Along plain steps libfyaml goes where they lead.
    pub proof fn lemma_lead_plain(self, n: usize, path: Seq<char>)
        requires
            self.well_formed(),
            n == 0 || self.has(n),
            self.decides(n, segments(path)),
        ensures
            self.lead(n, path) == self.walk(n, segments(path)),
        decreases path.len(),
    {
        if self.walk(n, segments(path)) != 0 {
            self.lemma_walk_plain(n, segments(path));
        }
        if n == 0 {
            self.lemma_lead_nowhere(path);
            self.lemma_walk_nowhere(segments(path));
        } else if path.len() == 0 {
            assert(segments(path) =~= Seq::<Seq<char>>::empty());
        } else if path[0] == '/' {
            let tail = path.skip(1);
            assert(path =~= joined_path(Seq::empty(), tail));
            lemma_segments_joined(Seq::empty(), tail);
            assert(segments(Seq::<char>::empty()) =~= Seq::<Seq<char>>::empty());
            assert(segments(path) =~= segments(tail));
            self.lemma_lead_plain(n, tail);
        } else {
            lemma_head_part(path);
            lemma_first_segment(path);
            let seg = head_part(path);
            let rest = path.skip(seg.len() as int);
            let q = self.step(n, seg);
            let first = seq![seg];
            assert(first.drop_last() =~= Seq::<Seq<char>>::empty());
            assert(self.walk(n, first.drop_last()) == n);
            assert(self.walk(n, first) == q);
            self.lemma_walk_joined(n, first, segments(rest));
            assert(self.plain_walk(n, first));
            if q != 0 {
                self.lemma_step(n, seg);
                self.lemma_lead_plain(q, rest);
            } else {
                self.lemma_lead_nowhere(rest);
                self.lemma_walk_nowhere(segments(rest));
            }
        }
    }

    /// A path leads to a node below the one that it starts from.
    pub proof fn lemma_lead_below(self, n: usize, path: Seq<char>)
        requires
            self.well_formed(),
            self.has(n),
            self.lead(n, path) != 0,
        ensures
            self.has(self.lead(n, path)),
            self.below(n, self.lead(n, path)),
        decreases path.len(),
    {
        self.lemma_below_self(n);
        if path.len() > 0 && path[0] == '/' {
            self.lemma_lead_below(n, path.skip(1));
        } else if path.len() > 0 {
            let (c, rest) = self.lemma_lead_first(n, path);
            self.lemma_lead_below(c, rest);
            self.lemma_below_kid(n, n, c);
            self.lemma_below_below(n, c, self.lead(n, path));
        }
    }

    /// A path that leads somewhere begins with a step to a node inside the one that it starts from.
    proof fn lemma_lead_first(self, n: usize, path: Seq<char>) -> (r: (usize, Seq<char>))
        requires
            self.well_formed(),
            self.has(n),
            path.len() > 0,
            path[0] != '/',
            self.lead(n, path) != 0,
        ensures
            self.kid(n, r.0),
            self.has(r.0),
            r.1.len() < path.len(),
            self.lead(n, path) == self.lead(r.0, r.1),
            self.plain_step(n, head_part(path)) ==> r.0 == self.step(n, head_part(path)) && r.1
                == path.skip(head_part(path).len() as int),
            !self.plain_step(n, head_part(path)) ==> {
                &&& (self.turns)(front(self.nodes, n), path) matches Some((i, rest))
                &&& r == (self.part(n, i), rest)
            },
            forall|i: int|
                0 <= i < self.entries(n).len() ==> (#[trigger] self.entries(n)[i]).key != r.0,
    {
        let seg = head_part(path);
        let r = if self.plain_step(n, seg) {
            (self.step(n, seg), path.skip(seg.len() as int))
        } else {
            let (i, rest) = (self.turns)(front(self.nodes, n), path)->Some_0;
            (self.part(n, i), rest)
        };
        if r.0 == 0 {
            self.lemma_lead_nowhere(r.1);
        }
        if self.plain_step(n, seg) {
            self.lemma_step(n, seg);
        } else {
            self.lemma_part(n, (self.turns)(front(self.nodes, n), path)->Some_0.0);
        }
        let entries = self.entries(n);
        if let Body::Mapping(_) = self.body(n) {
            lemma_kids_of_mapping(entries);
            let j = if self.plain_step(n, seg) {
                self.find(n, seg) as int
            } else {
                (self.turns)(front(self.nodes, n), path)->Some_0.0
            };
            assert(r.0 == entries[j].value);
            assert forall|i: int| 0 <= i < entries.len() implies (#[trigger] entries[i]).key
                != r.0 by {
                assert(kids(self.body(n))[i] == entries[i].key);
                assert(kids(self.body(n))[entries.len() + j] == entries[j].value);
            }
        }
        r
    }

    /// A change under `p` does not affect the way that libfyaml takes to `p`.
    pub proof fn lemma_lead_kept(self, p: usize, h: Heap, n: usize, path: Seq<char>)
        requires
            self.well_formed(),
            self.kept_outside(p, h),
            self.has(n),
            self.lead(n, path) == p,
            p != 0,
        ensures
            h.lead(n, path) == p,
        decreases path.len(),
    {
        if path.len() > 0 && path[0] == '/' {
            self.lemma_lead_kept(p, h, n, path.skip(1));
        } else if path.len() > 0 {
            let seg = head_part(path);
            let (c, rest) = self.lemma_lead_first(n, path);
            self.lemma_lead_below(c, rest);
            if self.below(p, n) {
                self.lemma_below_below(c, p, n);
                self.lemma_not_below_kid(n, c);
            }
            self.lemma_lead_kept(p, h, c, rest);
            self.lemma_step_kept(p, h, n, seg);
            if let Body::Mapping(entries) = self.body(n) {
                lemma_kids_of_mapping(entries);
                assert forall|i: int| 0 <= i < entries.len() implies whole_look(
                    h.nodes,
                    (#[trigger] entries[i]).key,
                ) == whole_look(self.nodes, entries[i].key) by {
                    let key = self.entries(n)[i].key;
                    assert(kids(self.body(n))[i] == key);
                    assert(self.kid(n, key));
                    assert forall|m: usize| #[trigger]
                        self.below(key, m) && self.has(m) implies h.nodes[m].body
                        == self.nodes[m].body && h.nodes[m].style == self.nodes[m].style
                        && h.nodes[m].tag == self.nodes[m].tag by {
                        self.lemma_disjoint(n, key, c, m);
                        if self.below(p, m) {
                            self.lemma_below_below(c, p, m);
                        }
                    }
                    self.lemma_same_look(h, key);
                }
                assert(front(h.nodes, n)->keys =~= front(self.nodes, n)->keys);
            }
        }
    }

    /// One more tree does not affect what libfyaml finds in a mapping.
    pub proof fn lemma_spot_grown(self, added: usize, h: Heap, p: usize, name: Seq<char>)
        requires
            self.well_formed(),
            self.grown(added, h),
            self.is_mapping(p),
        ensures
            front(h.nodes, p) == front(self.nodes, p),
            h.spot(p, name) == self.spot(p, name),
    {
        let entries = self.entries(p);
        lemma_kids_of_mapping(entries);
        assert(self.has(p));
        assert forall|i: int| 0 <= i < entries.len() implies whole_look(
            h.nodes,
            (#[trigger] entries[i]).key,
        ) == whole_look(self.nodes, entries[i].key) by {
            let key = entries[i].key;
            assert(kids(self.body(p))[i] == key);
            assert(self.kid(p, key));
            self.lemma_same_look(h, key);
        }
        assert(front(h.nodes, p)->keys =~= front(self.nodes, p)->keys);
        self.lemma_find_grown(added, h, p, name);
    }

    /// One more tree does not affect the ways through the others.
    pub proof fn lemma_lead_grown(self, added: usize, h: Heap, n: usize, path: Seq<char>)
        requires
            self.well_formed(),
            self.grown(added, h),
            self.has(n),
        ensures
            h.lead(n, path) == self.lead(n, path),
        decreases path.len(),
    {
        assert(!h.has(0));
        if path.len() > 0 && path[0] == '/' {
            self.lemma_lead_grown(added, h, n, path.skip(1));
        } else if path.len() > 0 {
            let seg = head_part(path);
            lemma_head_part(path);
            assert(self.has(n));
            if let Body::Mapping(_) = self.body(n) {
                self.lemma_spot_grown(added, h, n, seg);
                self.lemma_find_grown(added, h, n, seg);
            }
            let c = if self.plain_step(n, seg) {
                self.step(n, seg)
            } else {
                match (self.turns)(front(self.nodes, n), path) {
                    Some((i, rest)) => self.part(n, i),
                    None => 0,
                }
            };
            let rest = if self.plain_step(n, seg) {
                path.skip(seg.len() as int)
            } else {
                match (self.turns)(front(self.nodes, n), path) {
                    Some((i, rest)) => rest,
                    None => path,
                }
            };
            if rest.len() < path.len() {
                if c == 0 {
                    self.lemma_lead_nowhere(rest);
                    h.lemma_lead_nowhere(rest);
                } else {
                    if self.plain_step(n, seg) {
                        self.lemma_step(n, seg);
                    } else {
                        self.lemma_part(n, (self.turns)(front(self.nodes, n), path)->Some_0.0);
                    }
                    self.lemma_lead_grown(added, h, c, rest);
                }
            }
        }
    }

    /// Where plain steps lead from the root, there libfyaml goes.
    pub proof fn lemma_place_plain(self, path: Seq<char>)
        requires
            self.well_formed(),
            self.decides(self.root, segments(path)),
        ensures
            self.place(path) == self.walk(self.root, segments(path)),
    {
        self.lemma_lead_plain(self.root, path);
    }

    /// A change under `p` does not affect the way from the root to `p`.
    pub proof fn lemma_place_kept(self, p: usize, h: Heap, path: Seq<char>)
        requires
            self.well_formed(),
            self.kept_outside(p, h),
            h.root == self.root,
            self.place(path) == p,
            p != 0,
        ensures
            h.place(path) == p,
    {
        if self.scarce {
            self.lemma_walk_kept(p, h, self.root, segments(path));
        } else {
            if self.root == 0 {
                self.lemma_lead_nowhere(path);
            }
            self.lemma_lead_kept(p, h, self.root, path);
        }
    }

    /// One more tree does not affect the ways from the root.
    pub proof fn lemma_place_grown(self, added: usize, h: Heap, path: Seq<char>)
        requires
            self.well_formed(),
            self.grown(added, h),
        ensures
            h.place(path) == self.place(path),
            h.sure(path) == self.sure(path),
    {
        if self.root == 0 {
            self.lemma_lead_nowhere(path);
            h.lemma_lead_nowhere(path);
            self.lemma_walk_nowhere(segments(path));
            h.lemma_walk_nowhere(segments(path));
            self.lemma_plain_nowhere(segments(path));
            h.lemma_plain_nowhere(segments(path));
        } else {
            self.lemma_lead_grown(added, h, self.root, path);
            self.lemma_walk_grown(added, h, self.root, segments(path));
        }
    }

    proof fn lemma_plain_nowhere(self, segs: Seq<Seq<char>>)
        requires
            !self.has(0),
        ensures
            self.plain_walk(0, segs),
        decreases segs.len(),
    {
        if segs.len() > 0 {
            self.lemma_plain_nowhere(segs.drop_last());
            self.lemma_walk_nowhere(segs.drop_last());
        }
    }

    /// What is at a position in a node stands inside it.
    pub proof fn lemma_part(self, n: usize, i: int)
        requires
            self.part(n, i) != 0,
        ensures
            self.has(n),
            self.kid(n, self.part(n, i)),
    {
        if let Body::Mapping(entries) = self.body(n) {
            lemma_kids_of_mapping(entries);
            assert(entries[i].value == kids(self.body(n))[entries.len() + i]);
        }
    }
}

} // verus!
