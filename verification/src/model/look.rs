//! Trees that look alike, and the ways that paths take through them.

use vstd::prelude::*;

use crate::model::heap::{
    front, head_part, kids, look, look_alike, whole_look, Body, Cell, Entry, Heap,
};
use crate::model::shape::lemma_kids_of_mapping;

verus! {

/// What stands at the same place in containers that look alike looks alike.
proof fn lemma_parts_alike(a: Map<usize, Cell>, n: usize, b: Map<usize, Cell>, m: usize)
    requires
        look_alike(a, n, b, m),
    ensures
        a[n].style == b[m].style,
        a[n].tag == b[m].tag,
        match (a[n].body, b[m].body) {
            (Body::Scalar(x), Body::Scalar(y)) => x == y,
            (Body::Sequence(x), Body::Sequence(y)) => x.len() == y.len() && forall|i: int|
                0 <= i < x.len() ==> look_alike(a, #[trigger] x[i], b, y[i]),
            (Body::Mapping(x), Body::Mapping(y)) => x.len() == y.len() && forall|i: int|
                0 <= i < x.len() ==> look_alike(a, (#[trigger] x[i]).key, b, y[i].key)
                    && look_alike(a, x[i].value, b, y[i].value),
            _ => false,
        },
{
    assert(whole_look(a, n)(1) == whole_look(b, m)(1));
    match (a[n].body, b[m].body) {
        (Body::Sequence(x), Body::Sequence(y)) => {
            assert(look(a, n, 1)->items.len() == x.len());
            assert forall|i: int| 0 <= i < x.len() implies look_alike(
                a,
                #[trigger] x[i],
                b,
                y[i],
            ) by {
                assert forall|k: nat| #[trigger] whole_look(a, x[i])(k) == whole_look(b, y[i])(
                    k,
                ) by {
                    assert(whole_look(a, n)(k + 1) == whole_look(b, m)(k + 1));
                    assert(look(a, n, k + 1)->items[i] == look(a, x[i], k));
                    assert(look(b, m, k + 1)->items[i] == look(b, y[i], k));
                }
                assert(whole_look(a, x[i]) =~= whole_look(b, y[i]));
            }
        },
        (Body::Mapping(x), Body::Mapping(y)) => {
            assert(look(a, n, 1)->keys.len() == x.len());
            assert forall|i: int| 0 <= i < x.len() implies look_alike(
                a,
                (#[trigger] x[i]).key,
                b,
                y[i].key,
            ) && look_alike(a, x[i].value, b, y[i].value) by {
                assert forall|k: nat| #[trigger] whole_look(a, x[i].key)(k) == whole_look(
                    b,
                    y[i].key,
                )(k) by {
                    assert(whole_look(a, n)(k + 1) == whole_look(b, m)(k + 1));
                    assert(look(a, n, k + 1)->keys[i] == look(a, x[i].key, k));
                    assert(look(b, m, k + 1)->keys[i] == look(b, y[i].key, k));
                }
                assert forall|k: nat| #[trigger] whole_look(a, x[i].value)(k) == whole_look(
                    b,
                    y[i].value,
                )(k) by {
                    assert(whole_look(a, n)(k + 1) == whole_look(b, m)(k + 1));
                    assert(look(a, n, k + 1)->values[i] == look(a, x[i].value, k));
                    assert(look(b, m, k + 1)->values[i] == look(b, y[i].value, k));
                }
                assert(whole_look(a, x[i].key) =~= whole_look(b, y[i].key));
                assert(whole_look(a, x[i].value) =~= whole_look(b, y[i].value));
            }
        },
        _ => {},
    }
}

impl Heap {
    /// Whether two nodes look alike, or both are nowhere.
    pub open spec fn twins(self, n: usize, other: Heap, m: usize) -> bool {
        if n == 0 || m == 0 {
            n == m
        } else {
            self.has(n) && other.has(m) && look_alike(self.nodes, n, other.nodes, m)
        }
    }

    /// Mappings that look alike have a name at the same place.
    proof fn lemma_find_alike(
        self,
        x: Seq<Entry>,
        other: Heap,
        y: Seq<Entry>,
        name: Seq<char>,
        i: nat,
    )
        requires
            x.len() == y.len(),
            forall|j: int|
                0 <= j < x.len() ==> (self.named(#[trigger] x[j], name) <==> other.named(
                    y[j],
                    name,
                )),
        ensures
            self.find_from(x, name, i) == other.find_from(y, name, i),
        decreases x.len() - i,
    {
        if i < x.len() && !self.named(x[i as int], name) {
            self.lemma_find_alike(x, other, y, name, i + 1);
        }
    }

    /// A step from nodes that look alike leads to nodes that look alike, or nowhere from both.
    proof fn lemma_step_alike(self, n: usize, other: Heap, m: usize, seg: Seq<char>)
        requires
            self.well_formed(),
            other.well_formed(),
            self.same_rules(other),
            self.has(n),
            other.has(m),
            look_alike(self.nodes, n, other.nodes, m),
        ensures
            self.twins(self.step(n, seg), other, other.step(m, seg)),
            self.plain_step(n, seg) == other.plain_step(m, seg),
    {
        lemma_parts_alike(self.nodes, n, other.nodes, m);
        match (self.body(n), other.body(m)) {
            (Body::Sequence(x), Body::Sequence(y)) => {
                assert forall|i: int| 0 <= i < x.len() implies self.twins(
                    #[trigger] x[i],
                    other,
                    y[i],
                ) by {
                    assert(kids(self.body(n)).contains(x[i]));
                    assert(kids(other.body(m)).contains(y[i]));
                    assert(self.kid(n, x[i]));
                    assert(other.kid(m, y[i]));
                }
            },
            (Body::Mapping(x), Body::Mapping(y)) => {
                lemma_kids_of_mapping(x);
                lemma_kids_of_mapping(y);
                assert forall|i: int| 0 <= i < x.len() implies self.twins(
                    (#[trigger] x[i]).value,
                    other,
                    y[i].value,
                ) && (self.named(x[i], seg) <==> other.named(y[i], seg)) by {
                    assert(kids(self.body(n))[i] == x[i].key);
                    assert(kids(self.body(n))[x.len() + i] == x[i].value);
                    assert(kids(other.body(m))[i] == y[i].key);
                    assert(kids(other.body(m))[y.len() + i] == y[i].value);
                    assert(self.kid(n, x[i].key));
                    assert(self.kid(n, x[i].value));
                    assert(other.kid(m, y[i].key));
                    assert(other.kid(m, y[i].value));
                    lemma_parts_alike(self.nodes, x[i].key, other.nodes, y[i].key);
                }
                self.lemma_find_alike(x, other, y, seg, 0);
                let f = self.find(n, seg) as int;
                if f < x.len() {
                    assert(self.twins(x[f].value, other, y[f].value));
                }
            },
            _ => {},
        }
    }

    /// Steps from nodes that look alike lead to nodes that look alike, or nowhere from both.
    pub proof fn lemma_walk_alike(self, n: usize, other: Heap, m: usize, segs: Seq<Seq<char>>)
        requires
            self.well_formed(),
            other.well_formed(),
            self.same_rules(other),
            self.twins(n, other, m),
        ensures
            self.twins(self.walk(n, segs), other, other.walk(m, segs)),
            self.plain_walk(n, segs) == other.plain_walk(m, segs),
            self.decides(n, segs) == other.decides(m, segs),
        decreases segs.len(),
    {
        if segs.len() > 0 {
            let rest = segs.drop_last();
            self.lemma_walk_alike(n, other, m, rest);
            let a = self.walk(n, rest);
            let b = other.walk(m, rest);
            if a != 0 && b != 0 {
                self.lemma_step_alike(a, other, b, segs.last());
            }
        }
    }

    /// What stands at the same place in nodes that look alike looks alike, or is missing in both.
    proof fn lemma_part_alike(self, n: usize, other: Heap, m: usize, i: int)
        requires
            self.well_formed(),
            other.well_formed(),
            self.has(n),
            other.has(m),
            look_alike(self.nodes, n, other.nodes, m),
        ensures
            self.twins(self.part(n, i), other, other.part(m, i)),
            front(self.nodes, n) == front(other.nodes, m),
    {
        lemma_parts_alike(self.nodes, n, other.nodes, m);
        match (self.body(n), other.body(m)) {
            (Body::Sequence(x), Body::Sequence(y)) => {
                if 0 <= i < x.len() {
                    assert(kids(self.body(n)).contains(x[i]));
                    assert(kids(other.body(m)).contains(y[i]));
                    assert(self.kid(n, x[i]));
                    assert(other.kid(m, y[i]));
                }
            },
            (Body::Mapping(x), Body::Mapping(y)) => {
                lemma_kids_of_mapping(x);
                lemma_kids_of_mapping(y);
                if 0 <= i < x.len() {
                    assert(kids(self.body(n))[x.len() + i] == x[i].value);
                    assert(kids(other.body(m))[y.len() + i] == y[i].value);
                    assert(self.kid(n, x[i].value));
                    assert(other.kid(m, y[i].value));
                }
                assert(front(self.nodes, n)->keys =~= front(other.nodes, m)->keys);
            },
            _ => {},
        }
    }

    /// libfyaml follows a path in trees that look alike to nodes that look alike, or nowhere in both.
    pub proof fn lemma_lead_alike(self, n: usize, other: Heap, m: usize, path: Seq<char>)
        requires
            self.well_formed(),
            other.well_formed(),
            self.same_rules(other),
            self.twins(n, other, m),
        ensures
            self.twins(self.lead(n, path), other, other.lead(m, path)),
        decreases path.len(),
    {
        if path.len() > 0 && path[0] == '/' {
            self.lemma_lead_alike(n, other, m, path.skip(1));
        } else if path.len() > 0 && n != 0 {
            let seg = head_part(path);
            self.lemma_step_alike(n, other, m, seg);
            self.lemma_part_alike(n, other, m, 0);
            if self.plain_step(n, seg) {
                if 0 < seg.len() <= path.len() {
                    self.lemma_lead_alike(
                        self.step(n, seg),
                        other,
                        other.step(m, seg),
                        path.skip(seg.len() as int),
                    );
                }
            } else if let Some((i, rest)) = (self.turns)(front(self.nodes, n), path) {
                if rest.len() < path.len() {
                    self.lemma_part_alike(n, other, m, i);
                    self.lemma_lead_alike(self.part(n, i), other, other.part(m, i), rest);
                }
            }
        }
    }

    /// Nodes that look alike are of the same kind, style, tag and text.
    pub proof fn lemma_twins(self, n: usize, other: Heap, m: usize)
        requires
            n != 0,
            self.twins(n, other, m),
        ensures
            m != 0,
            self.type_number(n) == other.type_number(m),
            self.nodes[n].style == other.nodes[m].style,
            self.nodes[n].tag == other.nodes[m].tag,
            self.body(n) matches Body::Scalar(text) ==> other.body(m) == Body::Scalar(text),
    {
        lemma_parts_alike(self.nodes, n, other.nodes, m);
    }
}

} // verus!
