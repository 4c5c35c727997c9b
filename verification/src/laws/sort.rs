//! What sorting achieves.

use vstd::prelude::*;

use crate::call::{Call, Reply, Session, Step};
use crate::error::Error;
use crate::find::FindNode;
use crate::model::heap::{kids, segments, sorts, Heap};
use crate::model::order::{lemma_same_things, reordered};
use crate::model::shape::lemma_kids_of_mapping;
use crate::model::world::{lemma_runs, runs, World};
use crate::sort::{SortAt, SortKind};

verus! {

/// Whether `h` is `h0` with the pairs of the mapping at `p` in the order of the comparator.
pub open spec fn mapping_sorted(h0: Heap, p: usize, h: Heap) -> bool {
    &&& h0.is_mapping(p)
    &&& h.is_mapping(p)
    &&& sorts(h0.entries(p), h0.pair_order, h.entries(p))
    &&& h == h0.with_body(p, h.body(p))
}

/// Whether `h` is `h0` with the items of the sequence at `p` in the order of the comparator, and
/// perhaps another style on the sequence.
pub open spec fn sequence_sorted(h0: Heap, p: usize, h: Heap) -> bool {
    &&& h0.is_sequence(p)
    &&& h.is_sequence(p)
    &&& sorts(h0.items(p), h0.item_order, h.items(p))
    &&& h == h0.with_body(p, h.body(p)).with_style(p, h.nodes[p].style)
}

/// Whether `h` is `h1` once the sequence at `p` was asked for the style that it had in `h0`.
pub open spec fn style_restored(h0: Heap, p: usize, h1: Heap, h: Heap) -> bool {
    h == h1.with_style(p, h1.settled_style(p, h0.nodes[p].style))
}

/// Whether a sort leaves the style of the node at `m` alone. Sorting a sequence may lose its style;
/// it keeps the one that libfyaml gives back when it is asked.
pub open spec fn keeps_style(h0: Heap, kind: SortKind, m: usize) -> bool {
    kind is Sequence && h0.is_sequence(m) ==> h0.grants_sequences(h0.nodes[m].style)
}

/// What a sort leaves behind: what the path points at sorted; or, on an error, everything as it was,
/// except that in a tree some mappings may be in the order of the comparator already.
pub open spec fn sorted_at(
    h0: Heap,
    path: Seq<char>,
    kind: SortKind,
    result: Result<(), Error>,
    h: Heap,
) -> bool {
    match result {
        Ok(_) => exists|p: usize| #[trigger] h0.found(path, p) && sorted_node(h0, p, kind, h),
        Err(_) => h == h0 || (kind is Tree && exists|p: usize| #[trigger]
            h0.found(path, p) && h0.sorted_under(p, h)),
    }
}

/// Whether `h` is `h0` with what is at `p` sorted.
pub open spec fn sorted_node(h0: Heap, p: usize, kind: SortKind, h: Heap) -> bool {
    match kind {
        SortKind::Mapping => mapping_sorted(h0, p, h),
        SortKind::Tree => h0.sorted_under(p, h),
        SortKind::Sequence => exists|h1: Heap| #[trigger]
            sequence_sorted(h0, p, h1) && style_restored(h0, p, h1, h),
    }
}

/// What becomes of a sort, as far as the document decides it alone: whether libfyaml sorts sequences is
/// its own affair. It is left open where memory is scarce.
pub open spec fn sort_fate(h: Heap, path: Seq<char>, kind: SortKind) -> Option<Result<(), Error>> {
    let p = h.place(path);
    if h.root == 0 {
        Some(Err(Error::Ffi("document has no root")))
    } else if !h.sure(path) {
        None
    } else if p == 0 {
        Some(Err(Error::Ffi("path not found")))
    } else if kind is Mapping && !(h.body(p) is Mapping) {
        Some(Err(Error::TypeMismatch { expected: "mapping", got: "non-mapping" }))
    } else if kind is Sequence && !(h.body(p) is Sequence) {
        Some(Err(Error::TypeMismatch { expected: "sequence", got: "non-sequence" }))
    } else if h.scarce {
        None
    } else if kind is Sequence && !h.sortable {
        Some(Err(Error::Ffi("fy_node_sequence_sort failed")))
    } else {
        Some(Ok(()))
    }
}

/// How far a sort has got.
spec fn sorting<'a>(
    h0: Heap,
    path: Seq<char>,
    kind0: SortKind,
    step: Step<'a, SortAt<'a>, Result<(), Error>>,
    h: Heap,
) -> bool {
    match step {
        Step::Done(result) => sorted_at(h0, path, kind0, result, h) && (sort_fate(
            h0,
            path,
            kind0,
        ) matches Some(r) ==> r == result),
        Step::Ask(s, call) => match s {
            SortAt::Finding { kind, find } => {
                &&& h == h0
                &&& kind == kind0
                &&& match find {
                    FindNode::Rooting { path: rest, missing } => rest@ == path && missing
                        == "path not found" && call is DocumentRoot,
                    FindNode::Walking { missing } => {
                        &&& call matches Call::NodeByPath { node: root, path: rest }
                        &&& root == h.root
                        &&& root != 0
                        &&& rest@ == path
                        &&& path.len() > 0
                        &&& missing == "path not found"
                    },
                }
            },
            SortAt::Typing { kind, node } => {
                &&& h == h0
                &&& kind == kind0
                &&& !(kind is Tree)
                &&& h0.found(path, node)
                &&& call == Call::NodeGetType { node }
            },
            SortAt::Styling { node } => {
                &&& h == h0
                &&& kind0 is Sequence
                &&& h0.found(path, node)
                &&& h0.is_sequence(node)
                &&& call == Call::NodeGetStyle { node }
            },
            SortAt::Sorting { kind, node, style } => {
                &&& h == h0
                &&& kind == kind0
                &&& kind is Sequence ==> style == h0.nodes[node].style
                &&& h0.found(path, node)
                &&& match kind {
                    SortKind::Mapping => h0.is_mapping(node) && call == Call::MappingSort {
                        map: node,
                    },
                    SortKind::Tree => call == Call::NodeSort { node },
                    SortKind::Sequence => h0.is_sequence(node) && call == Call::SequenceSort {
                        seq: node,
                    },
                }
            },
            SortAt::Restyling => {
                &&& kind0 is Sequence
                &&& call matches Call::NodeSetStyle { node, style }
                &&& style == h0.nodes[node].style
                &&& h0.found(path, node)
                &&& sequence_sorted(h0, node, h)
                &&& h0.scarce || h0.sortable
            },
        },
    }
}

proof fn lemma_sorting<'a>(
    h0: Heap,
    path: Seq<char>,
    kind0: SortKind,
    s: SortAt<'a>,
    call: Call<'a>,
    h: Heap,
    reply: Reply,
    after: Heap,
)
    requires
        h0.well_formed(),
        sorting(h0, path, kind0, Step::Ask(s, call), h),
        h.performs(call, reply, after),
    ensures
        sorting(h0, path, kind0, s.resumed(reply), after),
{
    match s {
        SortAt::Finding { find, .. } => {
            match find {
                FindNode::Rooting { path: rest, .. } => {
                    if h.root != 0 && rest@.len() == 0 {
                        assert(segments(path) == Seq::<Seq<char>>::empty());
                        h.lemma_below_self(h.root);
                        assert(h0.found(path, h.root));
                    }
                },
                FindNode::Walking { .. } => {
                    let p = reply.pointer_spec();
                    if p != 0 {
                        assert(h0.found(path, p));
                    }
                },
            }
        },
        SortAt::Sorting { kind, node, .. } => {
            if reply.status_spec() == 0 && kind is Sequence {
                assert(sequence_sorted(h0, node, after));
            } else if reply.status_spec() == 0 {
                assert(h0.found(path, node) && sorted_node(h0, node, kind, after));
            } else if kind is Tree {
                assert(h0.found(path, node) && h0.sorted_under(node, after));
            }
        },
        SortAt::Restyling => {
            if let Call::NodeSetStyle { node, .. } = call {
                assert(sequence_sorted(h0, node, h) && style_restored(h0, node, h, after));
                assert(h0.found(path, node) && sorted_node(h0, node, kind0, after));
            }
        },
        _ => {},
    }
}

/// A sort reorders what the path points at, by the comparator, and changes nothing else, not even the
/// style of a sequence, provided that libfyaml gives a sequence the style it is asked for; when it
/// fails on a mapping or a sequence nothing changes at all. Either way the trees keep their shape. A
/// document without a root, a path that leads nowhere and a node of the wrong type are refused, each
/// with its own error; unless memory runs out, a mapping or a tree that the path leads to is sorted.
pub proof fn law_sort_at<'a>(
    doc: usize,
    path: &'a str,
    kind: SortKind,
    h0: Heap,
    trace: Seq<(Reply, Heap)>,
    result: Result<(), Error>,
    end: Heap,
)
    requires
        h0.well_formed(),
        runs(SortAt::started(doc, path, kind), h0, trace, result, end),
    ensures
        sorted_at(h0, path@, kind, result, end),
        sort_fate(h0, path@, kind) matches Some(r) ==> r == result,
        forall|m: usize| #[trigger]
            h0.has(m) && keeps_style(h0, kind, m) ==> end.nodes[m].style == h0.nodes[m].style,
        h0.reordered(end),
        end.well_formed(),
{
    let inv = |step: Step<'a, SortAt<'a>, Result<(), Error>>, h: Heap|
        sorting(h0, path@, kind, step, h);
    assert forall|s: SortAt<'a>, call: Call<'a>, before: Heap, reply: Reply, after: Heap|
        inv(Step::Ask(s, call), before) && #[trigger] before.performs(call, reply, after) implies inv(
        #[trigger] s.resumed(reply),
        after,
    ) by {
        lemma_sorting(h0, path@, kind, s, call, before, reply, after);
    }
    lemma_runs(inv, SortAt::started(doc, path, kind), h0, trace, result, end);
    assert forall|m: usize| #[trigger] end.has(m) <==> h0.has(m) by {
        assert(h0.has(m) == h0.nodes.dom().contains(m));
        assert(end.has(m) == end.nodes.dom().contains(m));
    }
    assert forall|m: usize| #[trigger] end.has(m) implies end.attached(m) == h0.attached(m)
        && reordered(h0.body(m), end.body(m)) by {
        assert(h0.has(m));
    }
    h0.lemma_reordered_shape(end);
}

/// Sorting a mapping does not change what its keys stand for, as long as it has no key twice.
pub proof fn law_sorted_reads_alike(h0: Heap, p: usize, key: Seq<char>, h: Heap)
    requires
        h0.well_formed(),
        mapping_sorted(h0, p, h),
        crate::laws::delete::unique_key(h0, p, key),
    ensures
        h.step(p, key) == h0.step(p, key),
{
    let x = h0.entries(p);
    let y = h.entries(p);
    h0.lemma_find_passed(x, key, 0);
    h.lemma_find_passed(y, key, 0);
    lemma_same_things(x, y);
    lemma_kids_of_mapping(x);
    assert forall|i: int| 0 <= i < x.len() implies (h0.named(#[trigger] x[i], key) <==> h.named(
        x[i],
        key,
    )) by {
        assert(kids(h0.body(p))[i] == x[i].key);
        assert(h0.kid(p, x[i].key));
        h0.lemma_not_below_kid(p, x[i].key);
    }
    let i = h0.find(p, key) as int;
    let j = h.find(p, key) as int;
    if i < x.len() {
        assert(x.contains(x[i]));
        let t = y.index_of(x[i]);
        assert(y[t] == x[i]);
        assert(h.named(y[t], key));
    }
    if j < y.len() {
        assert(y.contains(y[j]));
        let t = x.index_of(y[j]);
        assert(x[t] == y[j]);
        assert(h0.named(x[t], key));
    }
}

} // verus!
