//! What reading a document gives.

use vstd::prelude::*;
use vstd::utf8::encode_utf8;

use crate::call::{Call, Reply, Session, Step};
use crate::document::Document;
use crate::error::Error;
use crate::laws::set_yaml::{
    law_plain_path_leads, law_read_after_set, law_set_yaml_at, lemma_parent_stays, plain_path,
};
use crate::model::heap::{item_at, next_after, pairs, segments, values, whole_look, Body, Heap};
use crate::model::walk::{joined_path, lemma_segments_joined};
use crate::model::world::{lemma_runs, runs, World};
use crate::node::{NodeStyle, NodeType};
use crate::node_ref::{
    node_at, AskCount, AskKind, Child, GetChild, Lookup, LookupAt, MapIter, NextItem, NextPair, NodeRef,
    SeqIter, TestKind,
};
use crate::path::{is_root_path, key_part, parent_part};
use crate::set_yaml::{SetYamlAt, Target};

verus! {

/// Following a path changes nothing, and leads where its plain steps lead, or nowhere where they
/// lead nowhere; unless memory runs out, any path leads where libfyaml takes it. A document without a
/// root has nothing at any path.
pub proof fn law_at_path<'a, 'doc>(
    doc: &'doc Document,
    path: &'a str,
    h0: Heap,
    trace: Seq<(Reply, Heap)>,
    result: Option<NodeRef<'doc>>,
    end: Heap,
)
    requires
        h0.well_formed(),
        runs(
            Step::Ask(LookupAt::Rooting { doc, path }, Call::DocumentRoot { doc: doc.ptr }),
            h0,
            trace,
            result,
            end,
        ),
    ensures
        end == h0,
        h0.root == 0 ==> result is None,
        h0.root != 0 && h0.decides(h0.root, segments(path@)) ==> result == node_at(
            doc,
            h0.walk(h0.root, segments(path@)),
        ),
        h0.root != 0 && !h0.scarce ==> result == node_at(doc, h0.lead(h0.root, path@)),
        result matches Some(n) ==> n.doc == doc && h0.has(n.node) && h0.below(h0.root, n.node),
{
    let inv = |step: Step<'a, LookupAt<'doc, 'a>, Option<NodeRef<'doc>>>, h: Heap|
        h == h0 && match step {
            Step::Ask(LookupAt::Rooting { doc: d, path: p }, call) => d == doc && p == path
                && call is DocumentRoot,
            Step::Ask(LookupAt::Walking { doc: d }, call) => d == doc && h0.root != 0 && call == (
            Call::NodeByPath { node: h0.root, path }),
            Step::Done(r) => {
                &&& h0.root == 0 ==> r is None
                &&& h0.root != 0 && h0.decides(h0.root, segments(path@)) ==> r == node_at(
                    doc,
                    h0.walk(h0.root, segments(path@)),
                )
                &&& h0.root != 0 && !h0.scarce ==> r == node_at(doc, h0.lead(h0.root, path@))
                &&& r matches Some(n) ==> n.doc == doc && h0.has(n.node) && h0.below(
                    h0.root,
                    n.node,
                )
            },
        };
    lemma_runs(
        inv,
        Step::Ask(LookupAt::Rooting { doc, path }, Call::DocumentRoot { doc: doc.ptr }),
        h0,
        trace,
        result,
        end,
    );
}

/// Following a path from a node changes nothing, and leads where its plain steps lead; unless
/// memory runs out, any path leads where libfyaml takes it. The empty path leads to the node itself.
pub proof fn law_node_at_path<'a, 'doc>(
    node: NodeRef<'doc>,
    path: &'a str,
    h0: Heap,
    trace: Seq<(Reply, Heap)>,
    result: Option<NodeRef<'doc>>,
    end: Heap,
)
    requires
        h0.has(node.node),
        !h0.has(0),
        runs(
            Step::Ask(
                Lookup { doc: node.doc },
                Call::NodeByPath { node: node.node, path },
            ),
            h0,
            trace,
            result,
            end,
        ),
    ensures
        end == h0,
        h0.decides(node.node, segments(path@)) ==> result == node_at(
            node.doc,
            h0.walk(node.node, segments(path@)),
        ),
        !h0.scarce ==> result == node_at(node.doc, h0.lead(node.node, path@)),
        path@.len() == 0 ==> result == Some(node),
        result matches Some(n) ==> n.doc == node.doc && h0.has(n.node) && h0.below(
            node.node,
            n.node,
        ),
{
    let start = Step::Ask(
        Lookup { doc: node.doc },
        Call::NodeByPath { node: node.node, path },
    );
    let segs = segments(path@);
    let inv = |step: Step<'a, Lookup<'doc>, Option<NodeRef<'doc>>>, h: Heap|
        h == h0 && match step {
            Step::Ask(_, _) => step == start,
            Step::Done(r) => {
                &&& h0.decides(node.node, segs) ==> r == node_at(
                    node.doc,
                    h0.walk(node.node, segs),
                )
                &&& !h0.scarce ==> r == node_at(node.doc, h0.lead(node.node, path@))
                &&& r matches Some(n) ==> n.doc == node.doc && h0.has(n.node) && h0.below(
                    node.node,
                    n.node,
                )
            },
        };
    lemma_runs(inv, start, h0, trace, result, end);
}

/// Following two paths, one after the other, is following the path that joins them, as far as plain
/// steps lead.
pub proof fn law_paths_join<'a, 'doc>(
    node: NodeRef<'doc>,
    paths: (&'a str, &'a str, &'a str),
    h0: Heap,
    traces: (Seq<(Reply, Heap)>, Seq<(Reply, Heap)>, Seq<(Reply, Heap)>),
    first: Option<NodeRef<'doc>>,
    second: Option<NodeRef<'doc>>,
    joined: Option<NodeRef<'doc>>,
    ends: (Heap, Heap, Heap),
)
    requires
        h0.well_formed(),
        h0.has(node.node),
        paths.2@ == joined_path(paths.0@, paths.1@),
        h0.plain_walk(node.node, segments(paths.0@)),
        first matches Some(n) ==> h0.plain_walk(n.node, segments(paths.1@)),
        runs(
            Step::Ask(
                Lookup { doc: node.doc },
                Call::NodeByPath { node: node.node, path: paths.0 },
            ),
            h0,
            traces.0,
            first,
            ends.0,
        ),
        first matches Some(n) ==> runs(
            Step::Ask(
                Lookup { doc: n.doc },
                Call::NodeByPath { node: n.node, path: paths.1 },
            ),
            ends.0,
            traces.1,
            second,
            ends.1,
        ),
        runs(
            Step::Ask(
                Lookup { doc: node.doc },
                Call::NodeByPath { node: node.node, path: paths.2 },
            ),
            h0,
            traces.2,
            joined,
            ends.2,
        ),
    ensures
        joined == match first {
            Some(_) => second,
            None => None,
        },
{
    let a = segments(paths.0@);
    let b = segments(paths.1@);
    lemma_segments_joined(paths.0@, paths.1@);
    h0.lemma_walk_joined(node.node, a, b);
    law_node_at_path(node, paths.0, h0, traces.0, first, ends.0);
    law_node_at_path(node, paths.2, h0, traces.2, joined, ends.2);
    match first {
        Some(n) => {
            law_node_at_path(n, paths.1, h0, traces.1, second, ends.1);
        },
        None => {
            h0.lemma_walk_nowhere(b);
        },
    }
}

/// Setting a value under a key and then asking the mapping for that key gives the tree that was built
/// for it, which looks as libfyaml reads the snippet, whatever plain name the key is.
pub proof fn law_set_then_map_get<'a, 'doc>(
    doc: &'doc Document,
    target: Target<'a>,
    path: Seq<char>,
    key: &'a str,
    yaml: &'a str,
    h0: Heap,
    edit: Seq<(Reply, Heap)>,
    h1: Heap,
    read: Seq<(Reply, Heap)>,
    result: Option<NodeRef<'doc>>,
    end: Heap,
)
    requires
        h0.well_formed(),
        encode_utf8(yaml@).len() <= usize::MAX,
        target.denotes(path),
        !is_root_path(path),
        key@ == key_part(path),
        h0.plain(key@),
        ({
            let map = h0.place(parent_part(path));
            let node = NodeRef { doc, node: map };
            &&& h0.is_mapping(map)
            &&& runs(SetYamlAt::started(doc.ptr, target, yaml), h0, edit, Ok(()), h1)
            &&& runs(
                Step::Ask(
                    GetChild::Typing { node, child: Child::Value(key) },
                    Call::NodeGetType { node: map },
                ),
                h1,
                read,
                result,
                end,
            )
        }),
    ensures
        end == h1,
        result matches Some(n) && !h0.has(n.node) && end.has(n.node) && (h0.snippets)(
            encode_utf8(yaml@),
        ) == Some(whole_look(end.nodes, n.node)),
{
    let map = h0.place(parent_part(path));
    let node = NodeRef { doc, node: map };
    law_set_yaml_at(doc.ptr, target, yaml, h0, edit, Ok(()), h1);
    law_read_after_set(doc.ptr, target, path, yaml, h0, edit, h1);
    lemma_parent_stays(doc.ptr, target, path, yaml, h0, edit, h1);
    law_map_get(node, key, h1, read, result, end);
}

/// Setting a value and then following the same path leads to the tree that was built for it, which
/// looks as libfyaml reads the snippet.
pub proof fn law_set_then_at_path<'a, 'doc>(
    doc: &'doc Document,
    target: Target<'a>,
    path: &'a str,
    yaml: &'a str,
    h0: Heap,
    edit: Seq<(Reply, Heap)>,
    h1: Heap,
    read: Seq<(Reply, Heap)>,
    result: Option<NodeRef<'doc>>,
    end: Heap,
)
    requires
        h0.well_formed(),
        encode_utf8(yaml@).len() <= usize::MAX,
        target.denotes(path@),
        plain_path(h0, path@),
        runs(SetYamlAt::started(doc.ptr, target, yaml), h0, edit, Ok(()), h1),
        runs(
            Step::Ask(LookupAt::Rooting { doc, path }, Call::DocumentRoot { doc: doc.ptr }),
            h1,
            read,
            result,
            end,
        ),
    ensures
        end == h1,
        result matches Some(n) && !h0.has(n.node) && end.has(n.node) && (h0.snippets)(
            encode_utf8(yaml@),
        ) == Some(whole_look(end.nodes, n.node)),
{
    law_set_yaml_at(doc.ptr, target, yaml, h0, edit, Ok(()), h1);
    law_plain_path_leads(h0, path@);
    law_read_after_set(
        doc.ptr,
        target,
        path@,
        yaml,
        h0,
        edit,
        h1,
    );
    if h1.root == 0 {
        h1.lemma_walk_nowhere(segments(path@));
    }
    law_at_path(doc, path, h1, read, result, end);
}

/// A sequence hands out the item at an index, counted from the end when negative; anything else has
/// no items.
pub proof fn law_seq_get<'a, 'doc>(
    node: NodeRef<'doc>,
    index: i32,
    h0: Heap,
    trace: Seq<(Reply, Heap)>,
    result: Option<NodeRef<'doc>>,
    end: Heap,
)
    requires
        h0.has(node.node),
        runs(
            Step::<'a, GetChild<'doc, 'a>, Option<NodeRef<'doc>>>::Ask(
                GetChild::Typing { node, child: Child::Item(index) },
                Call::NodeGetType { node: node.node },
            ),
            h0,
            trace,
            result,
            end,
        ),
    ensures
        end == h0,
        result == node_at(node.doc, item_at(h0.items(node.node), index as int)),
{
    let start = Step::<'a, GetChild<'doc, 'a>, Option<NodeRef<'doc>>>::Ask(
        GetChild::Typing { node, child: Child::Item(index) },
        Call::NodeGetType { node: node.node },
    );
    let inv = |step: Step<'a, GetChild<'doc, 'a>, Option<NodeRef<'doc>>>, h: Heap|
        h == h0 && match step {
            Step::Ask(GetChild::Typing { node: n, child }, call) => step == start,
            Step::Ask(GetChild::Getting { doc }, call) => doc == node.doc && call == (
            Call::SequenceGetByIndex { seq: node.node, index }),
            Step::Done(r) => r == node_at(node.doc, item_at(h0.items(node.node), index as int)),
        };
    lemma_runs(inv, start, h0, trace, result, end);
}

/// A mapping hands out the value of a plain name, and for any other name that of the pair that libfyaml
/// finds for it; anything else has no values. Nothing changes.
pub proof fn law_map_get<'a, 'doc>(
    node: NodeRef<'doc>,
    key: &'a str,
    h0: Heap,
    trace: Seq<(Reply, Heap)>,
    result: Option<NodeRef<'doc>>,
    end: Heap,
)
    requires
        h0.well_formed(),
        h0.has(node.node),
        runs(
            Step::Ask(
                GetChild::Typing { node, child: Child::Value(key) },
                Call::NodeGetType { node: node.node },
            ),
            h0,
            trace,
            result,
            end,
        ),
    ensures
        end == h0,
        h0.is_mapping(node.node) && h0.plain(key@) ==> result == node_at(
            node.doc,
            h0.value(node.node, key@),
        ),
        h0.is_mapping(node.node) && !h0.scarce ==> result == node_at(
            node.doc,
            if h0.spot(node.node, key@) >= 0 {
                h0.entries(node.node)[h0.spot(node.node, key@)].value
            } else {
                0
            },
        ),
        result matches Some(n) ==> n.doc == node.doc && values(h0.entries(node.node)).contains(
            n.node,
        ),
        !h0.is_mapping(node.node) ==> result is None,
{
    let start = Step::Ask(
        GetChild::Typing { node, child: Child::Value(key) },
        Call::NodeGetType { node: node.node },
    );
    let inv = |step: Step<'a, GetChild<'doc, 'a>, Option<NodeRef<'doc>>>, h: Heap|
        h == h0 && match step {
            Step::Ask(GetChild::Typing { .. }, call) => step == start,
            Step::Ask(GetChild::Getting { doc }, call) => doc == node.doc && h0.is_mapping(
                node.node,
            ) && call == (Call::MappingLookupByString { map: node.node, name: key }),
            Step::Done(r) => {
                &&& h0.is_mapping(node.node) && h0.plain(key@) ==> r == node_at(
                    node.doc,
                    h0.value(node.node, key@),
                )
                &&& h0.is_mapping(node.node) && !h0.scarce ==> r == node_at(
                    node.doc,
                    if h0.spot(node.node, key@) >= 0 {
                        h0.entries(node.node)[h0.spot(node.node, key@)].value
                    } else {
                        0
                    },
                )
                &&& r matches Some(n) ==> n.doc == node.doc && values(
                    h0.entries(node.node),
                ).contains(n.node)
                &&& !h0.is_mapping(node.node) ==> r is None
            },
        };
    lemma_runs(inv, start, h0, trace, result, end);
}

/// The type of what a node holds.
pub open spec fn kind_of(body: Body) -> NodeType {
    match body {
        Body::Scalar(_) => NodeType::Scalar,
        Body::Sequence(_) => NodeType::Sequence,
        Body::Mapping(_) => NodeType::Mapping,
    }
}

/// Asking for the type of a node changes nothing, and gives the type of what it holds.
pub proof fn law_kind<'a>(
    node: usize,
    h0: Heap,
    trace: Seq<(Reply, Heap)>,
    result: NodeType,
    end: Heap,
)
    requires
        h0.has(node),
        runs(
            Step::<'a, AskKind, NodeType>::Ask(AskKind, Call::NodeGetType { node }),
            h0,
            trace,
            result,
            end,
        ),
    ensures
        end == h0,
        result == kind_of(h0.body(node)),
{
    let start = Step::<'a, AskKind, NodeType>::Ask(AskKind, Call::NodeGetType { node });
    let inv = |step: Step<'a, AskKind, NodeType>, h: Heap|
        h == h0 && match step {
            Step::Ask(_, _) => step == start,
            Step::Done(r) => r == kind_of(h0.body(node)),
        };
    lemma_runs(inv, start, h0, trace, result, end);
}

/// Asking whether a node is of a type changes nothing, and is answered by what it holds.
pub proof fn law_kind_test<'a>(
    node: usize,
    kind: NodeType,
    h0: Heap,
    trace: Seq<(Reply, Heap)>,
    result: bool,
    end: Heap,
)
    requires
        h0.has(node),
        runs(
            Step::<'a, TestKind, bool>::Ask(TestKind { kind }, Call::NodeGetType { node }),
            h0,
            trace,
            result,
            end,
        ),
    ensures
        end == h0,
        result <==> kind_of(h0.body(node)) == kind,
{
    let start = Step::<'a, TestKind, bool>::Ask(TestKind { kind }, Call::NodeGetType { node });
    let inv = |step: Step<'a, TestKind, bool>, h: Heap|
        h == h0 && match step {
            Step::Ask(_, _) => step == start,
            Step::Done(r) => r <==> kind_of(h0.body(node)) == kind,
        };
    lemma_runs(inv, start, h0, trace, result, end);
}

/// A quoted scalar is not plain.
pub proof fn law_quoted_is_non_plain(style: NodeStyle)
    ensures
        style.quoted_spec() ==> style.non_plain_spec(),
{
}

/// A sequence has as many items as it holds; anything else has no length.
pub proof fn law_seq_len<'a>(
    node: usize,
    h0: Heap,
    trace: Seq<(Reply, Heap)>,
    result: Result<usize, Error>,
    end: Heap,
)
    requires
        h0.well_formed(),
        h0.has(node),
        runs(
            Step::<'a, AskCount, Result<usize, Error>>::Ask(
                AskCount { expected: "sequence", got: "non-sequence" },
                Call::SequenceItemCount { seq: node },
            ),
            h0,
            trace,
            result,
            end,
        ),
    ensures
        end == h0,
        h0.is_sequence(node) ==> (result matches Ok(n) && n == h0.items(node).len()),
        !h0.is_sequence(node) ==> result == Err::<usize, Error>(
            Error::TypeMismatch { expected: "sequence", got: "non-sequence" },
        ),
{
    let start = Step::<'a, AskCount, Result<usize, Error>>::Ask(
        AskCount { expected: "sequence", got: "non-sequence" },
        Call::SequenceItemCount { seq: node },
    );
    let inv = |step: Step<'a, AskCount, Result<usize, Error>>, h: Heap|
        h == h0 && match step {
            Step::Ask(_, _) => step == start,
            Step::Done(r) => {
                &&& h0.is_sequence(node) ==> (r matches Ok(n) && n == h0.items(node).len())
                &&& !h0.is_sequence(node) ==> r == Err::<usize, Error>(
                    Error::TypeMismatch { expected: "sequence", got: "non-sequence" },
                )
            },
        };
    lemma_runs(inv, start, h0, trace, result, end);
}

/// A mapping has as many pairs as it holds; anything else has no length. The number has to fit in a
/// C `int`.
pub proof fn law_map_len<'a>(
    node: usize,
    h0: Heap,
    trace: Seq<(Reply, Heap)>,
    result: Result<usize, Error>,
    end: Heap,
)
    requires
        h0.has(node),
        h0.entries(node).len() <= i32::MAX,
        runs(
            Step::<'a, AskCount, Result<usize, Error>>::Ask(
                AskCount { expected: "mapping", got: "non-mapping" },
                Call::MappingItemCount { map: node },
            ),
            h0,
            trace,
            result,
            end,
        ),
    ensures
        end == h0,
        h0.is_mapping(node) ==> (result matches Ok(n) && n == h0.entries(node).len()),
        !h0.is_mapping(node) ==> result == Err::<usize, Error>(
            Error::TypeMismatch { expected: "mapping", got: "non-mapping" },
        ),
{
    let start = Step::<'a, AskCount, Result<usize, Error>>::Ask(
        AskCount { expected: "mapping", got: "non-mapping" },
        Call::MappingItemCount { map: node },
    );
    let inv = |step: Step<'a, AskCount, Result<usize, Error>>, h: Heap|
        h == h0 && match step {
            Step::Ask(_, _) => step == start,
            Step::Done(r) => {
                &&& h0.is_mapping(node) ==> (r matches Ok(n) && n == h0.entries(node).len())
                &&& !h0.is_mapping(node) ==> r == Err::<usize, Error>(
                    Error::TypeMismatch { expected: "mapping", got: "non-mapping" },
                )
            },
        };
    lemma_runs(inv, start, h0, trace, result, end);
}

/// An iteration over a sequence hands out the items in order: first the first, after each the next,
/// and nothing after the last. A node that is no sequence has no items.
pub proof fn law_seq_iter<'a, 'doc>(
    seq: NodeRef<'doc>,
    i: int,
    iter: SeqIter<'doc>,
    h0: Heap,
    trace: Seq<(Reply, Heap)>,
    result: (SeqIter<'doc>, Option<NodeRef<'doc>>),
    end: Heap,
)
    requires
        h0.well_formed(),
        h0.has(seq.node),
        0 <= i <= h0.items(seq.node).len(),
        iter.seq == seq,
        iter.last == if i == 0 {
            0
        } else {
            h0.items(seq.node)[i - 1]
        },
        runs(
            Step::<'a, NextItem<'doc>, (SeqIter<'doc>, Option<NodeRef<'doc>>)>::Ask(
                NextItem { seq: iter.seq },
                Call::SequenceIterate { seq: iter.seq.node, last: iter.last },
            ),
            h0,
            trace,
            result,
            end,
        ),
    ensures
        end == h0,
        result.0.seq == seq,
        i < h0.items(seq.node).len() ==> result.1 == Some(
            NodeRef { doc: seq.doc, node: h0.items(seq.node)[i] },
        ) && result.0.last == h0.items(seq.node)[i],
        i == h0.items(seq.node).len() ==> result.1 is None && result.0.last == 0,
{
    let items = h0.items(seq.node);
    if i > 0 {
        h0.lemma_item(seq.node, i - 1);
        assert(items.contains(iter.last));
    }
    if i < items.len() {
        h0.lemma_item(seq.node, i);
    }
    assert(next_after(items, iter.last) == item_at(items, i));
    let start = Step::<'a, NextItem<'doc>, (SeqIter<'doc>, Option<NodeRef<'doc>>)>::Ask(
        NextItem { seq: iter.seq },
        Call::SequenceIterate { seq: iter.seq.node, last: iter.last },
    );
    let inv = |step: Step<'a, NextItem<'doc>, (SeqIter<'doc>, Option<NodeRef<'doc>>)>, h: Heap|
        h == h0 && match step {
            Step::Ask(_, _) => step == start,
            Step::Done(r) => {
                &&& r.0.seq == seq
                &&& r.0.last == item_at(items, i)
                &&& r.1 == node_at(seq.doc, item_at(items, i))
            },
        };
    lemma_runs(inv, start, h0, trace, result, end);
}

/// An iteration over a mapping hands out the pairs in order: first the first, after each the next,
/// and nothing after the last. A node that is no mapping has no pairs.
pub proof fn law_map_iter<'a, 'doc>(
    map: NodeRef<'doc>,
    i: int,
    iter: MapIter<'doc>,
    h0: Heap,
    trace: Seq<(Reply, Heap)>,
    result: (MapIter<'doc>, Option<(NodeRef<'doc>, NodeRef<'doc>)>),
    end: Heap,
)
    requires
        h0.well_formed(),
        h0.has(map.node),
        0 <= i <= h0.entries(map.node).len(),
        iter.map == map,
        iter.last == if i == 0 {
            0
        } else {
            h0.entries(map.node)[i - 1].pair
        },
        runs(iter.stepping(), h0, trace, result, end),
    ensures
        end == h0,
        result.0.map == map,
        i < h0.entries(map.node).len() ==> result.1 == Some(
            (
                NodeRef { doc: map.doc, node: h0.entries(map.node)[i].key },
                NodeRef { doc: map.doc, node: h0.entries(map.node)[i].value },
            ),
        ) && result.0.last == h0.entries(map.node)[i].pair,
        i == h0.entries(map.node).len() ==> result.1 is None && result.0.last == 0,
{
    let p = map.node;
    let entries = h0.entries(p);
    let list = pairs(entries);
    if i > 0 {
        assert(list[i - 1] == iter.last);
        assert(list.contains(iter.last));
        let k = list.index_of(iter.last);
        assert(h0.pair_at(iter.last, p, k) && h0.pair_at(iter.last, p, i - 1));
    }
    if i < entries.len() {
        assert(list[i] == entries[i].pair);
        assert(h0.pair_at(entries[i].pair, p, i));
        h0.lemma_entry_out(p, i);
    }
    assert(next_after(list, iter.last) == item_at(list, i));
    let here = item_at(list, i);
    if i < entries.len() {
        assert(h0.pair_at(here, p, i));
        assert(h0.has(entries[i].key) && h0.has(entries[i].value));
    }
    let inv = |
        step: Step<'a, NextPair<'doc>, (MapIter<'doc>, Option<(NodeRef<'doc>, NodeRef<'doc>)>)>,
        h: Heap,
    |
        h == h0 && match step {
            Step::Ask(NextPair::Stepping { .. }, _) => step == iter.stepping(),
            Step::Ask(NextPair::Keying { map: m, pair }, call) => m == map && i < entries.len()
                && pair == here && call == (Call::PairKey { pair: here }),
            Step::Ask(NextPair::Valuing { map: m, pair, key }, call) => m == map && i
                < entries.len() && pair == here && key == entries[i].key && call == (
            Call::PairValue { pair: here }),
            Step::Done(r) => {
                &&& r.0.map == map
                &&& i < entries.len() ==> r.1 == Some(
                    (
                        NodeRef { doc: map.doc, node: entries[i].key },
                        NodeRef { doc: map.doc, node: entries[i].value },
                    ),
                ) && r.0.last == entries[i].pair
                &&& i == entries.len() ==> r.1 is None && r.0.last == 0
            },
        };
    assert forall|s: NextPair<'doc>, call: Call<'a>, before: Heap, reply: Reply, after: Heap|
        inv(Step::Ask(s, call), before) && #[trigger] before.performs(call, reply, after) implies inv(
        #[trigger] s.resumed(reply),
        after,
    ) by {
        match s {
            NextPair::Stepping { map: m } => {
                assert(m == map && call == (Call::MappingIterate { map: p, last: iter.last }));
                assert(reply.pointer_spec() == here);
                assert(inv(s.resumed(reply), after));
            },
            NextPair::Keying { .. } => {
                if let Call::PairKey { pair } = call {
                    assert(before.pair_at(pair, p, i));
                    assert(reply.pointer_spec() == entries[i].key);
                }
                assert(inv(s.resumed(reply), after));
            },
            NextPair::Valuing { .. } => {
                if let Call::PairValue { pair } = call {
                    assert(before.pair_at(pair, p, i));
                    assert(reply.pointer_spec() == entries[i].value);
                }
                assert(inv(s.resumed(reply), after));
            },
        }
    }
    lemma_runs(inv, iter.stepping(), h0, trace, result, end);
}

} // verus!
