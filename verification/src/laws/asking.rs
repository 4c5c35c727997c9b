//! What the functions that read a document answer.

use vstd::prelude::*;

use crate::call::{Call, Reply, Session, Step};
use crate::document::Document;
use crate::error::Error;
use crate::find::FindNode;
use crate::laws::read::{
    law_at_path, law_kind, law_kind_test, law_map_get, law_map_iter, law_map_len, law_node_at_path,
    law_seq_get, law_seq_iter, law_seq_len,
};
use crate::laws::text::{law_scalar_bytes, law_tag_bytes, scalar_read, tag_read};
use crate::model::heap::{next_after, segments, Body, Heap};
use crate::model::rack::Rack;
use crate::model::snapshot::Snapshot;
use crate::model::world::{lemma_runs, runs, World};
use crate::node::{NodeStyle, NodeType};
use crate::node_ref::{
    AskCount, AskKind, AskScalar, AskStyle, AskTag, GetChild, Lookup, LookupAt, LookupValue,
    MapIter, NextItem, NextPair, NodeRef, SeqIter, Span, TestKind, TestStyle, ValueRef,
};

verus! {

/// Whether `r` refers to the node of `doc` at an address; there is none at the null address.
pub open spec fn refers<'doc>(
    doc: &'doc Document,
    address: usize,
    r: Option<NodeRef<'doc>>,
) -> bool {
    match r {
        Some(n) => address != 0 && n.doc == doc && n.node == address,
        None => address == 0,
    }
}

/// A reference to a node is to the one at the address, in the document.
pub proof fn law_new_node_ref<'doc>(node: usize, doc: &'doc Document, r: NodeRef<'doc>)
    requires
        call_ensures(NodeRef::<'doc>::new, (node, doc), r),
    ensures
        r.node == node,
        r.doc == doc,
{
}

/// The document of a node is the one that it is referred to in.
pub proof fn law_node_document<'doc>(node: NodeRef<'doc>, r: &'doc Document)
    requires
        call_ensures(NodeRef::<'doc>::document, (&node,), r),
    ensures
        r == node.doc,
{
}

/// The type of a node is that of what it holds. Asking changes nothing.
pub proof fn law_ask_kind<'a, 'doc>(
    node: NodeRef<'doc>,
    step: Step<'a, AskKind, NodeType>,
    h0: Heap,
    trace: Seq<(Reply, Heap)>,
    result: NodeType,
    end: Heap,
)
    requires
        h0.has(node.node),
        call_ensures(NodeRef::<'doc>::kind, (&node,), step),
        runs(step, h0, trace, result, end),
    ensures
        end == h0,
        match h0.body(node.node) {
            Body::Scalar(_) => result is Scalar,
            Body::Sequence(_) => result is Sequence,
            Body::Mapping(_) => result is Mapping,
        },
{
    law_kind(node.node, h0, trace, result, end);
}

/// A node is a scalar if it holds text. Asking changes nothing.
pub proof fn law_ask_is_scalar<'a, 'doc>(
    node: NodeRef<'doc>,
    step: Step<'a, TestKind, bool>,
    h0: Heap,
    trace: Seq<(Reply, Heap)>,
    result: bool,
    end: Heap,
)
    requires
        h0.has(node.node),
        call_ensures(NodeRef::<'doc>::is_scalar, (&node,), step),
        runs(step, h0, trace, result, end),
    ensures
        end == h0,
        result <==> h0.body(node.node) is Scalar,
{
    law_kind_test(node.node, NodeType::Scalar, h0, trace, result, end);
}

/// A node is a mapping if it holds pairs. Asking changes nothing.
pub proof fn law_ask_is_mapping<'a, 'doc>(
    node: NodeRef<'doc>,
    step: Step<'a, TestKind, bool>,
    h0: Heap,
    trace: Seq<(Reply, Heap)>,
    result: bool,
    end: Heap,
)
    requires
        h0.has(node.node),
        call_ensures(NodeRef::<'doc>::is_mapping, (&node,), step),
        runs(step, h0, trace, result, end),
    ensures
        end == h0,
        result <==> h0.body(node.node) is Mapping,
{
    law_kind_test(node.node, NodeType::Mapping, h0, trace, result, end);
}

/// A node is a sequence if it holds items. Asking changes nothing.
pub proof fn law_ask_is_sequence<'a, 'doc>(
    node: NodeRef<'doc>,
    step: Step<'a, TestKind, bool>,
    h0: Heap,
    trace: Seq<(Reply, Heap)>,
    result: bool,
    end: Heap,
)
    requires
        h0.has(node.node),
        call_ensures(NodeRef::<'doc>::is_sequence, (&node,), step),
        runs(step, h0, trace, result, end),
    ensures
        end == h0,
        result <==> h0.body(node.node) is Sequence,
{
    law_kind_test(node.node, NodeType::Sequence, h0, trace, result, end);
}

/// Whether a style is the one that libfyaml has under a number.
pub open spec fn is_style(number: i32, style: NodeStyle) -> bool {
    match style {
        NodeStyle::Any => number < 0 || number > 7,
        NodeStyle::Flow => number == 0,
        NodeStyle::Block => number == 1,
        NodeStyle::Plain => number == 2,
        NodeStyle::SingleQuoted => number == 3,
        NodeStyle::DoubleQuoted => number == 4,
        NodeStyle::Literal => number == 5,
        NodeStyle::Folded => number == 6,
        NodeStyle::Alias => number == 7,
    }
}

/// The style of a node goes by the number that libfyaml has for it. Asking changes nothing.
pub proof fn law_ask_style<'a, 'doc>(
    node: NodeRef<'doc>,
    step: Step<'a, AskStyle, NodeStyle>,
    h0: Heap,
    trace: Seq<(Reply, Heap)>,
    result: NodeStyle,
    end: Heap,
)
    requires
        h0.has(node.node),
        call_ensures(NodeRef::<'doc>::style, (&node,), step),
        runs(step, h0, trace, result, end),
    ensures
        end == h0,
        is_style(h0.nodes[node.node].style, result),
{
    let inv = |s: Step<'a, AskStyle, NodeStyle>, h: Heap|
        h == h0 && match s {
            Step::Ask(_, _) => s == step,
            Step::Done(r) => is_style(h0.nodes[node.node].style, r),
        };
    lemma_runs(inv, step, h0, trace, result, end);
}

/// A node is quoted if its style is one of the two quoted ones, single or double. Asking changes
/// nothing.
pub proof fn law_ask_is_quoted<'a, 'doc>(
    node: NodeRef<'doc>,
    step: Step<'a, TestStyle, bool>,
    h0: Heap,
    trace: Seq<(Reply, Heap)>,
    result: bool,
    end: Heap,
)
    requires
        h0.has(node.node),
        call_ensures(NodeRef::<'doc>::is_quoted, (&node,), step),
        runs(step, h0, trace, result, end),
    ensures
        end == h0,
        result <==> h0.nodes[node.node].style == 3 || h0.nodes[node.node].style == 4,
{
    let inv = |s: Step<'a, TestStyle, bool>, h: Heap|
        h == h0 && match s {
            Step::Ask(_, _) => s == step,
            Step::Done(r) => r <==> h0.nodes[node.node].style == 3 || h0.nodes[node.node].style == 4,
        };
    lemma_runs(inv, step, h0, trace, result, end);
}

/// A node is in a style other than plain if it is quoted, single or double, literal or folded. Asking
/// changes nothing.
pub proof fn law_ask_is_non_plain<'a, 'doc>(
    node: NodeRef<'doc>,
    step: Step<'a, TestStyle, bool>,
    h0: Heap,
    trace: Seq<(Reply, Heap)>,
    result: bool,
    end: Heap,
)
    requires
        h0.has(node.node),
        call_ensures(NodeRef::<'doc>::is_non_plain, (&node,), step),
        runs(step, h0, trace, result, end),
    ensures
        end == h0,
        result <==> 3 <= h0.nodes[node.node].style <= 6,
{
    let inv = |s: Step<'a, TestStyle, bool>, h: Heap|
        h == h0 && match s {
            Step::Ask(_, _) => s == step,
            Step::Done(r) => r <==> 3 <= h0.nodes[node.node].style <= 6,
        };
    lemma_runs(inv, step, h0, trace, result, end);
}

/// The length of a sequence is the number of its items; anything else is refused. Asking changes
/// nothing.
pub proof fn law_ask_seq_len<'a, 'doc>(
    node: NodeRef<'doc>,
    step: Step<'a, AskCount, Result<usize, Error>>,
    h0: Heap,
    trace: Seq<(Reply, Heap)>,
    result: Result<usize, Error>,
    end: Heap,
)
    requires
        h0.well_formed(),
        h0.has(node.node),
        call_ensures(NodeRef::<'doc>::seq_len, (&node,), step),
        runs(step, h0, trace, result, end),
    ensures
        end == h0,
        match h0.body(node.node) {
            Body::Sequence(items) => result matches Ok(n) && n == items.len(),
            _ => result == Err::<usize, Error>(
                Error::TypeMismatch { expected: "sequence", got: "non-sequence" },
            ),
        },
{
    law_seq_len(node.node, h0, trace, result, end);
}

/// The length of a mapping is the number of its pairs; anything else is refused. Asking changes
/// nothing.
pub proof fn law_ask_map_len<'a, 'doc>(
    node: NodeRef<'doc>,
    step: Step<'a, AskCount, Result<usize, Error>>,
    h0: Heap,
    trace: Seq<(Reply, Heap)>,
    result: Result<usize, Error>,
    end: Heap,
)
    requires
        h0.has(node.node),
        h0.entries(node.node).len() <= i32::MAX,
        call_ensures(NodeRef::<'doc>::map_len, (&node,), step),
        runs(step, h0, trace, result, end),
    ensures
        end == h0,
        match h0.body(node.node) {
            Body::Mapping(entries) => result matches Ok(n) && n == entries.len(),
            _ => result == Err::<usize, Error>(
                Error::TypeMismatch { expected: "mapping", got: "non-mapping" },
            ),
        },
{
    law_map_len(node.node, h0, trace, result, end);
}

/// The item at an index is counted from the start, or from the end for a negative index; there is none
/// out of bounds, and none in anything but a sequence. Asking changes nothing.
pub proof fn law_ask_seq_get<'a, 'doc>(
    node: NodeRef<'doc>,
    index: i32,
    step: Step<'a, GetChild<'doc, 'a>, Option<NodeRef<'doc>>>,
    h0: Heap,
    trace: Seq<(Reply, Heap)>,
    result: Option<NodeRef<'doc>>,
    end: Heap,
)
    requires
        h0.well_formed(),
        h0.has(node.node),
        call_ensures(NodeRef::<'doc>::seq_get, (&node, index), step),
        runs(step, h0, trace, result, end),
    ensures
        end == h0,
        match h0.body(node.node) {
            Body::Sequence(items) => {
                &&& 0 <= index < items.len() ==> (result matches Some(n) && n.doc == node.doc
                    && n.node == items[index as int])
                &&& -items.len() <= index < 0 ==> (result matches Some(n) && n.doc == node.doc
                    && n.node == items[items.len() + index])
                &&& index < -items.len() || index >= items.len() ==> result is None
            },
            _ => result is None,
        },
{
    law_seq_get(node, index, h0, trace, result, end);
    if let Body::Sequence(items) = h0.body(node.node) {
        if 0 <= index < items.len() {
            h0.lemma_item(node.node, index as int);
        } else if -items.len() <= index < 0 {
            h0.lemma_item(node.node, items.len() + index);
        }
    }
}

/// The value of a key is that of the pair which libfyaml finds for it, if any; in anything but a
/// mapping there is none. Asking changes nothing.
pub proof fn law_ask_map_get<'a, 'doc>(
    node: NodeRef<'doc>,
    key: &'a str,
    step: Step<'a, GetChild<'doc, 'a>, Option<NodeRef<'doc>>>,
    h0: Heap,
    trace: Seq<(Reply, Heap)>,
    result: Option<NodeRef<'doc>>,
    end: Heap,
)
    requires
        h0.well_formed(),
        h0.has(node.node),
        call_ensures(NodeRef::<'doc>::map_get, (&node, key), step),
        runs(step, h0, trace, result, end),
    ensures
        end == h0,
        match h0.body(node.node) {
            Body::Mapping(entries) => {
                &&& !h0.scarce && h0.spot(node.node, key@) < 0 ==> result is None
                &&& !h0.scarce && h0.spot(node.node, key@) >= 0 ==> refers(
                    node.doc,
                    entries[h0.spot(node.node, key@)].value,
                    result,
                )
                &&& h0.plain(key@) ==> refers(node.doc, h0.value(node.node, key@), result)
            },
            _ => result is None,
        },
{
    law_map_get(node, key, h0, trace, result, end);
}

/// A walk over a sequence starts at its first item.
pub proof fn law_ask_seq_iter<'doc>(node: NodeRef<'doc>, iter: SeqIter<'doc>)
    requires
        call_ensures(NodeRef::<'doc>::seq_iter, (&node,), iter),
    ensures
        iter.seq == node,
        iter.last == 0,
{
}

/// The same for a walk that is made of the sequence.
pub proof fn law_new_seq_iter<'doc>(node: NodeRef<'doc>, iter: SeqIter<'doc>)
    requires
        call_ensures(SeqIter::<'doc>::new, (node,), iter),
    ensures
        iter.seq == node,
        iter.last == 0,
{
}

/// A walk over a sequence hands out the items in their order, each once, and then ends. Asking changes
/// nothing.
pub proof fn law_ask_next_item<'a, 'doc>(
    iter: SeqIter<'doc>,
    i: int,
    step: Step<'a, NextItem<'doc>, (SeqIter<'doc>, Option<NodeRef<'doc>>)>,
    h0: Heap,
    trace: Seq<(Reply, Heap)>,
    result: (SeqIter<'doc>, Option<NodeRef<'doc>>),
    end: Heap,
)
    requires
        h0.well_formed(),
        h0.has(iter.seq.node),
        0 <= i <= h0.items(iter.seq.node).len(),
        i == 0 ==> iter.last == 0,
        i > 0 ==> iter.last == h0.items(iter.seq.node)[i - 1],
        call_ensures(SeqIter::<'doc>::next, (iter,), step),
        runs(step, h0, trace, result, end),
    ensures
        end == h0,
        result.0.seq == iter.seq,
        i < h0.items(iter.seq.node).len() ==> {
            &&& result.1 matches Some(n) && n.doc == iter.seq.doc && n.node == h0.items(
                iter.seq.node,
            )[i]
            &&& result.0.last == h0.items(iter.seq.node)[i]
        },
        i == h0.items(iter.seq.node).len() ==> result.1 is None && result.0.last == 0,
{
    law_seq_iter(iter.seq, i, iter, h0, trace, result, end);
}

/// A walk over a mapping starts at its first pair.
pub proof fn law_ask_map_iter<'doc>(node: NodeRef<'doc>, iter: MapIter<'doc>)
    requires
        call_ensures(NodeRef::<'doc>::map_iter, (&node,), iter),
    ensures
        iter.map == node,
        iter.last == 0,
{
}

/// The same for a walk that is made of the mapping.
pub proof fn law_new_map_iter<'doc>(node: NodeRef<'doc>, iter: MapIter<'doc>)
    requires
        call_ensures(MapIter::<'doc>::new, (node,), iter),
    ensures
        iter.map == node,
        iter.last == 0,
{
}

/// A walk over a mapping hands out the pairs in their order, each once, and then ends. Asking changes
/// nothing.
pub proof fn law_ask_next_pair<'a, 'doc>(
    iter: MapIter<'doc>,
    i: int,
    step: Step<'a, NextPair<'doc>, (MapIter<'doc>, Option<(NodeRef<'doc>, NodeRef<'doc>)>)>,
    h0: Heap,
    trace: Seq<(Reply, Heap)>,
    result: (MapIter<'doc>, Option<(NodeRef<'doc>, NodeRef<'doc>)>),
    end: Heap,
)
    requires
        h0.well_formed(),
        h0.has(iter.map.node),
        0 <= i <= h0.entries(iter.map.node).len(),
        i == 0 ==> iter.last == 0,
        i > 0 ==> iter.last == h0.entries(iter.map.node)[i - 1].pair,
        call_ensures(MapIter::<'doc>::next, (iter,), step),
        runs(step, h0, trace, result, end),
    ensures
        end == h0,
        result.0.map == iter.map,
        i < h0.entries(iter.map.node).len() ==> {
            let e = h0.entries(iter.map.node)[i];
            &&& result.1 matches Some((key, value)) && key.doc == iter.map.doc && key.node == e.key
                && value.doc == iter.map.doc && value.node == e.value
            &&& result.0.last == e.pair
        },
        i == h0.entries(iter.map.node).len() ==> result.1 is None && result.0.last == 0,
{
    law_map_iter(iter.map, i, iter, h0, trace, result, end);
}

/// Whether none of the pairs from the `i`-th up to, and without, the `j`-th has both a key and a value.
pub open spec fn passed_over(w: Rack, i: int, j: int) -> bool {
    forall|k: int| i <= k < j ==> !#[trigger] w.whole(k)
}

/// Whether a walk that has come to the pair at `last`, or to none yet, has passed over all before the
/// next.
spec fn goes_on(w: Rack, i: int, last: usize) -> bool {
    if last == 0 {
        i == 0
    } else {
        w.pairs.contains(last) && i <= w.pairs.index_of(last) + 1 && passed_over(
            w,
            i,
            w.pairs.index_of(last) + 1,
        )
    }
}

/// Whether a walk stands at a pair, and has passed over all before it.
spec fn stands_at(w: Rack, i: int, pair: usize) -> bool {
    w.pairs.contains(pair) && i <= w.pairs.index_of(pair) && passed_over(
        w,
        i,
        w.pairs.index_of(pair),
    )
}

/// What a walk over a mapping gives once it has come as far as the `i`-th pair: the first from there on
/// that has both a key and a value, if there is one.
pub open spec fn next_whole<'doc>(
    w: Rack,
    i: int,
    map: NodeRef<'doc>,
    result: (MapIter<'doc>, Option<(NodeRef<'doc>, NodeRef<'doc>)>),
) -> bool {
    let last = result.0.last;
    let j = w.pairs.index_of(last);
    &&& result.0.map == map
    &&& match result.1 {
        Some((key, value)) => {
            &&& w.pairs.contains(last)
            &&& i <= j
            &&& passed_over(w, i, j)
            &&& w.whole(j)
            &&& key.doc == map.doc
            &&& key.node == (w.keys)(last)
            &&& value.doc == map.doc
            &&& value.node == (w.values)(last)
        },
        None => passed_over(w, i, w.pairs.len() as int) && last == 0,
    }
}

/// How far a walk to the next pair has got.
spec fn walking<'a, 'doc>(
    w: Rack,
    i: int,
    map0: NodeRef<'doc>,
    step: Step<'a, NextPair<'doc>, (MapIter<'doc>, Option<(NodeRef<'doc>, NodeRef<'doc>)>)>,
) -> bool {
    match step {
        Step::Ask(NextPair::Stepping { map }, call) => {
            &&& map == map0
            &&& call matches Call::MappingIterate { map: m, last }
            &&& m == w.map
            &&& goes_on(w, i, last)
        },
        Step::Ask(NextPair::Keying { map, pair }, call) => {
            &&& map == map0
            &&& call == Call::PairKey { pair }
            &&& stands_at(w, i, pair)
        },
        Step::Ask(NextPair::Valuing { map, pair, key }, call) => {
            &&& map == map0
            &&& call == Call::PairValue { pair }
            &&& key == (w.keys)(pair)
            &&& key != 0
            &&& stands_at(w, i, pair)
        },
        Step::Done(r) => next_whole(w, i, map0, r),
    }
}

/// What comes after a place in a list of different addresses is what stands next to it.
proof fn lemma_next_after(list: Seq<usize>, last: usize)
    requires
        list.no_duplicates(),
        !list.contains(0),
        last == 0 || list.contains(last),
    ensures
        ({
            let next = next_after(list, last);
            let j = if last == 0 {
                0
            } else {
                list.index_of(last) + 1
            };
            &&& next == 0 <==> j == list.len()
            &&& next != 0 ==> list.contains(next) && list.index_of(next) == j
        }),
{
    let j = if last == 0 {
        0
    } else {
        list.index_of(last) + 1
    };
    if last != 0 {
        assert(list[list.index_of(last)] == last);
    }
    if j < list.len() {
        assert(list.contains(list[j]));
        assert(list[list.index_of(list[j])] == list[j]);
    }
}

/// A walk over a mapping passes over pairs that lack a key or a value.
pub proof fn law_ask_whole_pairs<'a, 'doc>(
    iter: MapIter<'doc>,
    i: int,
    step: Step<'a, NextPair<'doc>, (MapIter<'doc>, Option<(NodeRef<'doc>, NodeRef<'doc>)>)>,
    w: Rack,
    trace: Seq<(Reply, Rack)>,
    result: (MapIter<'doc>, Option<(NodeRef<'doc>, NodeRef<'doc>)>),
    end: Rack,
)
    requires
        w.well_formed(),
        w.map == iter.map.node,
        0 <= i <= w.pairs.len(),
        i == 0 ==> iter.last == 0,
        i > 0 ==> iter.last == w.pairs[i - 1],
        call_ensures(MapIter::<'doc>::next, (iter,), step),
        runs(step, w, trace, result, end),
    ensures
        end == w,
        next_whole(w, i, iter.map, result),
{
    let inv = |
        s: Step<'a, NextPair<'doc>, (MapIter<'doc>, Option<(NodeRef<'doc>, NodeRef<'doc>)>)>,
        v: Rack,
    |
        v == w && walking(w, i, iter.map, s);
    if i > 0 {
        assert(w.pairs.contains(w.pairs[i - 1]));
        assert(w.pairs[w.pairs.index_of(iter.last)] == iter.last);
    }
    assert forall|s: NextPair<'doc>, call: Call<'a>, before: Rack, reply: Reply, after: Rack|
        inv(Step::Ask(s, call), before) && #[trigger] before.performs(call, reply, after) implies inv(
        #[trigger] s.resumed(reply),
        after,
    ) by {
        match s {
            NextPair::Stepping { .. } => {
                if let Call::MappingIterate { last, .. } = call {
                    lemma_next_after(w.pairs, last);
                }
            },
            NextPair::Keying { pair, .. } => {
                assert(w.pairs[w.pairs.index_of(pair)] == pair);
            },
            NextPair::Valuing { pair, .. } => {
                assert(w.pairs[w.pairs.index_of(pair)] == pair);
            },
        }
    }
    lemma_runs(inv, step, w, trace, result, end);
}

/// The root of a document, if it has one. Asking changes nothing.
pub proof fn law_ask_root<'a, 'doc>(
    doc: &'doc Document,
    step: Step<'a, Lookup<'doc>, Option<NodeRef<'doc>>>,
    h0: Heap,
    trace: Seq<(Reply, Heap)>,
    result: Option<NodeRef<'doc>>,
    end: Heap,
)
    requires
        call_ensures(Document::root, (doc,), step),
        runs(step, h0, trace, result, end),
    ensures
        end == h0,
        refers(doc, h0.root, result),
{
    let inv = |s: Step<'a, Lookup<'doc>, Option<NodeRef<'doc>>>, h: Heap|
        h == h0 && match s {
            Step::Ask(_, _) => s == step,
            Step::Done(r) => refers(doc, h0.root, r),
        };
    lemma_runs(inv, step, h0, trace, result, end);
}

/// The root of a document as a typed value, if there is one. Asking changes nothing.
pub proof fn law_ask_root_value<'a, 'doc>(
    doc: &'doc Document,
    step: Step<'a, LookupValue<'doc>, Option<ValueRef<'doc>>>,
    h0: Heap,
    trace: Seq<(Reply, Heap)>,
    result: Option<ValueRef<'doc>>,
    end: Heap,
)
    requires
        call_ensures(Document::root_value, (doc,), step),
        runs(step, h0, trace, result, end),
    ensures
        end == h0,
        match result {
            Some(v) => h0.root != 0 && v.node.doc == doc && v.node.node == h0.root,
            None => h0.root == 0,
        },
{
    let inv = |s: Step<'a, LookupValue<'doc>, Option<ValueRef<'doc>>>, h: Heap|
        h == h0 && match s {
            Step::Ask(_, _) => s == step,
            Step::Done(r) => match r {
                Some(v) => h0.root != 0 && v.node.doc == doc && v.node.node == h0.root,
                None => h0.root == 0,
            },
        };
    lemma_runs(inv, step, h0, trace, result, end);
}

/// What a path from the root of a document leads to. In a document without a root that is nothing.
/// Asking changes nothing.
pub proof fn law_ask_at_path<'a, 'doc>(
    doc: &'doc Document,
    path: &'a str,
    step: Step<'a, LookupAt<'doc, 'a>, Option<NodeRef<'doc>>>,
    h0: Heap,
    trace: Seq<(Reply, Heap)>,
    result: Option<NodeRef<'doc>>,
    end: Heap,
)
    requires
        h0.well_formed(),
        call_ensures(Document::at_path, (doc, path), step),
        runs(step, h0, trace, result, end),
    ensures
        end == h0,
        h0.root == 0 ==> result is None,
        h0.root != 0 && h0.sure(path@) ==> refers(doc, h0.place(path@), result),
{
    law_at_path(doc, path, h0, trace, result, end);
}

/// Where a path from the root of a document leads; a document without a root and a path that leads
/// nowhere are refused. Asking changes nothing.
pub proof fn law_ask_find<'a>(
    doc: usize,
    path: &'a str,
    missing: &'static str,
    step: Step<'a, FindNode<'a>, Result<usize, Error>>,
    h0: Heap,
    trace: Seq<(Reply, Heap)>,
    result: Result<usize, Error>,
    end: Heap,
)
    requires
        h0.well_formed(),
        call_ensures(FindNode::<'a>::start, (doc, path, missing), step),
        runs(step, h0, trace, result, end),
    ensures
        end == h0,
        h0.root == 0 ==> result == Err::<usize, Error>(Error::Ffi("document has no root")),
        h0.root != 0 && h0.sure(path@) && h0.place(path@) != 0 ==> result == Ok::<usize, Error>(
            h0.place(path@),
        ),
        h0.root != 0 && h0.sure(path@) && h0.place(path@) == 0 ==> result == Err::<usize, Error>(
            Error::Ffi(missing),
        ),
{
    let fits = |r: Result<usize, Error>|
        {
            &&& h0.root == 0 ==> r == Err::<usize, Error>(Error::Ffi("document has no root"))
            &&& h0.root != 0 && h0.sure(path@) && h0.place(path@) != 0 ==> r == Ok::<usize, Error>(
                h0.place(path@),
            )
            &&& h0.root != 0 && h0.sure(path@) && h0.place(path@) == 0 ==> r == Err::<usize, Error>(
                Error::Ffi(missing),
            )
        };
    if path@.len() == 0 {
        assert(segments(path@) == Seq::<Seq<char>>::empty());
    }
    let inv = |s: Step<'a, FindNode<'a>, Result<usize, Error>>, h: Heap|
        h == h0 && match s {
            Step::Ask(FindNode::Rooting { .. }, _) => s == step,
            Step::Ask(FindNode::Walking { missing: m }, call) => m == missing && h0.root != 0
                && call == (Call::NodeByPath { node: h0.root, path }),
            Step::Done(r) => fits(r),
        };
    lemma_runs(inv, step, h0, trace, result, end);
}

/// What a path from a node leads to; the empty path leads to the node itself. Asking changes nothing.
pub proof fn law_ask_node_at_path<'a, 'doc>(
    node: NodeRef<'doc>,
    path: &'a str,
    step: Step<'a, Lookup<'doc>, Option<NodeRef<'doc>>>,
    h0: Heap,
    trace: Seq<(Reply, Heap)>,
    result: Option<NodeRef<'doc>>,
    end: Heap,
)
    requires
        h0.well_formed(),
        h0.has(node.node),
        call_ensures(NodeRef::<'doc>::at_path, (&node, path), step),
        runs(step, h0, trace, result, end),
    ensures
        end == h0,
        !h0.scarce ==> refers(node.doc, h0.lead(node.node, path@), result),
        path@.len() == 0 ==> (result matches Some(n) && n.doc == node.doc && n.node == node.node),
{
    law_node_at_path(node, path, h0, trace, result, end);
}

/// The bytes of a scalar. Asking changes nothing.
pub proof fn law_ask_scalar_bytes<'a, 'doc>(
    node: NodeRef<'doc>,
    step: Step<'a, AskScalar, Result<Span, Error>>,
    w: Snapshot,
    trace: Seq<(Reply, Snapshot)>,
    result: Result<Span, Error>,
    end: Snapshot,
)
    requires
        w.heap.has(node.node),
        call_ensures(NodeRef::<'doc>::scalar_bytes, (&node,), step),
        runs(step, w, trace, result, end),
    ensures
        end == w,
        scalar_read(w, node.node, result),
{
    law_scalar_bytes(node.node, w, trace, result, end);
}

/// The bytes of a tag, if the node has one. Asking changes nothing.
pub proof fn law_ask_tag_bytes<'a, 'doc>(
    node: NodeRef<'doc>,
    step: Step<'a, AskTag, Result<Option<Span>, Error>>,
    w: Snapshot,
    trace: Seq<(Reply, Snapshot)>,
    result: Result<Option<Span>, Error>,
    end: Snapshot,
)
    requires
        w.heap.has(node.node),
        call_ensures(NodeRef::<'doc>::tag_bytes, (&node,), step),
        runs(step, w, trace, result, end),
    ensures
        end == w,
        tag_read(w, node.node, result),
{
    law_tag_bytes(node.node, w, trace, result, end);
}

} // verus!
