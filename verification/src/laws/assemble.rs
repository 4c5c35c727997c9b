//! What putting detached nodes together, and into the tree, achieves.

use vstd::prelude::*;
use vstd::utf8::encode_utf8;

use crate::assemble::{Attach, MapInsert, SeqAppendAt};
use crate::call::{Call, Reply, Session, Step};
use crate::error::Error;
use crate::find::FindNode;
use crate::handle::RawNodeHandle;
use crate::laws::set_yaml::{lemma_holds_look, lemma_root_holds};
use crate::laws::snippet::law_build_from_yaml;
use crate::model::heap::{is_bare, kids, segments, whole_look, Body, Entry, Heap};
use crate::model::shape::lemma_kids_of_mapping;
use crate::model::world::{lemma_runs, runs, World};
use crate::node::FYNS_ALIAS;
use crate::snippet::BuildFromYaml;

verus! {

/// Making a detached node the root succeeds, and frees the tree that was there. What becomes the root
/// looks as it did.
pub proof fn law_set_root<'a>(
    doc: usize,
    node: RawNodeHandle,
    h0: Heap,
    trace: Seq<(Reply, Heap)>,
    result: Result<(), Error>,
    end: Heap,
)
    requires
        h0.well_formed(),
        h0.loose(node.node),
        !node.inserted,
        runs(Attach::rooting(doc, node), h0, trace, result, end),
    ensures
        result is Ok,
        end == h0.with_root(node.node),
        end.has(node.node),
        whole_look(end.nodes, end.root) == whole_look(h0.nodes, node.node),
        end.well_formed(),
{
    let inv = |step: Step<'a, Attach, Result<(), Error>>, h: Heap|
        match step {
            Step::Ask(Attach::Asking { node: n, .. }, call) => n == node && h == h0 && call
                == Call::DocumentSetRoot { doc, node: node.node },
            Step::Ask(_, _) => false,
            Step::Done(r) => r == Ok::<(), Error>(()) && h == h0.with_root(node.node),
        };
    lemma_runs(inv, Attach::rooting(doc, node), h0, trace, result, end);
    h0.lemma_with_root_shape(node.node);
    lemma_root_holds(h0, node.node);
    lemma_holds_look(h0, node.node, end);
}

/// A document whose root was built from a snippet looks as libfyaml reads the snippet.
pub proof fn law_built_root_reads<'a>(
    doc: usize,
    yaml: &'a str,
    node: RawNodeHandle,
    h0: Heap,
    making: Seq<(Reply, Heap)>,
    h1: Heap,
    setting: Seq<(Reply, Heap)>,
    result: Result<(), Error>,
    end: Heap,
)
    requires
        h0.well_formed(),
        encode_utf8(yaml@).len() <= usize::MAX,
        runs(BuildFromYaml::started(doc, yaml), h0, making, Ok(node), h1),
        runs(Attach::rooting(doc, node), h1, setting, result, end),
    ensures
        result is Ok,
        end.root == node.node,
        (h0.snippets)(encode_utf8(yaml@)) == Some(whole_look(end.nodes, end.root)),
{
    law_build_from_yaml(doc, yaml, h0, making, Ok(node), h1);
    law_set_root(doc, node, h1, setting, result, end);
}

/// What appending to the node at `seq` leaves behind: the item at the end of the sequence; or, on an
/// error, everything but the item, which is freed.
pub open spec fn appended(
    h0: Heap,
    seq: usize,
    item: usize,
    result: Result<(), Error>,
    h: Heap,
) -> bool {
    match result {
        Ok(_) => h0.is_sequence(seq) && h == h0.with_item(seq, h0.items(seq).len() as int, item),
        Err(_) => h == h0.without(item),
    }
}

/// Appending to a sequence succeeds, and the item looks as it did; appending to anything else fails, and
/// frees the item.
pub proof fn law_seq_append<'a>(
    seq: usize,
    item: RawNodeHandle,
    h0: Heap,
    trace: Seq<(Reply, Heap)>,
    result: Result<(), Error>,
    end: Heap,
)
    requires
        h0.well_formed(),
        h0.has(seq),
        h0.loose(item.node),
        !item.inserted,
        runs(Attach::appending(seq, item), h0, trace, result, end),
    ensures
        result is Ok <==> h0.is_sequence(seq),
        result matches Err(e) ==> e == Error::Ffi("fy_node_sequence_append failed"),
        appended(h0, seq, item.node, result, end),
        result is Ok ==> end.items(seq) == h0.items(seq).push(item.node),
        result is Ok && !h0.below(item.node, seq) ==> whole_look(end.nodes, item.node)
            == whole_look(h0.nodes, item.node),
        result is Err ==> end.well_formed(),
        result is Ok && !h0.below(item.node, seq) && h0.items(seq).len() < i32::MAX
            ==> end.well_formed(),
{
    let inv = |step: Step<'a, Attach, Result<(), Error>>, h: Heap|
        match step {
            Step::Ask(Attach::Asking { node, message }, call) => node == item && h == h0 && call
                == (Call::SequenceAppend { seq, item: item.node }) && message
                == "fy_node_sequence_append failed",
            Step::Ask(Attach::Failing { error }, call) => !h0.is_sequence(seq) && h == h0 && call
                == (Call::NodeFree { node: item.node }) && error == Error::Ffi(
                "fy_node_sequence_append failed",
            ),
            Step::Done(r) => (r matches Err(e) ==> e == Error::Ffi(
                "fy_node_sequence_append failed",
            )) && (r is Ok <==> h0.is_sequence(seq)) && appended(
                h0,
                seq,
                item.node,
                r,
                h,
            ),
        };
    lemma_runs(inv, Attach::appending(seq, item), h0, trace, result, end);
    if result is Err {
        h0.lemma_without_shape(item.node);
    } else if !h0.below(item.node, seq) {
        h0.lemma_same_look(end, item.node);
        if h0.items(seq).len() < i32::MAX {
            h0.lemma_with_item_shape(seq, h0.items(seq).len() as int, item.node);
        }
    }
}

/// What an insertion into the node at `map` leaves behind: a new last pair; or, on an error,
/// everything but the key and the value, which are freed.
pub open spec fn inserted(
    h0: Heap,
    map: usize,
    key: usize,
    value: usize,
    result: Result<(), Error>,
    h: Heap,
) -> bool {
    match result {
        Ok(_) => h0.is_mapping(map) && exists|pair: usize|
            fresh_pair(h0, pair) && h == #[trigger] h0.with_entry(
                map,
                Entry { pair, key, value },
            ),
        Err(_) => h == h0.without(value).without(key),
    }
}

/// Whether no pair has the address `pair` yet.
pub open spec fn fresh_pair(h: Heap, pair: usize) -> bool {
    pair != 0 && !(exists|p: usize, i: int| h.pair_at(pair, p, i))
}

/// An insertion adds one pair at the end of the mapping, or frees both the key and the value and
/// changes nothing else. Key and value look as they did. A mapping that has the key already refuses
/// it; unless memory runs out, a mapping takes any other text as a key.
pub proof fn law_map_insert<'a>(
    map: usize,
    key: RawNodeHandle,
    value: RawNodeHandle,
    h0: Heap,
    trace: Seq<(Reply, Heap)>,
    result: Result<(), Error>,
    end: Heap,
)
    requires
        h0.well_formed(),
        h0.has(map),
        h0.loose(key.node),
        h0.loose(value.node),
        key.node != value.node,
        !key.inserted,
        !value.inserted,
        runs(MapInsert::started(map, key, value), h0, trace, result, end),
    ensures
        result is Ok ==> h0.is_mapping(map),
        result matches Err(e) ==> e == Error::Ffi("fy_node_mapping_append failed"),
        inserted(h0, map, key.node, value.node, result, end),
        h0.holds_key(map, key.node) && !h0.scarce ==> result is Err,
        h0.is_mapping(map) && h0.is_text(key.node) && !h0.holds_key(map, key.node) && !h0.scarce
            ==> result is Ok,
        result is Err ==> end.well_formed(),
        result is Ok && !h0.below(key.node, map) && !h0.below(value.node, map) ==> {
            &&& end.well_formed()
            &&& whole_look(end.nodes, key.node) == whole_look(h0.nodes, key.node)
            &&& whole_look(end.nodes, value.node) == whole_look(h0.nodes, value.node)
        },
{
    let k = key.node;
    let v = value.node;
    if h0.below(v, k) {
        let q = h0.lemma_below_container(v, k);
    }
    h0.lemma_without_shape(v);
    let refused = h0.holds_key(map, k) && !h0.scarce;
    let owed = h0.takes_pair(map, k, v) && !h0.scarce;
    let inv = |step: Step<'a, MapInsert, Result<(), Error>>, h: Heap|
        match step {
            Step::Ask(MapInsert::Appending { key: a, value: b }, call) => a == key && b == value
                && h == h0 && call == Call::MappingAppend { map, key: k, value: v },
            Step::Ask(MapInsert::FreeingValue { key: a }, call) => !owed && a == key && h == h0
                && call == Call::NodeFree { node: v },
            Step::Ask(MapInsert::FreeingKey, call) => !owed && h == h0.without(v) && call
                == Call::NodeFree { node: k },
            Step::Done(r) => (r matches Err(e) ==> e == Error::Ffi("fy_node_mapping_append failed"))
                && inserted(h0, map, k, v, r, h) && (refused ==> r is Err) && (owed
                ==> r is Ok),
        };
    lemma_runs(inv, MapInsert::started(map, key, value), h0, trace, result, end);
    if result is Err {
        h0.without(v).lemma_without_shape(k);
    } else if !h0.below(k, map) && !h0.below(v, map) {
        let pair = choose|pair: usize|
            fresh_pair(h0, pair) && end == #[trigger] h0.with_entry(
                map,
                Entry { pair, key: k, value: v },
            );
        h0.lemma_with_entry_shape(map, Entry { pair, key: k, value: v });
        h0.lemma_same_look(end, k);
        h0.lemma_same_look(end, v);
    }
}

/// A value that was inserted under a new key is what the key stands for afterwards.
pub proof fn law_inserted_reads(
    h0: Heap,
    map: usize,
    key: usize,
    text: Seq<char>,
    value: usize,
    h: Heap,
)
    requires
        h0.well_formed(),
        h0.loose(key),
        h0.loose(value),
        key != map,
        value != map,
        key != value,
        h0.body(key) == Body::Scalar(text),
        h0.nodes[key].style != FYNS_ALIAS,
        h0.find(map, text) == h0.entries(map).len(),
        inserted(h0, map, key, value, Ok(()), h),
    ensures
        h.value(map, text) == value,
        h0.plain(text) && is_bare(text) ==> h.step(map, text) == value,
{
    let entries = h0.entries(map);
    let pair = choose|pair: usize|
        fresh_pair(h0, pair) && h == #[trigger] h0.with_entry(map, Entry { pair, key, value });
    let changed = entries.push(Entry { pair, key, value });
    assert(h.body(map) == Body::Mapping(changed));
    h0.lemma_find_passed(entries, text, 0);
    lemma_kids_of_mapping(entries);
    assert forall|j: int| 0 <= j < entries.len() implies !h.named(#[trigger] changed[j], text) by {
        let k = entries[j].key;
        assert(changed[j] == entries[j]);
        assert(kids(h0.body(map))[j] == k);
        assert(h0.kid(map, k));
        assert(!h0.named(entries[j], text));
        h0.lemma_not_below_kid(map, k);
    }
    assert(h.named(changed[entries.len() as int], text));
    h.lemma_find_at(changed, text, 0, entries.len());
}

/// What appending at a path leaves behind: the item at the end of the sequence that the path leads
/// to; or, on an error, everything but the item, which is freed.
pub open spec fn appended_at(
    h0: Heap,
    path: Seq<char>,
    item: usize,
    result: Result<(), Error>,
    h: Heap,
) -> bool {
    match result {
        Ok(_) => exists|p: usize| #[trigger]
            h0.found(path, p) && appended(h0, p, item, Ok(()), h),
        Err(_) => h == h0.without(item),
    }
}

/// What becomes of appending at a path, as far as the document decides it alone. Where memory is scarce
/// it is left open for a path that is not made of plain steps.
pub open spec fn append_fate(h: Heap, path: Seq<char>) -> Option<Result<(), Error>> {
    let p = h.place(path);
    if h.root == 0 {
        Some(Err(Error::Ffi("document has no root")))
    } else if !h.sure(path) {
        None
    } else if p == 0 {
        Some(Err(Error::Ffi("path not found")))
    } else if h.body(p) is Sequence {
        Some(Ok(()))
    } else {
        Some(Err(Error::TypeMismatch { expected: "sequence", got: "non-sequence" }))
    }
}

/// Whether `result` is what the document has decided.
spec fn fits(h: Heap, path: Seq<char>, result: Result<(), Error>) -> bool {
    append_fate(h, path) matches Some(r) ==> r == result
}

/// How far an append at a path has got.
spec fn appending_at<'a>(
    h0: Heap,
    path: Seq<char>,
    item0: RawNodeHandle,
    step: Step<'a, SeqAppendAt<'a>, Result<(), Error>>,
    h: Heap,
) -> bool {
    match step {
        Step::Done(result) => appended_at(h0, path, item0.node, result, h) && fits(
            h0,
            path,
            result,
        ),
        Step::Ask(s, call) => h == h0 && match s {
            SeqAppendAt::Finding { item, find } => item == item0 && match find {
                FindNode::Rooting { path: rest, missing } => rest@ == path && missing
                    == "path not found" && call is DocumentRoot,
                FindNode::Walking { missing } => {
                    &&& call matches Call::NodeByPath { node: root, path: rest }
                    &&& root == h.root
                    &&& root != 0
                    &&& rest@ == path
                    &&& path.len() > 0
                    &&& missing == "path not found"
                },
            },
            SeqAppendAt::Typing { item, seq } => item == item0 && h0.found(path, seq) && call
                == Call::NodeGetType { node: seq },
            SeqAppendAt::Appending { attach } => match attach {
                Attach::Asking { node, .. } => node == item0 && (call matches Call::SequenceAppend {
                    seq,
                    item,
                } && item == item0.node && h0.found(path, seq) && h0.is_sequence(seq)),
                Attach::Failing { .. } => false,
            },
            SeqAppendAt::Failing { error } => call == Call::NodeFree { node: item0.node } && fits(
                h0,
                path,
                Err(error),
            ),
        },
    }
}

proof fn lemma_appending_at<'a>(
    h0: Heap,
    path: Seq<char>,
    item: RawNodeHandle,
    s: SeqAppendAt<'a>,
    call: Call<'a>,
    h: Heap,
    reply: Reply,
    after: Heap,
)
    requires
        h0.well_formed(),
        h0.loose(item.node),
        !item.inserted,
        appending_at(h0, path, item, Step::Ask(s, call), h),
        h.performs(call, reply, after),
    ensures
        appending_at(h0, path, item, s.resumed(reply), after),
{
    match s {
        SeqAppendAt::Finding { find, .. } => {
            match find {
                FindNode::Rooting { path: rest, .. } => {
                    if h.root != 0 && rest@.len() == 0 {
                        assert(segments(path) == Seq::<Seq<char>>::empty());
                        h.lemma_below_self(h.root);
                        assert(h0.found(path, h.root));
                    }
                },
                FindNode::Walking { .. } => {
                    let p = reply.pointer_spec();
                    if p != 0 {
                        assert(h0.found(path, p));
                    }
                },
            }
        },
        SeqAppendAt::Typing { .. } => {},
        SeqAppendAt::Appending { attach } => {
            if let Call::SequenceAppend { seq, .. } = call {
                assert(h0.found(path, seq) && appended(h0, seq, item.node, Ok(()), after));
            }
        },
        _ => {},
    }
}

/// Appending at a path that leads to a sequence succeeds; a document without a root, a
/// path that leads nowhere and a node that is no sequence are refused, each with its own error. What
/// was appended looks as it did. An append that fails frees the item and changes nothing else.
pub proof fn law_seq_append_at<'a>(
    doc: usize,
    path: &'a str,
    item: RawNodeHandle,
    h0: Heap,
    trace: Seq<(Reply, Heap)>,
    result: Result<(), Error>,
    end: Heap,
)
    requires
        h0.well_formed(),
        h0.loose(item.node),
        !item.inserted,
        runs(SeqAppendAt::started(doc, path, item), h0, trace, result, end),
    ensures
        appended_at(h0, path@, item.node, result, end),
        append_fate(h0, path@) matches Some(r) ==> r == result,
        result is Ok ==> whole_look(end.nodes, item.node) == whole_look(h0.nodes, item.node),
        result is Err ==> end.well_formed(),
        result is Ok && (forall|p: usize| #[trigger]
            h0.is_sequence(p) ==> h0.items(p).len() < i32::MAX) ==> end.well_formed(),
{
    let inv = |step: Step<'a, SeqAppendAt<'a>, Result<(), Error>>, h: Heap|
        appending_at(h0, path@, item, step, h);
    assert forall|s: SeqAppendAt<'a>, call: Call<'a>, before: Heap, reply: Reply, after: Heap|
        inv(Step::Ask(s, call), before) && #[trigger] before.performs(call, reply, after) implies inv(
        #[trigger] s.resumed(reply),
        after,
    ) by {
        lemma_appending_at(h0, path@, item, s, call, before, reply, after);
    }
    lemma_runs(inv, SeqAppendAt::started(doc, path, item), h0, trace, result, end);
    if result is Err {
        h0.lemma_without_shape(item.node);
    } else {
        let p = choose|p: usize| #[trigger]
            h0.found(path@, p) && appended(h0, p, item.node, Ok(()), end);
        h0.lemma_loose_apart(item.node, p);
        h0.lemma_same_look(end, item.node);
        if h0.items(p).len() < i32::MAX {
            h0.lemma_with_item_shape(p, h0.items(p).len() as int, item.node);
        }
    }
}

} // verus!
