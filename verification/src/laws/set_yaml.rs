//! What setting the value at a path achieves.

use vstd::prelude::*;
use vstd::utf8::encode_utf8;

use crate::assemble::Attach;
use crate::call::{Call, Reply, Session, Step};
use crate::error::Error;
use crate::find::FindNode;
use crate::handle::RawNodeHandle;
use crate::laws::snippet::{is_fault, law_build_from_yaml};
use crate::model::heap::{is_bare, item_at, kids, segments, whole_look, Body, Entry, Heap};
use crate::model::shape::lemma_kids_of_mapping;
use crate::path::{is_index, is_root_path, key_part, parent_part, signed_value};
use crate::set_yaml::{built, resolve_index_spec, SetYamlAt, Target};
use crate::snippet::BuildFromYaml;
use crate::model::world::{lemma_runs, runs, World};

verus! {

/// Whether the `i`-th pair of the mapping at `p` is the one that libfyaml finds for `key`: the first
/// of those whose keys it takes for the same. For a plain name that is the first pair whose key is
/// that scalar.
pub open spec fn is_pair_for(h: Heap, p: usize, key: Seq<char>, i: int) -> bool {
    &&& h.is_mapping(p)
    &&& 0 <= i < h.entries(p).len()
    &&& h.first_of_kind(p, i)
    &&& !h.scarce ==> i == h.spot(p, key)
    &&& h.plain(key) ==> i == h.find(p, key)
}

/// Whether `h` is `h1` with the detached tree at `node` put under the node at `p`, for `key`:
/// in place of the value that the key had in a mapping; as the value of a new last pair, whose key
/// is that scalar; or in place of the item that the index selects in a sequence. What it takes the
/// place of is freed.
pub open spec fn put_under(h1: Heap, p: usize, key: Seq<char>, node: usize, h: Heap) -> bool {
    ||| value_replaced(h1, p, key, node, h)
    ||| pair_added(h1, p, key, node, h)
    ||| item_replaced(h1, p, key, node, h)
}

/// Whether `h` is `h1` with `node` in place of the value that `key` had.
pub open spec fn value_replaced(h1: Heap, p: usize, key: Seq<char>, node: usize, h: Heap) -> bool {
    exists|i: int| #[trigger] is_pair_for(h1, p, key, i) && h == h1.with_value(p, i, node)
}

/// Whether `h` is `h1` with a new last pair from `key` to `node`.
pub open spec fn pair_added(h1: Heap, p: usize, key: Seq<char>, node: usize, h: Heap) -> bool {
    &&& h1.is_mapping(p)
    &&& !h1.scarce ==> h1.spot(p, key) < 0
    &&& h1.plain(key) ==> h1.find(p, key) == h1.entries(p).len()
    &&& exists|h2: Heap, e: Entry|
        {
            &&& #[trigger] scalar_made(h1, e.key, key, h2)
            &&& e.value == node
            &&& e.pair != 0
            &&& !(exists|q: usize, i: int| h2.pair_at(e.pair, q, i))
            &&& h == #[trigger] h2.with_entry(p, e)
        }
}

/// Whether `h2` is `h1` with one more detached node, the scalar `text`.
pub open spec fn scalar_made(h1: Heap, node: usize, text: Seq<char>, h2: Heap) -> bool {
    &&& h1.grown(node, h2)
    &&& h2.body(node) == Body::Scalar(text)
    &&& h2.nodes[node].style != crate::node::FYNS_ALIAS
}

/// The position that an index selects among `n` items: counted from the end when it is negative.
pub open spec fn counted(index: int, n: nat) -> int {
    if index < 0 {
        n + index
    } else {
        index
    }
}

/// Whether `h` is `h1` with `node` in place of the item at the index `key`.
pub open spec fn item_replaced(h1: Heap, p: usize, key: Seq<char>, node: usize, h: Heap) -> bool {
    &&& h1.is_sequence(p)
    &&& is_index(key)
    &&& -h1.items(p).len() <= signed_value(key) < h1.items(p).len()
    &&& h == h1.with_item_replaced(p, counted(signed_value(key), h1.items(p).len()), node)
}

/// Whether `h` is `h1` with the detached tree at `node` put at the target.
pub open spec fn put_at(h1: Heap, target: Target, node: usize, h: Heap) -> bool {
    match target {
        Target::Root => h == h1.with_root(node),
        Target::Child { parent, key } => exists|p: usize| #[trigger]
            h1.found(parent@, p) && put_under(h1, p, key@, node, h),
    }
}

/// Whether `h1` is `h0` with one more tree, detached, under `node`, which looks as libfyaml reads
/// `bytes`.
pub open spec fn tree_built(h0: Heap, bytes: Seq<u8>, node: usize, h1: Heap) -> bool {
    h0.grown(node, h1) && (h0.snippets)(bytes) == Some(whole_look(h1.nodes, node))
}

/// What setting a value leaves behind: the tree that libfyaml makes of the bytes, at its place; or,
/// on an error, everything as it was.
pub open spec fn value_set(
    h0: Heap,
    bytes: Seq<u8>,
    target: Target,
    result: Result<(), Error>,
    h: Heap,
) -> bool {
    match result {
        Ok(_) => exists|node: usize, h1: Heap| #[trigger]
            tree_built(h0, bytes, node, h1) && put_at(h1, target, node, h),
        Err(_) => h == h0,
    }
}

/// A tree that is to be put somewhere: the heap before it was built, the heap that it was built in,
/// and its root.
struct Plan {
    before: Heap,
    with: Heap,
    node: usize,
}

impl Plan {
    spec fn valid(self) -> bool {
        self.before.well_formed() && self.before.grown(self.node, self.with)
    }
}

/// Whether the session holds the tree of the plan, and nothing else has changed.
spec fn holds(w: Plan, node: RawNodeHandle, h: Heap) -> bool {
    !node.inserted && node.node == w.node && h == w.with
}

/// How far a session that sets a value has got.
spec fn setting<'a>(
    w: Plan,
    target0: Target<'a>,
    step: Step<'a, SetYamlAt<'a>, Result<(), Error>>,
    h: Heap,
) -> bool {
    match step {
        Step::Done(Ok(_)) => put_at(w.with, target0, w.node, h),
        Step::Done(Err(_)) => h == w.before,
        Step::Ask(s, call) => match s {
            SetYamlAt::Building { .. } => false,
            SetYamlAt::Rooting { set } => target0 is Root && (set matches Attach::Asking { node, .. }
                && holds(w, node, h) && (call matches Call::DocumentSetRoot { node: n, .. } && n
                == node.node)),
            SetYamlAt::Failing { .. } => call matches Call::NodeFree { node } && node == w.node && h
                == w.with,
            _ => target0 matches Target::Child { parent, key } && setting_child(
                w,
                parent@,
                key,
                s,
                call,
                h,
            ),
        },
    }
}

/// How far a session that sets a value under a parent has got.
spec fn setting_child<'a>(
    w: Plan,
    parent: Seq<char>,
    key0: &'a str,
    s: SetYamlAt<'a>,
    call: Call<'a>,
    h: Heap,
) -> bool {
    match s {
        SetYamlAt::Finding { .. } | SetYamlAt::Typing { .. } => setting_found(
            w,
            parent,
            key0,
            s,
            call,
            h,
        ),
        SetYamlAt::Looking { .. } | SetYamlAt::Replacing { .. } | SetYamlAt::Keying { .. }
        | SetYamlAt::Appending { .. } | SetYamlAt::FreeingKey { .. } => setting_pair(
            w,
            parent,
            key0,
            s,
            call,
            h,
        ),
        _ => setting_item(w, parent, key0, s, call, h),
    }
}

/// How far it has got while it looks for the parent.
spec fn setting_found<'a>(
    w: Plan,
    parent: Seq<char>,
    key0: &'a str,
    s: SetYamlAt<'a>,
    call: Call<'a>,
    h: Heap,
) -> bool {
    match s {
        SetYamlAt::Finding { key, node, find, .. } => {
            &&& holds(w, node, h)
            &&& key == key0
            &&& match find {
                FindNode::Rooting { path, .. } => path@ == parent && call is DocumentRoot,
                FindNode::Walking { .. } => {
                    &&& call matches Call::NodeByPath { node: root, path }
                    &&& root == h.root
                    &&& root != 0
                    &&& path@ == parent
                    &&& path@.len() > 0
                },
            }
        },
        SetYamlAt::Typing { key, node, parent: p, .. } => {
            &&& holds(w, node, h)
            &&& key == key0
            &&& h.found(parent, p)
            &&& call == Call::NodeGetType { node: p }
        },
        _ => false,
    }
}

/// How far it has got once the parent proved to be a mapping.
spec fn setting_pair<'a>(
    w: Plan,
    parent: Seq<char>,
    key0: &'a str,
    s: SetYamlAt<'a>,
    call: Call<'a>,
    h: Heap,
) -> bool {
    match s {
        SetYamlAt::Looking { key, node, parent: p, .. } => {
            &&& holds(w, node, h)
            &&& key == key0
            &&& h.found(parent, p)
            &&& h.is_mapping(p)
            &&& call == Call::MappingLookupPairByString { map: p, name: key }
        },
        SetYamlAt::Replacing { node } => {
            &&& holds(w, node, h)
            &&& call matches Call::PairSetValue { pair, value }
            &&& value == node.node
            &&& pair_ready(h, parent, key0@, pair)
        },
        SetYamlAt::Keying { node, parent: p } => {
            &&& holds(w, node, h)
            &&& h.found(parent, p)
            &&& h.is_mapping(p)
            &&& !h.scarce ==> h.spot(p, key0@) < 0
            &&& h.plain(key0@) ==> h.find(p, key0@) == h.entries(p).len()
            &&& call matches Call::NodeCreateScalarCopy { text, .. }
            &&& text == key0
        },
        SetYamlAt::Appending { node, key_node } => {
            &&& call matches Call::MappingAppend { map: p, key: k, value }
            &&& value == node.node
            &&& k == key_node
            &&& key_ready(w, node, parent, p, key0@, key_node, h)
        },
        SetYamlAt::FreeingKey { node } => {
            &&& call matches Call::NodeFree { node: k }
            &&& key_stray(w, node, k, h)
        },
        _ => false,
    }
}

/// Whether `pair` is the pair that `key` has under the mapping that the path leads to.
spec fn pair_ready(h: Heap, path: Seq<char>, key: Seq<char>, pair: usize) -> bool {
    exists|p: usize, i: int| #[trigger]
        h.pair_at(pair, p, i) && h.found(path, p) && is_pair_for(h, p, key, i)
}

/// Whether `h` is `h1` with a node made for a key that the mapping at `p` does not have.
spec fn keyed(
    w: Plan,
    node: RawNodeHandle,
    path: Seq<char>,
    p: usize,
    key: Seq<char>,
    key_node: usize,
    h1: Heap,
    h: Heap,
) -> bool {
    &&& holds(w, node, h1)
    &&& h1.found(path, p)
    &&& h1.is_mapping(p)
    &&& !h1.scarce ==> h1.spot(p, key) < 0
    &&& h1.plain(key) ==> h1.find(p, key) == h1.entries(p).len()
    &&& scalar_made(h1, key_node, key, h)
}

spec fn key_ready(
    w: Plan,
    node: RawNodeHandle,
    path: Seq<char>,
    p: usize,
    key: Seq<char>,
    key_node: usize,
    h: Heap,
) -> bool {
    exists|h1: Heap| #[trigger] keyed(w, node, path, p, key, key_node, h1, h)
}

/// Whether `h` is `h1` with a node for a key that did not get into the mapping.
spec fn key_left(w: Plan, node: RawNodeHandle, key_node: usize, h1: Heap, h: Heap) -> bool {
    holds(w, node, h1) && h1.grown(key_node, h)
}

spec fn key_stray(w: Plan, node: RawNodeHandle, key_node: usize, h: Heap) -> bool {
    exists|h1: Heap| #[trigger] key_left(w, node, key_node, h1, h)
}

/// Whether `h` is `h1` with the `i`-th item, `old`, taken out of the sequence at `p`; `next` is the
/// item after it.
spec fn item_out(
    w: Plan,
    node: RawNodeHandle,
    path: Seq<char>,
    p: usize,
    key: Seq<char>,
    old: usize,
    next: usize,
    h1: Heap,
    i: int,
    h: Heap,
) -> bool {
    &&& holds(w, node, h1)
    &&& at_index(h1, path, p, key, i)
    &&& old == h1.items(p)[i]
    &&& next == item_at(h1.items(p), i + 1)
    &&& h == h1.without_item(p, i)
}

spec fn item_taken(
    w: Plan,
    node: RawNodeHandle,
    path: Seq<char>,
    p: usize,
    key: Seq<char>,
    old: usize,
    next: usize,
    h: Heap,
) -> bool {
    exists|h1: Heap, i: int| #[trigger] item_out(w, node, path, p, key, old, next, h1, i, h)
}

/// Whether `h` is `h1` with the `i`-th item of the sequence at `p` freed.
spec fn item_gone(
    w: Plan,
    node: RawNodeHandle,
    path: Seq<char>,
    p: usize,
    key: Seq<char>,
    next: usize,
    h1: Heap,
    i: int,
    h: Heap,
) -> bool {
    &&& holds(w, node, h1)
    &&& at_index(h1, path, p, key, i)
    &&& next == item_at(h1.items(p), i + 1)
    &&& h == h1.without_item(p, i).without(h1.items(p)[i])
}

spec fn item_freed(
    w: Plan,
    node: RawNodeHandle,
    path: Seq<char>,
    p: usize,
    key: Seq<char>,
    next: usize,
    h: Heap,
) -> bool {
    exists|h1: Heap, i: int| #[trigger] item_gone(w, node, path, p, key, next, h1, i, h)
}

/// Whether `item` is the item that `key` selects in the sequence at `p`; `next` comes after it.
spec fn item_picked(
    h: Heap,
    path: Seq<char>,
    p: usize,
    key: Seq<char>,
    item: usize,
    next: usize,
) -> bool {
    exists|i: int| #[trigger]
        at_index(h, path, p, key, i) && item == h.items(p)[i] && next == item_at(h.items(p), i + 1)
}

/// How far it has got once the parent proved to be a sequence.
spec fn setting_item<'a>(
    w: Plan,
    parent: Seq<char>,
    key0: &'a str,
    s: SetYamlAt<'a>,
    call: Call<'a>,
    h: Heap,
) -> bool {
    match s {
        SetYamlAt::Counting { node, parent: p, index } => {
            &&& holds(w, node, h)
            &&& h.found(parent, p)
            &&& h.is_sequence(p)
            &&& is_index(key0@)
            &&& index == signed_value(key0@)
            &&& call == Call::SequenceItemCount { seq: p }
        },
        SetYamlAt::Getting { node, parent: p, after } => {
            &&& holds(w, node, h)
            &&& at_index(h, parent, p, key0@, after - 1)
            &&& call matches Call::SequenceGetByIndex { seq, index }
            &&& seq == p
            &&& index == after - 1
        },
        SetYamlAt::Peeking { node, parent: p, item } => {
            &&& holds(w, node, h)
            &&& call matches Call::SequenceGetByIndex { seq, index }
            &&& seq == p
            &&& at_index(h, parent, p, key0@, index - 1)
            &&& item == h.items(p)[index - 1]
        },
        SetYamlAt::Removing { node, parent: p, next } => {
            &&& holds(w, node, h)
            &&& call matches Call::SequenceRemove { seq, item }
            &&& seq == p
            &&& item_picked(h, parent, p, key0@, item, next)
        },
        SetYamlAt::Freeing { node, parent: p, next } => {
            &&& call matches Call::NodeFree { node: old }
            &&& item_taken(w, node, parent, p, key0@, old, next, h)
        },
        SetYamlAt::Adding { node } => {
            &&& call matches Call::SequenceAppend { seq: p, item }
            &&& item == node.node
            &&& item_freed(w, node, parent, p, key0@, 0, h)
        },
        SetYamlAt::Inserting { node } => {
            &&& call matches Call::SequenceInsertBefore { seq: p, mark, item }
            &&& item == node.node
            &&& mark != 0
            &&& item_freed(w, node, parent, p, key0@, mark, h)
        },
        _ => false,
    }
}

/// Whether `key` selects the `i`-th item of the sequence at `p`, which the path leads to.
spec fn at_index(h: Heap, path: Seq<char>, p: usize, key: Seq<char>, i: int) -> bool {
    &&& h.found(path, p)
    &&& h.is_sequence(p)
    &&& is_index(key)
    &&& 0 <= i < h.items(p).len()
    &&& i == counted(signed_value(key), h.items(p).len())
}

proof fn lemma_setting<'a>(
    w: Plan,
    target: Target<'a>,
    s: SetYamlAt<'a>,
    call: Call<'a>,
    h: Heap,
    reply: Reply,
    after: Heap,
)
    requires
        w.valid(),
        setting(w, target, Step::Ask(s, call), h),
        h.performs(call, reply, after),
    ensures
        setting(w, target, s.resumed(reply), after),
{
    match s {
        SetYamlAt::Rooting { set } => {
            if let Attach::Asking { node, .. } = set {
                assert(h.loose(node.node));
                assert(put_at(h, target, node.node, after));
            }
        },
        SetYamlAt::Failing { .. } => {
            if let Call::NodeFree { node } = call {
                w.before.lemma_grown_freed(node, h);
            }
        },
        _ => {
            if let Target::Child { parent, key } = target {
                match s {
                    SetYamlAt::Finding { .. } | SetYamlAt::Typing { .. } => lemma_setting_found(
                        w,
                        target,
                        parent@,
                        key,
                        s,
                        call,
                        h,
                        reply,
                        after,
                    ),
                    SetYamlAt::Looking { .. } | SetYamlAt::Replacing { .. }
                    | SetYamlAt::Keying { .. } | SetYamlAt::Appending { .. }
                    | SetYamlAt::FreeingKey { .. } => lemma_setting_pair(
                        w,
                        target,
                        parent@,
                        key,
                        s,
                        call,
                        h,
                        reply,
                        after,
                    ),
                    _ => lemma_setting_item(
                        w,
                        target,
                        parent@,
                        key,
                        s,
                        call,
                        h,
                        reply,
                        after,
                    ),
                }
            }
        },
    }
}

proof fn lemma_setting_found<'a>(
    w: Plan,
    target: Target<'a>,
    parent: Seq<char>,
    key: &'a str,
    s: SetYamlAt<'a>,
    call: Call<'a>,
    h: Heap,
    reply: Reply,
    after: Heap,
)
    requires
        w.valid(),
        target matches Target::Child { parent: p0, key: k0 } && p0@ == parent && k0 == key,
        s is Finding || s is Typing,
        setting_found(w, parent, key, s, call, h),
        h.performs(call, reply, after),
    ensures
        setting(w, target, s.resumed(reply), after),
{
    match s {
        SetYamlAt::Finding { node, find, .. } => {
            assert(h.well_formed());
            match find {
                FindNode::Rooting { path, .. } => {
                    if h.root != 0 && path@.len() == 0 {
                        assert(segments(parent) == Seq::<Seq<char>>::empty());
                        h.lemma_below_self(h.root);
                        assert(h.found(parent, h.root));
                    }
                },
                FindNode::Walking { .. } => {
                    let p = reply.pointer_spec();
                    if p != 0 {
                        assert(h.found(parent, p));
                    }
                },
            }
        },
        SetYamlAt::Typing { .. } => {},
        _ => {},
    }
}

proof fn lemma_setting_pair<'a>(
    w: Plan,
    target: Target<'a>,
    parent: Seq<char>,
    key: &'a str,
    s: SetYamlAt<'a>,
    call: Call<'a>,
    h: Heap,
    reply: Reply,
    after: Heap,
)
    requires
        w.valid(),
        target matches Target::Child { parent: p0, key: k0 } && p0@ == parent && k0 == key,
        s is Looking || s is Replacing || s is Keying || s is Appending || s is FreeingKey,
        setting_pair(w, parent, key, s, call, h),
        h.performs(call, reply, after),
    ensures
        setting(w, target, s.resumed(reply), after),
{
    match s {
        SetYamlAt::Looking { doc, node, parent: p, .. } => {
            assert(h.well_formed());
            let pair = reply.pointer_spec();
            if pair != 0 {
                let j = choose|j: int| h.pair_at(pair, p, j) && h.first_of_kind(p, j);
                assert(h.pair_at(pair, p, j));
                if h.plain(key@) {
                    let i = h.find(p, key@) as int;
                    assert(h.pair_at(pair, p, i));
                }
                if !h.scarce {
                    assert(h.pair_at(pair, p, h.spot(p, key@)));
                }
                assert(is_pair_for(h, p, key@, j));
                assert(pair_ready(h, parent, key@, pair));
                let next = SetYamlAt::Replacing { node };
                let asked = Call::PairSetValue { pair, value: node.node };
                assert(setting_pair(w, parent, key, next, asked, after));
                assert(setting(w, target, Step::Ask(next, asked), after));
            } else {
                if h.plain(key@) {
                    let i = h.find(p, key@) as int;
                    if i < h.entries(p).len() {
                        assert(h.pair_at(h.entries(p)[i].pair, p, i));
                    }
                    h.lemma_find_passed(h.entries(p), key@, 0);
                }
                if !h.scarce && h.spot(p, key@) >= 0 {
                    let i = h.spot(p, key@);
                    assert(h.pair_at(h.entries(p)[i].pair, p, i));
                }
                let next = SetYamlAt::Keying { node, parent: p };
                let asked = Call::NodeCreateScalarCopy { doc, text: key };
                assert(setting_pair(w, parent, key, next, asked, after));
                assert(setting(w, target, Step::Ask(next, asked), after));
            }
        },
        SetYamlAt::Replacing { node } => {
            if let Call::PairSetValue { pair, value } = call {
                let (p, i) = choose|p: usize, i: int| #[trigger]
                    h.pair_at(pair, p, i) && h.found(parent, p) && is_pair_for(h, p, key@, i);
                assert(h.loose(value));
                assert(after == h.with_value(p, i, value));
                assert(value_replaced(h, p, key@, value, after));
                assert(h.found(parent, p) && put_under(h, p, key@, value, after));
                assert(put_at(h, target, value, after));
            }
        },
        SetYamlAt::Keying { node, parent: p } => {
            let k = reply.pointer_spec();
            if k != 0 {
                assert(keyed(w, node, parent, p, key@, k, h, after));
                assert(key_ready(w, node, parent, p, key@, k, after));
                let next = SetYamlAt::Appending { node, key_node: k };
                let asked = Call::MappingAppend { map: p, key: k, value: node.node };
                assert(setting_pair(w, parent, key, next, asked, after));
                assert(setting(w, target, Step::Ask(next, asked), after));
            } else {
                assert(setting(w, target, s.resumed(reply), after));
            }
        },
        SetYamlAt::Appending { node, key_node } => {
            if let Call::MappingAppend { map: p, key: k, value } = call {
                let h1 = choose|h1: Heap| #[trigger]
                    keyed(w, node, parent, p, key@, key_node, h1, h);
                if reply.status_spec() == 0 {
                    let pair = choose|pair: usize|
                        pair != 0 && !(exists|q: usize, i: int| h.pair_at(pair, q, i)) && after
                            == #[trigger] h.with_entry(p, Entry { pair, key: k, value });
                    let e = Entry { pair, key: k, value };
                    assert(scalar_made(h1, e.key, key@, h));
                    assert(after == h.with_entry(p, e));
                    assert(pair_added(h1, p, key@, value, after));
                    assert(h1.found(parent, p) && put_under(h1, p, key@, value, after));
                    assert(put_at(h1, target, value, after));
                } else {
                    assert(key_left(w, node, key_node, h1, h));
                    assert(key_stray(w, node, key_node, h));
                    let next = SetYamlAt::FreeingKey { node };
                    let asked = Call::NodeFree { node: key_node };
                    assert(setting_pair(w, parent, key, next, asked, after));
                    assert(setting(w, target, Step::Ask(next, asked), after));
                }
            }
        },
        SetYamlAt::FreeingKey { node } => {
            if let Call::NodeFree { node: k } = call {
                let h1 = choose|h1: Heap| #[trigger] key_left(w, node, k, h1, h);
                h1.lemma_grown_freed(k, h);
                assert(after == h1);
            }
        },
        _ => {},
    }
}

proof fn lemma_setting_item<'a>(
    w: Plan,
    target: Target<'a>,
    parent: Seq<char>,
    key: &'a str,
    s: SetYamlAt<'a>,
    call: Call<'a>,
    h: Heap,
    reply: Reply,
    after: Heap,
)
    requires
        w.valid(),
        target matches Target::Child { parent: p0, key: k0 } && p0@ == parent && k0 == key,
        s is Counting || s is Getting || s is Peeking || s is Removing || s is Freeing || s is Adding
            || s is Inserting,
        setting_item(w, parent, key, s, call, h),
        h.performs(call, reply, after),
    ensures
        setting(w, target, s.resumed(reply), after),
{
    match s {
        SetYamlAt::Counting { node, parent: p, index } => {
            assert(h.well_formed());
            assert(h.items(p).len() <= i32::MAX);
            if let Some(at) = resolve_index_spec(index, reply.status_spec()) {
                assert(at_index(h, parent, p, key@, at as int));
                let next = SetYamlAt::Getting { node, parent: p, after: (at + 1) as i32 };
                let asked = Call::SequenceGetByIndex { seq: p, index: at };
                assert(setting_item(w, parent, key, next, asked, after));
                assert(setting(w, target, Step::Ask(next, asked), after));
            }
        },
        SetYamlAt::Getting { node, parent: p, after: next } => {
            h.lemma_item(p, next - 1);
            let now = SetYamlAt::Peeking { node, parent: p, item: reply.pointer_spec() };
            let asked = Call::SequenceGetByIndex { seq: p, index: next };
            assert(setting_item(w, parent, key, now, asked, after));
            assert(setting(w, target, Step::Ask(now, asked), after));
        },
        SetYamlAt::Peeking { node, parent: p, item } => {
            if let Call::SequenceGetByIndex { seq, index } = call {
                assert(at_index(h, parent, p, key@, index - 1));
                assert(item_picked(h, parent, p, key@, item, reply.pointer_spec()));
                let next = SetYamlAt::Removing { node, parent: p, next: reply.pointer_spec() };
                let asked = Call::SequenceRemove { seq: p, item };
                assert(setting_item(w, parent, key, next, asked, after));
                assert(setting(w, target, Step::Ask(next, asked), after));
            }
        },
        SetYamlAt::Removing { node, parent: p, next } => {
            if let Call::SequenceRemove { seq, item } = call {
                let i = choose|i: int| #[trigger]
                    at_index(h, parent, p, key@, i) && item == h.items(p)[i] && next == item_at(
                        h.items(p),
                        i + 1,
                    );
                h.lemma_item(p, i);
                assert(item_out(w, node, parent, p, key@, item, next, h, i, after));
                assert(item_taken(w, node, parent, p, key@, item, next, after));
                let now = SetYamlAt::Freeing { node, parent: p, next };
                let asked = Call::NodeFree { node: item };
                assert(setting_item(w, parent, key, now, asked, after));
                assert(setting(w, target, Step::Ask(now, asked), after));
            }
        },
        SetYamlAt::Freeing { node, parent: p, next } => {
            if let Call::NodeFree { node: old } = call {
                let (h1, i) = choose|h1: Heap, i: int| #[trigger]
                    item_out(w, node, parent, p, key@, old, next, h1, i, h);
                h1.lemma_item_out(p, i);
                if i + 1 < h1.items(p).len() {
                    h1.lemma_item(p, i + 1);
                }
                assert(item_gone(w, node, parent, p, key@, next, h1, i, after));
                assert(item_freed(w, node, parent, p, key@, next, after));
                if next == 0 {
                    let now = SetYamlAt::Adding { node };
                    let asked = Call::SequenceAppend { seq: p, item: node.node };
                    assert(setting_item(w, parent, key, now, asked, after));
                    assert(setting(w, target, Step::Ask(now, asked), after));
                } else {
                    let now = SetYamlAt::Inserting { node };
                    let asked = Call::SequenceInsertBefore {
                        seq: p,
                        mark: next,
                        item: node.node,
                    };
                    assert(setting_item(w, parent, key, now, asked, after));
                    assert(setting(w, target, Step::Ask(now, asked), after));
                }
            }
        },
        SetYamlAt::Adding { node } => {
            if let Call::SequenceAppend { seq: p, item } = call {
                let (h1, i) = choose|h1: Heap, i: int| #[trigger]
                    item_gone(w, node, parent, p, key@, 0, h1, i, h);
                if i + 1 < h1.items(p).len() {
                    h1.lemma_item(p, i + 1);
                }
                h1.lemma_item_replaced(p, i, item);
                lemma_item_placed(target, parent, p, key, i, item, h1, after);
            }
        },
        SetYamlAt::Inserting { node } => {
            if let Call::SequenceInsertBefore { seq: p, mark, item } = call {
                let (h1, i) = choose|h1: Heap, i: int| #[trigger]
                    item_gone(w, node, parent, p, key@, mark, h1, i, h);
                h1.lemma_next_stays(p, i);
                h1.lemma_item(p, i);
                h1.lemma_item_replaced(p, i, item);
                let rest = h1.items(p).remove(i);
                assert(rest[i] == mark);
                assert(rest.contains(mark));
                let j = rest.index_of(mark);
                assert(h1.items(p)[if j < i { j } else { j + 1 }] == mark);
                assert(j == i);
                lemma_item_placed(target, parent, p, key, i, item, h1, after);
            }
        },
        _ => {},
    }
}

impl Heap {
    /// Freeing an item leaves the next one alone.
    proof fn lemma_next_stays(self, p: usize, i: int)
        requires
            self.well_formed(),
            self.is_sequence(p),
            0 <= i,
            i + 1 < self.items(p).len(),
        ensures
            self.item_deleted(p, i).has(self.items(p)[i + 1]),
            self.item_deleted(p, i).has(p),
    {
        self.lemma_item(p, i);
        self.lemma_item(p, i + 1);
        self.lemma_item_out(p, i);
        self.lemma_siblings(p, self.items(p)[i], self.items(p)[i + 1]);
    }
}

proof fn lemma_item_placed<'a>(
    target: Target<'a>,
    parent: Seq<char>,
    p: usize,
    key: &'a str,
    i: int,
    item: usize,
    h1: Heap,
    h: Heap,
)
    requires
        target matches Target::Child { parent: p0, key: k0 } && p0@ == parent && k0 == key,
        at_index(h1, parent, p, key@, i),
        h1.items(p).len() <= i32::MAX,
        h == h1.with_item_replaced(p, i, item),
    ensures
        put_at(h1, target, item, h),
{
    assert(item_replaced(h1, p, key@, item, h));
    assert(h1.found(parent, p) && put_under(h1, p, key@, item, h));
}

/// What holds once the tree of the plan has been put where it belongs, or given up.
proof fn lemma_plan<'a>(
    w: Plan,
    doc: usize,
    target: Target<'a>,
    node: RawNodeHandle,
    trace: Seq<(Reply, Heap)>,
    result: Result<(), Error>,
    end: Heap,
)
    requires
        w.valid(),
        holds(w, node, w.with),
        runs(built(doc, target, Ok(node)), w.with, trace, result, end),
    ensures
        setting(w, target, Step::Done(result), end),
{
    let inv = |step: Step<'a, SetYamlAt<'a>, Result<(), Error>>, h: Heap|
        setting(w, target, step, h);
    assert forall|s: SetYamlAt<'a>, call: Call<'a>, before: Heap, reply: Reply, after: Heap|
        inv(Step::Ask(s, call), before) && #[trigger] before.performs(call, reply, after) implies inv(
        #[trigger] s.resumed(reply),
        after,
    ) by {
        lemma_setting(w, target, s, call, before, reply, after);
    }
    lemma_runs(inv, built(doc, target, Ok(node)), w.with, trace, result, end);
}

/// Once the snippet is built, it is just that node, and the tree under it, that is put at the target.
pub proof fn law_set_places<'a>(
    doc: usize,
    target: Target<'a>,
    node: RawNodeHandle,
    h0: Heap,
    h1: Heap,
    trace: Seq<(Reply, Heap)>,
    end: Heap,
)
    requires
        h0.well_formed(),
        !node.inserted,
        h0.grown(node.node, h1),
        runs(built(doc, target, Ok(node)), h1, trace, Ok(()), end),
    ensures
        put_at(h1, target, node.node, end),
{
    let w = Plan { before: h0, with: h1, node: node.node };
    lemma_plan(w, doc, target, node, trace, Ok(()), end);
}

/// Once the snippet is built, a refusal frees the node again and leaves the document as it was before.
pub proof fn law_set_refused<'a>(
    doc: usize,
    target: Target<'a>,
    node: RawNodeHandle,
    h0: Heap,
    h1: Heap,
    trace: Seq<(Reply, Heap)>,
    error: Error,
    end: Heap,
)
    requires
        h0.well_formed(),
        !node.inserted,
        h0.grown(node.node, h1),
        runs(built(doc, target, Ok(node)), h1, trace, Err(error), end),
    ensures
        end == h0,
{
    let w = Plan { before: h0, with: h1, node: node.node };
    lemma_plan(w, doc, target, node, trace, Err(error), end);
}

/// Whether the first `k` calls build the snippet and the rest are about the target.
spec fn parted<'a>(
    doc: usize,
    target: Target<'a>,
    build: Step<'a, BuildFromYaml<'a>, Result<RawNodeHandle, Error>>,
    h: Heap,
    trace: Seq<(Reply, Heap)>,
    result: Result<(), Error>,
    end: Heap,
    k: int,
    outcome: Result<RawNodeHandle, Error>,
    between: Heap,
) -> bool {
    &&& 0 <= k <= trace.len()
    &&& runs(build, h, trace.take(k), outcome, between)
    &&& runs(built(doc, target, outcome), between, trace.skip(k), result, end)
}

/// Setting a value begins with building the snippet.
proof fn lemma_parted<'a>(
    doc: usize,
    target: Target<'a>,
    build: BuildFromYaml<'a>,
    call: Call<'a>,
    h: Heap,
    trace: Seq<(Reply, Heap)>,
    result: Result<(), Error>,
    end: Heap,
) -> (r: (int, Result<RawNodeHandle, Error>, Heap))
    requires
        runs(
            Step::Ask(SetYamlAt::Building { doc, target, build }, call),
            h,
            trace,
            result,
            end,
        ),
    ensures
        parted(doc, target, Step::Ask(build, call), h, trace, result, end, r.0, r.1, r.2),
    decreases trace.len(),
{
    let (reply, after) = trace[0];
    let rest = trace.drop_first();
    match build.resumed(reply) {
        Step::Ask(next, asked) => {
            let (k, outcome, between) = lemma_parted(
                doc,
                target,
                next,
                asked,
                after,
                rest,
                result,
                end,
            );
            assert(trace.take(k + 1).drop_first() =~= rest.take(k));
            assert(trace.skip(k + 1) =~= rest.skip(k));
            (k + 1, outcome, between)
        },
        Step::Done(outcome) => {
            assert(trace.take(1).drop_first() =~= Seq::<(Reply, Heap)>::empty());
            assert(trace.skip(1) =~= rest);
            assert(runs::<BuildFromYaml<'a>, Heap>(
                Step::Done(outcome),
                after,
                trace.take(1).drop_first(),
                outcome,
                after,
            ));
            (1, outcome, after)
        },
    }
}

/// Setting a value puts the tree that libfyaml makes of the snippet where the path points and changes
/// nothing else; what it takes the place of is freed. When it fails the document is as it was, and
/// nothing that was built for it is left. A snippet that libfyaml does not accept is never set.
pub proof fn law_set_yaml_at<'a>(
    doc: usize,
    target: Target<'a>,
    yaml: &'a str,
    h0: Heap,
    trace: Seq<(Reply, Heap)>,
    result: Result<(), Error>,
    end: Heap,
)
    requires
        h0.well_formed(),
        encode_utf8(yaml@).len() <= usize::MAX,
        runs(SetYamlAt::started(doc, target, yaml), h0, trace, result, end),
    ensures
        value_set(h0, encode_utf8(yaml@), target, result, end),
        (h0.snippets)(encode_utf8(yaml@)) is None ==> result is Err,
        end.well_formed(),
        end.diag == h0.diag,
{
    let (k, outcome, h1) = lemma_parted(
        doc,
        target,
        BuildFromYaml::Copying { doc, yaml },
        Call::MallocCopy { text: yaml },
        h0,
        trace,
        result,
        end,
    );
    law_build_from_yaml(doc, yaml, h0, trace.take(k), outcome, h1);
    match outcome {
        Ok(node) => {
            let w = Plan { before: h0, with: h1, node: node.node };
            lemma_plan(w, doc, target, node, trace.skip(k), result, end);
            if result is Ok {
                assert(tree_built(h0, encode_utf8(yaml@), node.node, h1));
                lemma_put_at(h0, h1, target, node.node, end);
            }
        },
        Err(_) => {},
    }
}

/// Putting a tree at a target keeps the shape.
proof fn lemma_put_at(h0: Heap, h1: Heap, target: Target, node: usize, end: Heap)
    requires
        h0.well_formed(),
        h0.grown(node, h1),
        put_at(h1, target, node, end),
    ensures
        end.well_formed(),
        end.diag == h0.diag,
{
    match target {
        Target::Root => {
            h1.lemma_with_root_shape(node);
        },
        Target::Child { parent, key } => {
            let p = choose|p: usize| #[trigger]
                h1.found(parent@, p) && put_under(h1, p, key@, node, end);
            h1.lemma_loose_apart(node, p);
            lemma_put_under(h1, p, key@, node, end);
        },
    }
}

/// Whether `h` holds the tree that was under `node` in `h1`, as it was.
pub open spec fn holds_tree(h1: Heap, node: usize, h: Heap) -> bool {
    forall|m: usize| #[trigger]
        h1.below(node, m) && h1.has(m) ==> h.has(m) && h.body(m) == h1.body(m) && h.nodes[m].style
            == h1.nodes[m].style && h.nodes[m].tag == h1.nodes[m].tag
}

/// Whether it is clear what `key` selects in the node at `p`: in a mapping, where it is a plain name.
pub open spec fn clear_key(h: Heap, p: usize, key: Seq<char>) -> bool {
    h.is_mapping(p) ==> h.plain(key)
}

/// Whether libfyaml takes `key` as one plain step from the node at `p`: in a mapping a plain name
/// that stands for itself in a path, in a sequence an index without a plus sign.
pub open spec fn plain_key(h: Heap, p: usize, key: Seq<char>) -> bool {
    &&& key.len() > 0
    &&& h.is_mapping(p) ==> h.plain(key) && is_bare(key)
    &&& h.is_sequence(p) ==> key[0] != '+'
}

/// What putting a tree under the node at `p` means for whoever reads the document.
proof fn lemma_put_under(h1: Heap, p: usize, key: Seq<char>, node: usize, h: Heap)
    requires
        h1.well_formed(),
        h1.has(p),
        h1.loose(node),
        !h1.below(node, p),
        put_under(h1, p, key, node, h),
    ensures
        h.well_formed(),
        h.root == h1.root,
        h.diag == h1.diag,
        h1.kept_outside(p, h),
        holds_tree(h1, node, h),
        h.is_mapping(p) == h1.is_mapping(p),
        clear_key(h1, p, key) ==> h.child(p, key) == node,
{
    if value_replaced(h1, p, key, node, h) {
        lemma_value_replaced(h1, p, key, node, h);
    } else if pair_added(h1, p, key, node, h) {
        lemma_pair_added(h1, p, key, node, h);
    } else {
        lemma_item_replaced(h1, p, key, node, h);
    }
}

proof fn lemma_value_replaced(h1: Heap, p: usize, key: Seq<char>, node: usize, h: Heap)
    requires
        h1.well_formed(),
        h1.loose(node),
        !h1.below(node, p),
        value_replaced(h1, p, key, node, h),
    ensures
        h.well_formed(),
        h.root == h1.root,
        h.diag == h1.diag,
        h1.kept_outside(p, h),
        holds_tree(h1, node, h),
        h.is_mapping(p) == h1.is_mapping(p),
        clear_key(h1, p, key) ==> h.child(p, key) == node,
{
    let i = choose|i: int| #[trigger] is_pair_for(h1, p, key, i) && h == h1.with_value(p, i, node);
    let entries = h1.entries(p);
    let old = entries[i].value;
    h1.lemma_below_self(node);
    h1.lemma_below_self(p);
    h1.lemma_with_value_shape(p, i, node);
    lemma_kids_of_mapping(entries);
    assert(kids(h1.body(p))[entries.len() + i] == old);
    assert(h1.kid(p, old));
    h1.lemma_below_kid(p, p, old);
    lemma_swap_reads(h1, p, old, node, h);
    if h1.plain(key) {
        let changed = entries.update(i, Entry { value: node, ..entries[i] });
        assert(h.body(p) == Body::Mapping(changed));
        h1.lemma_find_passed(entries, key, 0);
        assert forall|j: int| 0 <= j < changed.len() implies (h1.named(entries[j], key) <==> h.named(
            #[trigger] changed[j],
            key,
        )) by {
            let k = entries[j].key;
            assert(kids(h1.body(p))[j] == k);
            assert(h1.kid(p, k));
            assert(kids(h1.body(p))[j] != kids(h1.body(p))[entries.len() + i]);
            h1.lemma_siblings(p, old, k);
            h1.lemma_not_below_kid(p, k);
            h1.lemma_below_self(k);
        }
        h.lemma_find_at(changed, key, 0, i as nat);
    }
}

/// Freeing `old`, which stood inside `p`, and putting `node` there leaves the rest as it was.
proof fn lemma_swap_reads(h1: Heap, p: usize, old: usize, node: usize, h: Heap)
    requires
        h1.well_formed(),
        h1.loose(node),
        !h1.below(node, p),
        h1.kid(p, old),
        !(h1.body(p) is Scalar),
        !(h.body(p) is Scalar),
        h == h1.without(old).with_body(p, h.body(p)).with_attached(node, true),
    ensures
        h1.kept_outside(p, h),
        holds_tree(h1, node, h),
        forall|m: usize| #[trigger]
            h1.has(m) && m != p && !h1.below(old, m) ==> h.has(m) && h.body(m) == h1.body(m)
                && h.nodes[m].style == h1.nodes[m].style && h.nodes[m].tag == h1.nodes[m].tag,
{
    h1.lemma_below_self(node);
    h1.lemma_below_self(p);
    h1.lemma_below_kid(p, p, old);
    h1.lemma_not_below_kid(p, old);
    if h1.below(old, node) {
        let q = h1.lemma_below_container(old, node);
    }
    if h1.below(node, old) {
        h1.lemma_parent_below(node, old, p);
    }
    assert forall|m: usize| #[trigger] h1.has(m) && !h1.below(p, m) implies !h1.below(old, m) by {
        if h1.below(old, m) {
            h1.lemma_below_below(p, old, m);
        }
    }
    assert forall|m: usize| #[trigger] h1.below(node, m) && h1.has(m) implies !h1.below(old, m)
        && m != p by {
        if h1.below(old, m) {
            h1.lemma_apart(node, old, m);
        }
    }
}

/// What a new pair means for whoever reads the document.
pub proof fn lemma_pair_added(h1: Heap, p: usize, key: Seq<char>, node: usize, h: Heap)
    requires
        h1.well_formed(),
        h1.loose(node),
        !h1.below(node, p),
        pair_added(h1, p, key, node, h),
    ensures
        h.well_formed(),
        h.root == h1.root,
        h.diag == h1.diag,
        h1.kept_outside(p, h),
        holds_tree(h1, node, h),
        h.is_mapping(p) == h1.is_mapping(p),
        clear_key(h1, p, key) ==> h.child(p, key) == node,
        h1.plain(key) ==> h.find(p, key) == h1.entries(p).len(),
{
    let (h2, e) = choose|h2: Heap, e: Entry|
        {
            &&& #[trigger] scalar_made(h1, e.key, key, h2)
            &&& e.value == node
            &&& e.pair != 0
            &&& !(exists|q: usize, i: int| h2.pair_at(e.pair, q, i))
            &&& h == #[trigger] h2.with_entry(p, e)
        };
    let entries = h1.entries(p);
    assert(h2.well_formed());
    assert(h1.has(node) && h2.nodes[node] == h1.nodes[node]);
    assert(h1.has(p) && h2.nodes[p] == h1.nodes[p]);
    h1.lemma_grown_apart(e.key, h2, p);
    h1.lemma_grown_apart(e.key, h2, node);
    h2.lemma_below_self(e.key);
    h1.lemma_grown_below(e.key, h2, node);
    h1.lemma_below_self(p);
    h1.lemma_below_self(node);
    h2.lemma_with_entry_shape(p, e);
    assert forall|m: usize| #[trigger] h1.has(m) implies h.has(m) && (m != p ==> h.body(m)
        == h1.body(m)) && h.nodes[m].style == h1.nodes[m].style && h.nodes[m].tag
        == h1.nodes[m].tag by {
        assert(h2.has(m));
        assert(m != e.key);
    }
    if h1.plain(key) {
        let changed = entries.push(e);
        assert(h.body(p) == Body::Mapping(changed));
        h1.lemma_find_passed(entries, key, 0);
        lemma_kids_of_mapping(entries);
        assert forall|j: int| 0 <= j < entries.len() implies !h.named(
            #[trigger] changed[j],
            key,
        ) by {
            let k = entries[j].key;
            assert(changed[j] == entries[j]);
            assert(kids(h1.body(p))[j] == k);
            assert(h1.kid(p, k));
            assert(h1.has(k));
            assert(!h1.named(entries[j], key));
            h1.lemma_not_below_kid(p, k);
            h1.lemma_below_self(k);
            assert(k != p);
        }
        assert(h.named(changed[entries.len() as int], key));
        h.lemma_find_at(changed, key, 0, entries.len());
    }
}

proof fn lemma_item_replaced(h1: Heap, p: usize, key: Seq<char>, node: usize, h: Heap)
    requires
        h1.well_formed(),
        h1.loose(node),
        !h1.below(node, p),
        item_replaced(h1, p, key, node, h),
    ensures
        h.well_formed(),
        h.root == h1.root,
        h.diag == h1.diag,
        h1.kept_outside(p, h),
        holds_tree(h1, node, h),
        h.is_mapping(p) == h1.is_mapping(p),
        clear_key(h1, p, key) ==> h.child(p, key) == node,
{
    let items = h1.items(p);
    let i = counted(signed_value(key), items.len());
    assert(items.len() <= i32::MAX);
    h1.lemma_below_self(node);
    h1.lemma_item(p, i);
    h1.lemma_with_item_replaced_shape(p, i, node);
    lemma_swap_reads(h1, p, items[i], node, h);
    assert(h.body(p) == Body::Sequence(items.update(i, node)));
}

/// Whether it is clear what `path` points at: it denotes the root; or it is sure where the parent is,
/// and clear what the key selects there.
pub open spec fn clear_path(h: Heap, path: Seq<char>) -> bool {
    let p = h.place(parent_part(path));
    is_root_path(path) || (h.sure(parent_part(path)) && (p != 0 ==> clear_key(
        h,
        p,
        key_part(path),
    )))
}

/// What stands at a path: the root, or what the key selects in the parent; `0` for nothing.
pub open spec fn held_at(h: Heap, path: Seq<char>) -> usize {
    if is_root_path(path) {
        h.root
    } else {
        h.child(h.place(parent_part(path)), key_part(path))
    }
}

/// Whether `path` is made of plain steps: it denotes the root; or the steps to the parent are plain
/// as far as they lead, and the key is a plain step from there.
pub open spec fn plain_path(h: Heap, path: Seq<char>) -> bool {
    let segs = segments(parent_part(path));
    let p = h.walk(h.root, segs);
    is_root_path(path) || (h.decides(h.root, segs) && key_part(path).len() > 0 && (p != 0
        ==> plain_key(h, p, key_part(path))))
}

/// What a path of plain steps leads to is what stands there.
pub proof fn law_plain_path_leads(h: Heap, path: Seq<char>)
    requires
        h.well_formed(),
        plain_path(h, path),
    ensures
        clear_path(h, path),
        h.walk(h.root, segments(path)) == held_at(h, path),
{
    if is_root_path(path) {
        assert(segments(path) == Seq::<Seq<char>>::empty()) by {
            reveal_with_fuel(segments, 3);
            reveal_with_fuel(crate::path::last_slash, 2);
        }
    } else {
        let segs = segments(parent_part(path));
        assert(segments(path) == segs.push(key_part(path)));
        assert(segments(path).drop_last() == segs);
        h.lemma_place_plain(parent_part(path));
    }
}

/// A tree that is kept as it was looks as it did.
pub proof fn lemma_holds_look(h1: Heap, node: usize, h: Heap)
    requires
        h1.well_formed(),
        h1.has(node),
        holds_tree(h1, node, h),
    ensures
        h.has(node),
        whole_look(h.nodes, node) == whole_look(h1.nodes, node),
{
    h1.lemma_below_self(node);
    h1.lemma_same_look(h, node);
}

/// A tree that becomes the document stays as it is.
pub proof fn lemma_root_holds(h1: Heap, node: usize)
    requires
        h1.well_formed(),
        h1.loose(node),
    ensures
        holds_tree(h1, node, h1.with_root(node)),
{
    let end = h1.with_root(node);
    assert forall|m: usize| #[trigger] h1.below(node, m) && h1.has(m) implies end.has(m)
        && end.body(m) == h1.body(m) && end.nodes[m].style == h1.nodes[m].style
        && end.nodes[m].tag == h1.nodes[m].tag by {
        if h1.root != 0 {
            h1.lemma_below_self(h1.root);
            h1.lemma_loose_apart(node, h1.root);
            if h1.below(h1.root, m) {
                h1.lemma_apart(node, h1.root, m);
            }
        }
    }
}

/// What was set is what a later read finds: at the path stands the root of the tree that was built
/// from the snippet, that tree is as it was built, and it looks as libfyaml reads the snippet. If the
/// path is made of plain steps, it is where the path leads.
pub proof fn law_read_after_set<'a>(
    doc: usize,
    target: Target<'a>,
    path: Seq<char>,
    yaml: &'a str,
    h0: Heap,
    trace: Seq<(Reply, Heap)>,
    end: Heap,
)
    requires
        h0.well_formed(),
        encode_utf8(yaml@).len() <= usize::MAX,
        target.denotes(path),
        clear_path(h0, path),
        runs(SetYamlAt::started(doc, target, yaml), h0, trace, Ok(()), end),
    ensures
        exists|node: usize, h1: Heap| #[trigger]
            tree_built(h0, encode_utf8(yaml@), node, h1) && held_at(end, path) == node
                && holds_tree(h1, node, end),
        end.has(held_at(end, path)),
        (h0.snippets)(encode_utf8(yaml@)) == Some(whole_look(end.nodes, held_at(end, path))),
        plain_path(h0, path) ==> end.walk(end.root, segments(path)) == held_at(end, path),
{
    law_set_yaml_at(doc, target, yaml, h0, trace, Ok(()), end);
    let bytes = encode_utf8(yaml@);
    let (node, h1) = choose|node: usize, h1: Heap| #[trigger]
        tree_built(h0, bytes, node, h1) && put_at(h1, target, node, end);
    match target {
        Target::Root => {
            lemma_root_holds(h1, node);
            assert(held_at(end, path) == node);
            law_plain_path_leads(end, path);
        },
        Target::Child { parent, key } => {
            let p = choose|p: usize| #[trigger]
                h1.found(parent@, p) && put_under(h1, p, key@, node, end);
            lemma_parent_found(h0, node, h1, parent@, p, key@);
            h1.lemma_loose_apart(node, p);
            lemma_put_under(h1, p, key@, node, end);
            assert(clear_key(h1, p, key@));
            h1.lemma_place_kept(p, end, parent@);
            assert(held_at(end, path) == node);
            if plain_path(h0, path) {
                h0.lemma_place_plain(parent@);
                h0.lemma_walk_grown(node, h1, h0.root, segments(parent@));
                h1.lemma_walk_kept(p, end, h1.root, segments(parent@));
                assert(plain_path(end, path));
                law_plain_path_leads(end, path);
            }
        },
    }
    lemma_holds_look(h1, node, end);
}

/// The parent of what was set is where it was, and is a mapping if it was one.
pub proof fn lemma_parent_stays<'a>(
    doc: usize,
    target: Target<'a>,
    path: Seq<char>,
    yaml: &'a str,
    h0: Heap,
    trace: Seq<(Reply, Heap)>,
    end: Heap,
)
    requires
        h0.well_formed(),
        encode_utf8(yaml@).len() <= usize::MAX,
        target.denotes(path),
        !is_root_path(path),
        h0.sure(parent_part(path)),
        runs(SetYamlAt::started(doc, target, yaml), h0, trace, Ok(()), end),
    ensures
        ({
            let p = h0.place(parent_part(path));
            &&& end.place(parent_part(path)) == p
            &&& end.has(p)
            &&& end.is_mapping(p) == h0.is_mapping(p)
            &&& end.same_rules(h0)
        }),
{
    law_set_yaml_at(doc, target, yaml, h0, trace, Ok(()), end);
    let (node, h1) = choose|node: usize, h1: Heap| #[trigger]
        tree_built(h0, encode_utf8(yaml@), node, h1) && put_at(h1, target, node, end);
    if let Target::Child { parent, key } = target {
        let p = choose|p: usize| #[trigger]
            h1.found(parent@, p) && put_under(h1, p, key@, node, end);
        lemma_parent_found(h0, node, h1, parent@, p, key@);
        h1.lemma_loose_apart(node, p);
        lemma_put_under(h1, p, key@, node, end);
        h1.lemma_place_kept(p, end, parent@);
    }
}

/// What becomes of setting a value once its tree is built, as far as the document decides it alone.
/// It is left open for an empty key that has to be added, and, where memory is scarce, for a parent
/// that is not reached by plain steps and for any key of a mapping.
pub open spec fn fate(h: Heap, target: Target) -> Option<Result<(), Error>> {
    match target {
        Target::Root => Some(Ok(())),
        Target::Child { parent, key } => {
            let p = h.place(parent@);
            if h.root == 0 {
                Some(Err(Error::Ffi("document has no root")))
            } else if !h.sure(parent@) {
                None
            } else if p == 0 {
                Some(Err(Error::Ffi("parent path not found")))
            } else {
                match h.body(p) {
                    Body::Scalar(_) => Some(
                        Err(Error::TypeMismatch { expected: "mapping or sequence", got: "scalar" }),
                    ),
                    Body::Sequence(items) => if !is_index(key@) {
                        Some(Err(Error::Ffi("invalid sequence index")))
                    } else if !(-items.len() <= signed_value(key@) < items.len()) {
                        Some(Err(Error::Ffi("sequence index out of bounds")))
                    } else {
                        Some(Ok(()))
                    },
                    Body::Mapping(entries) => if h.scarce {
                        None
                    } else if h.spot(p, key@) >= 0 {
                        Some(Ok(()))
                    } else if key@.len() == 0 {
                        None
                    } else if h.find(p, key@) < entries.len() {
                        Some(Err(Error::Ffi("fy_node_mapping_append failed")))
                    } else {
                        Some(Ok(()))
                    },
                }
            }
        },
    }
}

/// Whether a key has to be added, and that it can be is decided: by whether the mapping has a key with
/// that text.
spec fn addable(h: Heap, target: Target) -> bool {
    &&& target matches Target::Child { parent, key }
    &&& !h.scarce
    &&& key@.len() > 0
    &&& h.is_mapping(h.place(parent@))
    &&& h.spot(h.place(parent@), key@) < 0
}

/// Whether a session is on the way to what the document has decided.
spec fn fated<'a>(
    h0: Heap,
    target: Target<'a>,
    step: Step<'a, SetYamlAt<'a>, Result<(), Error>>,
) -> bool {
    match step {
        Step::Done(result) => fate(h0, target) matches Some(r) ==> r == result,
        Step::Ask(s, _) => match s {
            SetYamlAt::Building { .. } => false,
            SetYamlAt::Finding { find, .. } => find == FindNode::Walking {
                missing: "parent path not found",
            } || (find matches FindNode::Rooting { missing, .. } && missing == "parent path not found"),
            SetYamlAt::Failing { error } => fate(h0, target) matches Some(r) ==> r == Err::<
                (),
                Error,
            >(error),
            SetYamlAt::Keying { .. } | SetYamlAt::Appending { .. } => fate(h0, target) is None
                || addable(h0, target),
            SetYamlAt::FreeingKey { .. } => fate(h0, target) is None || fate(h0, target) == Some(
                Err::<(), Error>(Error::Ffi("fy_node_mapping_append failed")),
            ),
            SetYamlAt::Replacing { .. } => fate(h0, target) is None || fate(h0, target) == Some(
                Ok::<(), Error>(()),
            ),
            SetYamlAt::Getting { .. } | SetYamlAt::Peeking { .. } | SetYamlAt::Removing { .. }
            | SetYamlAt::Freeing { .. } | SetYamlAt::Adding { .. }
            | SetYamlAt::Inserting { .. } => fate(h0, target) is None || fate(h0, target) == Some(
                Ok::<(), Error>(()),
            ),
            _ => true,
        },
    }
}

/// A tree that was added does not change what the document has decided.
pub proof fn lemma_parent_found(
    h0: Heap,
    node: usize,
    h: Heap,
    parent: Seq<char>,
    p: usize,
    key: Seq<char>,
)
    requires
        h0.well_formed(),
        h0.grown(node, h),
        h.found(parent, p),
        h0.sure(parent),
    ensures
        h0.root != 0,
        p == h0.place(parent),
        h.place(parent) == p,
        h0.has(p),
        h.nodes[p] == h0.nodes[p],
        h0.is_mapping(p) ==> h0.find(p, key) == h.find(p, key) && h0.spot(p, key) == h.spot(p, key),
{
    h0.lemma_place_grown(node, h, parent);
    if h0.scarce {
        h0.lemma_walk_has(h0.root, segments(parent));
    } else {
        h0.lemma_lead_below(h0.root, parent);
    }
    if h0.is_mapping(p) {
        h0.lemma_find_grown(node, h, p, key);
        h0.lemma_spot_grown(node, h, p, key);
    }
}

proof fn lemma_fated<'a>(
    w: Plan,
    target: Target<'a>,
    s: SetYamlAt<'a>,
    call: Call<'a>,
    h: Heap,
    reply: Reply,
    after: Heap,
)
    requires
        w.valid(),
        setting(w, target, Step::Ask(s, call), h),
        fated(w.before, target, Step::Ask(s, call)),
        h.performs(call, reply, after),
    ensures
        fated(w.before, target, s.resumed(reply)),
{
    match s {
        SetYamlAt::Rooting { set } => {
            if let Attach::Asking { node, .. } = set {
                assert(h.loose(node.node));
            }
        },
        SetYamlAt::Failing { .. } => {},
        SetYamlAt::Finding { .. } | SetYamlAt::Typing { .. } | SetYamlAt::Looking { .. }
        | SetYamlAt::Replacing { .. } | SetYamlAt::Counting { .. } => {
            lemma_fated_on_the_way(w, target, s, call, h, reply, after);
        },
        SetYamlAt::Keying { .. } | SetYamlAt::FreeingKey { .. } => {},
        SetYamlAt::Appending { node, key_node } => {
            if let (Target::Child { parent, key }, Call::MappingAppend { map: p, .. }) = (
                target,
                call,
            ) {
                let h1 = choose|h1: Heap| #[trigger]
                    keyed(w, node, parent@, p, key@, key_node, h1, h);
                h1.lemma_find_grown(key_node, h, p, key@);
                assert(h1.has(node.node));
                if addable(w.before, target) {
                    lemma_parent_found(w.before, node.node, h1, parent@, p, key@);
                    assert(h.is_text(key_node));
                    assert(h.holds_key(p, key_node) <==> w.before.find(p, key@)
                        < w.before.entries(p).len());
                    assert(!h.holds_key(p, key_node) ==> h.takes_pair(p, key_node, node.node));
                }
            }
        },
        _ => {
            if let Target::Child { parent, key } = target {
                lemma_fated_item(w, target, parent@, key, s, call, h, reply, after);
            }
        },
    }
}

proof fn lemma_fated_on_the_way<'a>(
    w: Plan,
    target: Target<'a>,
    s: SetYamlAt<'a>,
    call: Call<'a>,
    h: Heap,
    reply: Reply,
    after: Heap,
)
    requires
        w.valid(),
        s is Finding || s is Typing || s is Looking || s is Replacing || s is Counting,
        setting(w, target, Step::Ask(s, call), h),
        fated(w.before, target, Step::Ask(s, call)),
        h.performs(call, reply, after),
    ensures
        fated(w.before, target, s.resumed(reply)),
{
    if let Target::Child { parent, key } = target {
        let h0 = w.before;
        let sure = h0.root != 0 && h0.sure(parent@);
        match s {
            SetYamlAt::Finding { node, find, .. } => {
                h0.lemma_place_grown(node.node, h, parent@);
            },
            SetYamlAt::Typing { node, parent: p, .. } => {
                if sure {
                    lemma_parent_found(h0, node.node, h, parent@, p, key@);
                }
            },
            SetYamlAt::Looking { node, parent: p, .. } => {
                assert(h.well_formed());
                if sure {
                    lemma_parent_found(h0, node.node, h, parent@, p, key@);
                    let i = h.spot(p, key@);
                    if !h.scarce && i >= 0 {
                        assert(h.pair_at(h.entries(p)[i].pair, p, i));
                    }
                }
            },
            SetYamlAt::Replacing { node } => {
                assert(h.loose(node.node));
            },
            SetYamlAt::Counting { node, parent: p, .. } => {
                assert(h.well_formed());
                assert(h.items(p).len() <= i32::MAX);
                if sure {
                    lemma_parent_found(h0, node.node, h, parent@, p, key@);
                }
            },
            _ => {},
        }
    }
}

proof fn lemma_fated_item<'a>(
    w: Plan,
    target: Target<'a>,
    parent: Seq<char>,
    key: &'a str,
    s: SetYamlAt<'a>,
    call: Call<'a>,
    h: Heap,
    reply: Reply,
    after: Heap,
)
    requires
        w.valid(),
        target matches Target::Child { parent: p0, key: k0 } && p0@ == parent && k0 == key,
        s is Getting || s is Peeking || s is Removing || s is Freeing || s is Adding
            || s is Inserting,
        setting_item(w, parent, key, s, call, h),
        fated(w.before, target, Step::Ask(s, call)),
        h.performs(call, reply, after),
    ensures
        fated(w.before, target, s.resumed(reply)),
{
    match s {
        SetYamlAt::Getting { parent: p, after: next, .. } => {
            h.lemma_item(p, next - 1);
        },
        SetYamlAt::Removing { parent: p, next, .. } => {
            if let Call::SequenceRemove { item, .. } = call {
                let i = choose|i: int| #[trigger]
                    at_index(h, parent, p, key@, i) && item == h.items(p)[i] && next == item_at(
                        h.items(p),
                        i + 1,
                    );
                h.lemma_item(p, i);
            }
        },
        SetYamlAt::Adding { node } => {
            if let Call::SequenceAppend { seq: p, item } = call {
                let (h1, i) = choose|h1: Heap, i: int| #[trigger]
                    item_gone(w, node, parent, p, key@, 0, h1, i, h);
                h1.lemma_item_replaced(p, i, item);
            }
        },
        SetYamlAt::Inserting { node } => {
            if let Call::SequenceInsertBefore { seq: p, mark, item } = call {
                let (h1, i) = choose|h1: Heap, i: int| #[trigger]
                    item_gone(w, node, parent, p, key@, mark, h1, i, h);
                h1.lemma_next_stays(p, i);
                h1.lemma_item_replaced(p, i, item);
                assert(h1.items(p).remove(i)[i] == mark);
                assert(h1.items(p).remove(i).contains(mark));
            }
        },
        _ => {},
    }
}

/// Unless memory runs out, what becomes of setting a value is decided by the snippet and the document: a
/// snippet that libfyaml does not accept is refused, and any other fares as the document decides.
pub proof fn law_set_yaml_outcome<'a>(
    doc: usize,
    target: Target<'a>,
    yaml: &'a str,
    h0: Heap,
    trace: Seq<(Reply, Heap)>,
    result: Result<(), Error>,
    end: Heap,
)
    requires
        h0.well_formed(),
        !h0.scarce,
        encode_utf8(yaml@).len() <= usize::MAX,
        runs(SetYamlAt::started(doc, target, yaml), h0, trace, result, end),
    ensures
        (h0.snippets)(encode_utf8(yaml@)) is None ==> end == h0 && (result matches Err(e)
            && is_fault(h0, encode_utf8(yaml@), e)),
        (h0.snippets)(encode_utf8(yaml@)) is Some ==> (fate(h0, target) matches Some(r) ==> r
            == result),
{
    let (k, outcome, h1) = lemma_parted(
        doc,
        target,
        BuildFromYaml::Copying { doc, yaml },
        Call::MallocCopy { text: yaml },
        h0,
        trace,
        result,
        end,
    );
    law_build_from_yaml(doc, yaml, h0, trace.take(k), outcome, h1);
    if let Ok(node) = outcome {
        law_set_outcome(doc, target, node, h0, h1, trace.skip(k), result, end);
    }
}

/// Once the snippet is built, what becomes of it is decided by the document: the root, the value of
/// a key that is there and an item that is there are always replaced; a key that is not there is
/// added, unless memory runs out; a document without a root, a parent that is not there, a scalar for a
/// parent, and an index that is none or out of bounds are refused, each with its own error.
pub proof fn law_set_outcome<'a>(
    doc: usize,
    target: Target<'a>,
    node: RawNodeHandle,
    h0: Heap,
    h1: Heap,
    trace: Seq<(Reply, Heap)>,
    result: Result<(), Error>,
    end: Heap,
)
    requires
        h0.well_formed(),
        !node.inserted,
        h0.grown(node.node, h1),
        runs(built(doc, target, Ok(node)), h1, trace, result, end),
    ensures
        fate(h0, target) matches Some(r) ==> r == result,
{
    let w = Plan { before: h0, with: h1, node: node.node };
    let inv = |step: Step<'a, SetYamlAt<'a>, Result<(), Error>>, h: Heap|
        setting(w, target, step, h) && fated(h0, target, step);
    assert forall|s: SetYamlAt<'a>, call: Call<'a>, before: Heap, reply: Reply, after: Heap|
        inv(Step::Ask(s, call), before) && #[trigger] before.performs(call, reply, after) implies inv(
        #[trigger] s.resumed(reply),
        after,
    ) by {
        lemma_setting(w, target, s, call, before, reply, after);
        lemma_fated(w, target, s, call, before, reply, after);
    }
    lemma_runs(inv, built(doc, target, Ok(node)), h1, trace, result, end);
}

} // verus!
