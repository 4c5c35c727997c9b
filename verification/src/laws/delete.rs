//! What deleting the node at a path achieves.

use vstd::prelude::*;

use crate::call::{Call, Reply, Session, Step};
use crate::delete::DeleteAt;
use crate::error::Error;
use crate::find::FindNode;
use crate::laws::set_yaml::{
    clear_key, clear_path, held_at, is_pair_for, law_plain_path_leads, plain_path,
};
use crate::model::heap::{item_at, kids, segments, Body, Heap};
use crate::model::shape::lemma_kids_of_mapping;
use crate::path::{is_index, key_part, parent_part, signed_value};
use crate::set_yaml::Target;
use crate::model::world::{lemma_runs, runs, World};

verus! {

/// Whether the `i`-th item of the sequence at `p` is the one at the index `key`.
pub open spec fn is_item_for(h: Heap, p: usize, key: Seq<char>, i: int) -> bool {
    &&& h.is_sequence(p)
    &&& is_index(key)
    &&& 0 <= i < h.items(p).len()
    &&& i == signed_value(key) || i == h.items(p).len() + signed_value(key)
}

/// Whether `h` is `h0` with the pair that `key` has in the mapping at `p` deleted.
pub open spec fn pair_deleted(h0: Heap, p: usize, key: Seq<char>, h: Heap) -> bool {
    exists|i: int| #[trigger] is_pair_for(h0, p, key, i) && h == h0.entry_deleted(p, i)
}

/// Whether `h` is `h0` with the item at the index `key` of the sequence at `p` deleted.
pub open spec fn item_deleted(h0: Heap, p: usize, key: Seq<char>, h: Heap) -> bool {
    exists|i: int| #[trigger] is_item_for(h0, p, key, i) && h == h0.item_deleted(p, i)
}

/// What a deletion leaves behind: the document without the pair or item that the path points at,
/// which is freed; or, when there was nothing to delete or the deletion failed, everything as it
/// was.
pub open spec fn deleted(
    h0: Heap,
    path: Seq<char>,
    key: Seq<char>,
    result: Result<bool, Error>,
    h: Heap,
) -> bool {
    match result {
        Ok(true) => exists|p: usize| #[trigger]
            h0.found(path, p) && (pair_deleted(h0, p, key, h) || item_deleted(h0, p, key, h)),
        Ok(false) => h == h0 && nothing_there(h0, path, key),
        Err(_) => h == h0,
    }
}

/// Whether there is nothing for `key` where `path` leads, as far as that is sure and clear.
pub open spec fn nothing_there(h: Heap, path: Seq<char>, key: Seq<char>) -> bool {
    let p = h.place(path);
    &&& h.sure(path) && clear_key(h, p, key) ==> h.child(p, key) == 0
    &&& !h.scarce && h.is_mapping(p) ==> h.spot(p, key) < 0
}

spec fn pair_to_go(h: Heap, key: Seq<char>, p: usize, pair: usize) -> bool {
    exists|i: int| #[trigger] h.pair_at(pair, p, i) && is_pair_for(h, p, key, i)
}

spec fn key_to_go(h: Heap, key: Seq<char>, p: usize, key_node: usize) -> bool {
    exists|i: int| #[trigger] is_pair_for(h, p, key, i) && h.entries(p)[i].key == key_node
}

spec fn item_to_go(h: Heap, key: Seq<char>, p: usize, item: usize) -> bool {
    exists|i: int| #[trigger] is_item_for(h, p, key, i) && h.items(p)[i] == item
}

spec fn value_out(h0: Heap, path: Seq<char>, key: Seq<char>, node: usize, h: Heap) -> bool {
    exists|p: usize, i: int| #[trigger]
        is_pair_for(h0, p, key, i) && h0.found(path, p) && h0.entries(p)[i].value == node && h
            == h0.without_entry(p, i)
}

spec fn item_out(h0: Heap, path: Seq<char>, key: Seq<char>, node: usize, h: Heap) -> bool {
    exists|p: usize, i: int| #[trigger]
        is_item_for(h0, p, key, i) && h0.found(path, p) && h0.items(p)[i] == node && h
            == h0.without_item(p, i)
}

/// How far a deletion has got.
spec fn deleting<'a>(
    h0: Heap,
    path: Seq<char>,
    key0: &'a str,
    step: Step<'a, DeleteAt<'a>, Result<bool, Error>>,
    h: Heap,
) -> bool {
    match step {
        Step::Done(result) => deleted(h0, path, key0@, result, h),
        Step::Ask(s, call) => match s {
            DeleteAt::Finding { key, find } => {
                &&& h == h0
                &&& key == key0
                &&& match find {
                    FindNode::Rooting { path: rest, .. } => rest@ == path && call is DocumentRoot,
                    FindNode::Walking { .. } => {
                        &&& call matches Call::NodeByPath { node: root, path: rest }
                        &&& root == h.root
                        &&& root != 0
                        &&& rest@ == path
                        &&& path.len() > 0
                    },
                }
            },
            DeleteAt::Typing { key, parent: p } => {
                &&& h == h0
                &&& key == key0
                &&& h0.found(path, p)
                &&& call == Call::NodeGetType { node: p }
            },
            DeleteAt::Looking { parent: p } => {
                &&& h == h0
                &&& h0.found(path, p)
                &&& h0.is_mapping(p)
                &&& call == Call::MappingLookupPairByString { map: p, name: key0 }
            },
            DeleteAt::Keying { parent: p } => {
                &&& h == h0
                &&& h0.found(path, p)
                &&& call matches Call::PairKey { pair }
                &&& pair_to_go(h0, key0@, p, pair)
            },
            DeleteAt::Getting { parent: p } => {
                &&& h == h0
                &&& h0.found(path, p)
                &&& h0.is_sequence(p)
                &&& is_index(key0@)
                &&& call matches Call::SequenceGetByIndex { seq, index }
                &&& seq == p
                &&& index == signed_value(key0@)
            },
            DeleteAt::Removing => h == h0 && match call {
                Call::MappingRemoveByKey { map, key } => h0.found(path, map) && key_to_go(h0, key0@, map, key),
                Call::SequenceRemove { seq, item } => h0.found(path, seq) && item_to_go(h0, key0@, seq, item),
                _ => false,
            },
            DeleteAt::Freeing => {
                &&& call matches Call::NodeFree { node }
                &&& value_out(h0, path, key0@, node, h) || item_out(h0, path, key0@, node, h)
            },
        },
    }
}

proof fn lemma_deleting<'a>(
    h0: Heap,
    path: Seq<char>,
    key: &'a str,
    s: DeleteAt<'a>,
    call: Call<'a>,
    h: Heap,
    reply: Reply,
    after: Heap,
)
    requires
        h0.well_formed(),
        deleting(h0, path, key, Step::Ask(s, call), h),
        h.performs(call, reply, after),
    ensures
        deleting(h0, path, key, s.resumed(reply), after),
{
    match s {
        DeleteAt::Finding { find, .. } => {
            match find {
                FindNode::Rooting { path: rest, .. } => {
                    if h.root != 0 && rest@.len() == 0 {
                        assert(segments(path) == Seq::<Seq<char>>::empty());
                        h.lemma_below_self(h.root);
                        assert(h0.found(path, h.root));
                    } else if h.root == 0 {
                        h.lemma_walk_nowhere(segments(path));
                        h.lemma_lead_nowhere(path);
                    }
                },
                FindNode::Walking { .. } => {
                    let p = reply.pointer_spec();
                    if p != 0 {
                        assert(h0.found(path, p));
                    }
                },
            }
        },
        DeleteAt::Typing { .. } => {},
        DeleteAt::Looking { parent: p } => {
            let pair = reply.pointer_spec();
            if pair != 0 {
                let j = choose|j: int| h.pair_at(pair, p, j) && h.first_of_kind(p, j);
                assert(h.pair_at(pair, p, j));
                if h.plain(key@) {
                    assert(h.pair_at(pair, p, h.find(p, key@) as int));
                }
                if !h.scarce {
                    assert(h.pair_at(pair, p, h.spot(p, key@)));
                }
                assert(is_pair_for(h, p, key@, j));
                assert(pair_to_go(h0, key@, p, pair));
            } else if !h.scarce {
                let i = h.spot(p, key@);
                if i >= 0 {
                    assert(h.pair_at(h.entries(p)[i].pair, p, i));
                }
                assert(nothing_there(h0, path, key@));
            }
        },
        DeleteAt::Keying { parent: p } => {
            if let Call::PairKey { pair } = call {
                let i = choose|i: int| #[trigger] h.pair_at(pair, p, i) && is_pair_for(h, p, key@, i);
                h.lemma_entry_out(p, i);
                assert(is_pair_for(h, p, key@, i) && h.entries(p)[i].key == reply.pointer_spec());
                assert(key_to_go(h0, key@, p, reply.pointer_spec()));
            }
        },
        DeleteAt::Getting { parent: p } => {
            let item = reply.pointer_spec();
            let items = h.items(p);
            let at = signed_value(key@);
            let i = if at < 0 {
                items.len() + at
            } else {
                at
            };
            if 0 <= i < items.len() {
                h.lemma_item(p, i);
                assert(is_item_for(h, p, key@, i));
                assert(item_to_go(h0, key@, p, item));
            } else {
                assert(item == 0);
                assert(h.step(p, key@) == 0);
                assert(nothing_there(h0, path, key@));
            }
        },
        DeleteAt::Removing => {
            match call {
                Call::MappingRemoveByKey { map: p, key: k } => {
                    let i = choose|i: int| #[trigger]
                        is_pair_for(h, p, key@, i) && h.entries(p)[i].key == k;
                    h.lemma_entry_out(p, i);
                    assert(is_pair_for(h0, p, key@, i) && h0.found(path, p));
                    if reply.pointer_spec() != 0 {
                        assert(value_out(h0, path, key@, reply.pointer_spec(), after));
                    } else {
                        assert(nothing_there(h0, path, key@));
                    }
                },
                Call::SequenceRemove { seq: p, item } => {
                    let i = choose|i: int| #[trigger]
                        is_item_for(h, p, key@, i) && h.items(p)[i] == item;
                    h.lemma_item(p, i);
                    assert(is_item_for(h0, p, key@, i) && h0.found(path, p));
                    assert(item_out(h0, path, key@, item, after));
                },
                _ => {},
            }
        },
        DeleteAt::Freeing => {
            if let Call::NodeFree { node } = call {
                if value_out(h0, path, key@, node, h) {
                    let (p, i) = choose|p: usize, i: int| #[trigger]
                        is_pair_for(h0, p, key@, i) && h0.found(path, p) && h0.entries(p)[i].value
                            == node && h == h0.without_entry(p, i);
                    h0.lemma_entry_out(p, i);
                    assert(is_pair_for(h0, p, key@, i) && after == h0.entry_deleted(p, i));
                    assert(h0.found(path, p) && pair_deleted(h0, p, key@, after));
                } else {
                    let (p, i) = choose|p: usize, i: int| #[trigger]
                        is_item_for(h0, p, key@, i) && h0.found(path, p) && h0.items(p)[i] == node
                            && h == h0.without_item(p, i);
                    h0.lemma_item_out(p, i);
                    assert(is_item_for(h0, p, key@, i) && after == h0.item_deleted(p, i));
                    assert(h0.found(path, p) && item_deleted(h0, p, key@, after));
                }
            }
        },
    }
}

/// The document root cannot be deleted, and the attempt changes nothing. Below the root a deletion
/// takes out and frees exactly the pair or item that the path points at, or changes nothing.
pub proof fn law_delete_at<'a>(
    doc: usize,
    target: Target<'a>,
    h0: Heap,
    trace: Seq<(Reply, Heap)>,
    result: Result<bool, Error>,
    end: Heap,
)
    requires
        h0.well_formed(),
        runs(DeleteAt::started(doc, target), h0, trace, result, end),
    ensures
        target is Root ==> result is Err && end == h0,
        target matches Target::Child { parent, key } ==> deleted(
            h0,
            parent@,
            key@,
            result,
            end,
        ),
        end.well_formed(),
        end.diag == h0.diag,
{
    if let Target::Child { parent, key } = target {
        let inv = |step: Step<'a, DeleteAt<'a>, Result<bool, Error>>, h: Heap|
            deleting(h0, parent@, key, step, h);
        assert forall|s: DeleteAt<'a>, call: Call<'a>, before: Heap, reply: Reply, after: Heap|
            inv(Step::Ask(s, call), before) && #[trigger] before.performs(
                call,
                reply,
                after,
            ) implies inv(#[trigger] s.resumed(reply), after) by {
            lemma_deleting(h0, parent@, key, s, call, before, reply, after);
        }
        lemma_runs(inv, DeleteAt::started(doc, target), h0, trace, result, end);
        if result == Ok::<bool, Error>(true) {
            let p = choose|p: usize| #[trigger]
                h0.found(parent@, p) && (pair_deleted(h0, p, key@, end) || item_deleted(
                    h0,
                    p,
                    key@,
                    end,
                ));
            if pair_deleted(h0, p, key@, end) {
                let i = choose|i: int| #[trigger]
                    is_pair_for(h0, p, key@, i) && end == h0.entry_deleted(p, i);
                h0.lemma_entry_deleted_shape(p, i);
            } else {
                let i = choose|i: int| #[trigger]
                    is_item_for(h0, p, key@, i) && end == h0.item_deleted(p, i);
                h0.lemma_item_deleted_shape(p, i);
            }
        }
    }
}

/// A deletion that does not fail says whether something stood at the path; for a path of plain steps,
/// whether it led to a node.
pub proof fn law_delete_reports<'a>(
    doc: usize,
    target: Target<'a>,
    path: Seq<char>,
    h0: Heap,
    trace: Seq<(Reply, Heap)>,
    was_there: bool,
    end: Heap,
)
    requires
        h0.well_formed(),
        target.denotes(path),
        clear_path(h0, path),
        runs(DeleteAt::started(doc, target), h0, trace, Ok(was_there), end),
    ensures
        was_there <==> held_at(h0, path) != 0,
        plain_path(h0, path) ==> (was_there <==> h0.walk(h0.root, segments(path)) != 0),
{
    if plain_path(h0, path) {
        law_plain_path_leads(h0, path);
    }
    law_delete_at(doc, target, h0, trace, Ok(was_there), end);
    if let Target::Child { parent, key } = target {
        let q = h0.place(parent@);
        if was_there {
            let p = choose|p: usize| #[trigger]
                h0.found(parent@, p) && (pair_deleted(h0, p, key@, end) || item_deleted(
                    h0,
                    p,
                    key@,
                    end,
                ));
            assert(p == q);
            if pair_deleted(h0, p, key@, end) {
                let i = choose|i: int| #[trigger]
                    is_pair_for(h0, p, key@, i) && end == h0.entry_deleted(p, i);
                h0.lemma_entry_out(p, i);
            } else {
                let i = choose|i: int| #[trigger]
                    is_item_for(h0, p, key@, i) && end == h0.item_deleted(p, i);
                h0.lemma_item(p, i);
                h0.lemma_item(p, signed_position(h0.items(p), key@));
            }
        }
    }
}

/// The position that an index selects, counted from the end when it is negative.
spec fn signed_position(items: Seq<usize>, key: Seq<char>) -> int {
    if signed_value(key) < 0 {
        items.len() + signed_value(key)
    } else {
        signed_value(key)
    }
}

/// Whether no two keys of the mapping at `p` are the scalar `key`.
pub open spec fn unique_key(h: Heap, p: usize, key: Seq<char>) -> bool {
    forall|i: int, j: int|
        0 <= i < h.entries(p).len() && 0 <= j < h.entries(p).len() && #[trigger] h.named(
            h.entries(p)[i],
            key,
        ) && #[trigger] h.named(h.entries(p)[j], key) ==> i == j
}

/// A key that was deleted is gone: nothing stands at the path afterwards, and it leads nowhere, unless
/// the mapping had the key twice.
pub proof fn law_deleted_is_gone<'a>(
    doc: usize,
    target: Target<'a>,
    path: Seq<char>,
    h0: Heap,
    trace: Seq<(Reply, Heap)>,
    end: Heap,
)
    requires
        h0.well_formed(),
        target.denotes(path),
        clear_path(h0, path),
        h0.is_mapping(h0.place(parent_part(path))),
        unique_key(h0, h0.place(parent_part(path)), key_part(path)),
        runs(DeleteAt::started(doc, target), h0, trace, Ok(true), end),
    ensures
        held_at(end, path) == 0,
        plain_path(h0, path) ==> end.walk(end.root, segments(path)) == 0,
{
    law_delete_at(doc, target, h0, trace, Ok(true), end);
    if let Target::Child { parent, key } = target {
        let p = choose|p: usize| #[trigger]
            h0.found(parent@, p) && (pair_deleted(h0, p, key@, end) || item_deleted(
                h0,
                p,
                key@,
                end,
            ));
        let i = choose|i: int| #[trigger]
            is_pair_for(h0, p, key@, i) && end == h0.entry_deleted(p, i);
        let entries = h0.entries(p);
        let e = entries[i];
        let left = entries.remove(i);
        let out = h0.without_entry(p, i);
        h0.lemma_entry_out(p, i);
        h0.lemma_below_self(p);
        h0.lemma_below_kid(p, p, e.key);
        h0.lemma_below_kid(p, p, e.value);
        assert(end.has(p) && end.body(p) == Body::Mapping(left));
        assert forall|m: usize| #[trigger] h0.has(m) && !h0.below(p, m) implies end.has(m)
            && end.body(m) == h0.body(m) && end.nodes[m].style == h0.nodes[m].style && end.nodes[m].tag
            == h0.nodes[m].tag by {
            if h0.below(e.key, m) {
                h0.lemma_below_below(p, e.key, m);
            }
            if h0.below(e.value, m) {
                h0.lemma_below_below(p, e.value, m);
            }
            h0.lemma_below_self(e.value);
        }
        h0.lemma_place_kept(p, end, parent@);
        h0.lemma_find_passed(entries, key@, 0);
        lemma_kids_of_mapping(entries);
        assert forall|j: int| 0 <= j < left.len() implies !end.named(
            #[trigger] left[j],
            key@,
        ) by {
            let t = if j < i {
                j
            } else {
                j + 1
            };
            let k = entries[t].key;
            assert(left[j] == entries[t]);
            assert(kids(h0.body(p))[t] == k);
            assert(h0.kid(p, k));
            h0.lemma_not_below_kid(p, k);
            h0.lemma_below_self(k);
            assert(kids(h0.body(p))[t] != kids(h0.body(p))[i]);
            assert(kids(h0.body(p))[t] != kids(h0.body(p))[entries.len() + i]);
            h0.lemma_siblings(p, e.key, k);
            h0.lemma_siblings(p, e.value, k);
            assert(end.has(k) && end.body(k) == h0.body(k));
            assert(h0.named(entries[i], key@));
            if h0.named(entries[t], key@) {
                assert(t == i);
            }
        }
        end.lemma_find_at(left, key@, 0, left.len());
        assert(end.child(p, key@) == 0);
        if plain_path(h0, path) {
            h0.lemma_place_plain(parent@);
            h0.lemma_walk_kept(p, end, h0.root, segments(parent@));
            assert(plain_path(end, path));
            law_plain_path_leads(end, path);
        }
    }
}

/// What becomes of a deletion, as far as the document decides it alone. Where memory is scarce it is
/// left open for a parent that is not reached by plain steps, and for any key of a mapping.
pub open spec fn fate(h: Heap, target: Target) -> Option<Result<bool, Error>> {
    match target {
        Target::Root => Some(Err(Error::Ffi("cannot delete root via delete_at"))),
        Target::Child { parent, key } => {
            let p = h.place(parent@);
            if h.root == 0 {
                Some(Ok(false))
            } else if !h.sure(parent@) {
                None
            } else if p == 0 {
                Some(Ok(false))
            } else {
                match h.body(p) {
                    Body::Scalar(_) => Some(Ok(false)),
                    Body::Sequence(items) => Some(
                        Ok(is_index(key@) && item_at(items, signed_value(key@)) != 0),
                    ),
                    Body::Mapping(entries) => if h.scarce {
                        None
                    } else {
                        Some(Ok(h.spot(p, key@) >= 0))
                    },
                }
            }
        },
    }
}

/// Whether a deletion is on the way to what the document has decided.
spec fn fated<'a>(
    h0: Heap,
    target: Target<'a>,
    step: Step<'a, DeleteAt<'a>, Result<bool, Error>>,
) -> bool {
    match step {
        Step::Done(result) => fate(h0, target) matches Some(r) ==> r == result,
        Step::Ask(s, _) => match s {
            DeleteAt::Keying { .. } | DeleteAt::Removing | DeleteAt::Freeing => fate(
                h0,
                target,
            ) is None || fate(h0, target) == Some(Ok::<bool, Error>(true)),
            _ => true,
        },
    }
}

proof fn lemma_fated<'a>(
    h0: Heap,
    target: Target<'a>,
    parent: Seq<char>,
    key: &'a str,
    s: DeleteAt<'a>,
    call: Call<'a>,
    h: Heap,
    reply: Reply,
    after: Heap,
)
    requires
        h0.well_formed(),
        target matches Target::Child { parent: p0, key: k0 } && p0@ == parent && k0 == key,
        deleting(h0, parent, key, Step::Ask(s, call), h),
        fated(h0, target, Step::Ask(s, call)),
        h.performs(call, reply, after),
    ensures
        fated(h0, target, s.resumed(reply)),
{
    match s {
        DeleteAt::Finding { .. } => {},
        DeleteAt::Typing { .. } => {},
        DeleteAt::Looking { parent: p } => {
            let i = h.spot(p, key@);
            if !h.scarce && i >= 0 {
                assert(h.pair_at(h.entries(p)[i].pair, p, i));
            }
        },
        DeleteAt::Keying { parent: p } => {
            if let Call::PairKey { pair } = call {
                let i = choose|i: int| #[trigger] h.pair_at(pair, p, i) && is_pair_for(h, p, key@, i);
                h.lemma_entry_out(p, i);
            }
        },
        DeleteAt::Getting { parent: p } => {},
        DeleteAt::Removing => {
            match call {
                Call::MappingRemoveByKey { map: p, key: k } => {
                    let i = choose|i: int| #[trigger]
                        is_pair_for(h, p, key@, i) && h.entries(p)[i].key == k;
                    h.lemma_entry_out(p, i);
                },
                Call::SequenceRemove { seq: p, item } => {
                    let i = choose|i: int| #[trigger]
                        is_item_for(h, p, key@, i) && h.items(p)[i] == item;
                    h.lemma_item(p, i);
                },
                _ => {},
            }
        },
        DeleteAt::Freeing => {},
    }
}

/// What becomes of a deletion is decided by the document: a key or an item that is there is deleted,
/// and anything else below the root is reported as not there: a missing key, an index that is out of
/// bounds or none at all, a scalar for a parent, a parent that is not there, and a document without a
/// root. Only the root itself is refused.
pub proof fn law_delete_outcome<'a>(
    doc: usize,
    target: Target<'a>,
    h0: Heap,
    trace: Seq<(Reply, Heap)>,
    result: Result<bool, Error>,
    end: Heap,
)
    requires
        h0.well_formed(),
        runs(DeleteAt::started(doc, target), h0, trace, result, end),
    ensures
        fate(h0, target) matches Some(r) ==> r == result,
{
    if let Target::Child { parent, key } = target {
        let inv = |step: Step<'a, DeleteAt<'a>, Result<bool, Error>>, h: Heap|
            deleting(h0, parent@, key, step, h) && fated(h0, target, step);
        assert forall|s: DeleteAt<'a>, call: Call<'a>, before: Heap, reply: Reply, after: Heap|
            inv(Step::Ask(s, call), before) && #[trigger] before.performs(
                call,
                reply,
                after,
            ) implies inv(#[trigger] s.resumed(reply), after) by {
            lemma_deleting(h0, parent@, key, s, call, before, reply, after);
            lemma_fated(h0, target, parent@, key, s, call, before, reply, after);
        }
        lemma_runs(inv, DeleteAt::started(doc, target), h0, trace, result, end);
    }
}

} // verus!
