//! What the functions that edit a document do to it.

use vstd::prelude::*;
use vstd::utf8::{encode_utf8, is_ascii_chars_encode_utf8};

use crate::assemble::{Attach, MapInsert, SeqAppendAt};
use crate::call::{Reply, Step};
use crate::delete::DeleteAt;
use crate::document::Document;
use crate::editor::Editor;
use crate::error::Error;
use crate::handle::RawNodeHandle;
use crate::laws::asking::is_style;
use crate::laws::assemble::{
    append_fate, appended, appended_at, inserted, law_map_insert, law_seq_append,
    law_seq_append_at, law_set_root,
};
use crate::laws::delete::{
    deleted, is_item_for, item_deleted, law_delete_at, law_delete_outcome, pair_deleted,
};
use crate::laws::make::{law_make_node, law_set_style, law_set_tag, tagged};
use crate::laws::notation::{law_index_notation, law_target_of_path, zeros};
use crate::laws::read::law_at_path;
use crate::laws::set_yaml::{
    fate, law_set_yaml_at, law_set_yaml_outcome, lemma_parent_found, put_at, put_under, tree_built, value_set,
};
use crate::laws::snippet::{is_fault, law_build_from_yaml, node_built};
use crate::laws::sort::{law_sort_at, sort_fate, sorted_at};
use crate::make::{MakeNode, SetStyle, SetTag};
use crate::model::heap::{look_alike, whole_look, Body, Heap};
use crate::model::world::{lemma_runs, runs};
use crate::node::NodeStyle;
use crate::node_ref::{Lookup, LookupAt, NodeRef};
use crate::path::{is_index, is_root_path, lemma_last_slash_unique, signed_value};
use crate::set_yaml::{SetYamlAt, Target};
use crate::snippet::BuildFromYaml;
use crate::sort::{SortAt, SortKind};
use crate::text::decimal;

verus! {

/// The document that an editor is on.
pub open spec fn edited<'doc>(editor: Editor<'doc>) -> Document {
    *editor.doc
}

/// An editor is on the document that it was made for.
pub proof fn law_edit<'doc>(doc: &'doc mut Document, editor: Editor<'doc>)
    requires
        call_ensures(Document::edit, (doc,), editor),
    ensures
        edited(editor) == *old(doc),
{
}

/// The same for an editor that is made of the document.
pub proof fn law_new_editor<'doc>(doc: &'doc mut Document, editor: Editor<'doc>)
    requires
        call_ensures(Editor::<'doc>::new, (doc,), editor),
    ensures
        edited(editor) == *old(doc),
{
}

/// The address that an editor works on is that of its document.
pub proof fn law_doc_ptr<'doc>(editor: Editor<'doc>, r: usize)
    requires
        call_ensures(Editor::<'doc>::doc_ptr, (&editor,), r),
    ensures
        r == edited(editor).ptr,
{
}

/// The root of the document, if it has one, can be looked at while editing.
pub proof fn law_edit_root<'a, 's, 'doc>(
    e: &'s Editor<'doc>,
    step: Step<'a, Lookup<'s>, Option<NodeRef<'s>>>,
    h0: Heap,
    trace: Seq<(Reply, Heap)>,
    result: Option<NodeRef<'s>>,
    end: Heap,
)
    requires
        call_ensures(Editor::<'doc>::root, (e,), step),
        runs(step, h0, trace, result, end),
    ensures
        end == h0,
        match result {
            Some(n) => h0.root != 0 && n.node == h0.root && *n.doc == edited(*e),
            None => h0.root == 0,
        },
{
    let inv = |s: Step<'a, Lookup<'s>, Option<NodeRef<'s>>>, h: Heap|
        h == h0 && match s {
            Step::Ask(_, _) => s == step,
            Step::Done(r) => match r {
                Some(n) => h0.root != 0 && n.node == h0.root && *n.doc == edited(*e),
                None => h0.root == 0,
            },
        };
    lemma_runs(inv, step, h0, trace, result, end);
}

/// What a path leads to can be looked at while editing.
pub proof fn law_edit_at_path<'a, 's, 'doc>(
    e: &'s Editor<'doc>,
    path: &'a str,
    step: Step<'a, LookupAt<'s, 'a>, Option<NodeRef<'s>>>,
    h0: Heap,
    trace: Seq<(Reply, Heap)>,
    result: Option<NodeRef<'s>>,
    end: Heap,
)
    requires
        h0.well_formed(),
        call_ensures(Editor::<'doc>::at_path, (e, path), step),
        runs(step, h0, trace, result, end),
    ensures
        end == h0,
        h0.root == 0 ==> result is None,
        h0.root != 0 && h0.sure(path@) ==> match result {
            Some(n) => n.node == h0.place(path@) && n.node != 0 && *n.doc == edited(*e),
            None => h0.place(path@) == 0,
        },
{
    law_at_path(&edited(*e), path, h0, trace, result, end);
}

/// A path of a parent, a slash and a key without slashes points at the key under the parent.
proof fn lemma_target<'a>(target: Target<'a>, path: Seq<char>, parent: Seq<char>, key: Seq<char>)
    requires
        target.denotes(path),
        path == parent + seq!['/'] + key,
        !key.contains('/'),
        key.len() > 0,
    ensures
        target matches Target::Child { parent: p, key: k } && p@ == parent && k@ == key,
{
    assert(path.len() == parent.len() + 1 + key.len());
    assert(!is_root_path(path));
    assert(path[parent.len() as int] == '/');
    assert forall|i: int| parent.len() < i < path.len() implies path[i] != '/' by {
        assert(path[i] == key[i - parent.len() - 1]);
        assert(key.contains(key[i - parent.len() - 1]));
    }
    lemma_last_slash_unique(path, parent.len() as int);
    assert(path.subrange(0, parent.len() as int) =~= parent);
    assert(path.subrange(parent.len() as int + 1, path.len() as int) =~= key);
    if parent.len() == 0 {
        assert(parent =~= Seq::<char>::empty());
    }
}

/// An index in its decimal notation, after a minus sign if it is to be counted from the end.
pub open spec fn index_text(minus: bool, n: nat) -> Seq<char> {
    if minus {
        seq!['-'] + decimal(n)
    } else {
        decimal(n)
    }
}

/// An index has no slash in it, and denotes the number that is written.
proof fn lemma_index_text(minus: bool, n: nat)
    ensures
        index_text(minus, n).len() > 0,
        !index_text(minus, n).contains('/'),
        signed_value(index_text(minus, n)) == if minus {
            -n
        } else {
            n as int
        },
        is_index(index_text(minus, n)) <==> n <= if minus {
            0x8000_0000nat
        } else {
            0x7fff_ffffnat
        },
{
    law_index_notation(0, n);
    assert(zeros(0) + decimal(n) =~= decimal(n));
    lemma_digits(n);
    let s = index_text(minus, n);
    assert forall|i: int| 0 <= i < s.len() implies s[i] != '/' by {
        if minus && i > 0 {
            assert(s[i] == decimal(n)[i - 1]);
        }
    }
}

proof fn lemma_digits(n: nat)
    ensures
        decimal(n).len() > 0,
        forall|i: int| 0 <= i < decimal(n).len() ==> '0' <= #[trigger] decimal(n)[i] <= '9',
    decreases n,
{
    if n >= 10 {
        lemma_digits(n / 10);
        let t = decimal(n / 10);
        assert forall|i: int| 0 <= i < decimal(n).len() implies '0' <= #[trigger] decimal(
            n,
        )[i] <= '9' by {
            if i < t.len() {
                assert(decimal(n)[i] == t[i]);
            }
        }
    }
}

/// Setting the item at an index puts the value in its place, and frees what was there, for every index
/// from minus the number of items up to, and without, that number; a negative one counts from the end.
/// Any other index that fits in 32 bits is out of bounds, and one that does not fit is no index;
/// nothing changes then.
pub proof fn law_edit_set_item<'a, 'doc>(
    e: &mut Editor<'doc>,
    path: &'a str,
    parent: Seq<char>,
    minus: bool,
    n: nat,
    yaml: &'a str,
    step: Step<'a, SetYamlAt<'a>, Result<(), Error>>,
    h0: Heap,
    trace: Seq<(Reply, Heap)>,
    result: Result<(), Error>,
    end: Heap,
)
    requires
        h0.well_formed(),
        !h0.scarce,
        h0.root != 0,
        h0.is_sequence(h0.place(parent)),
        path@ == parent + seq!['/'] + index_text(minus, n),
        encode_utf8(yaml@).len() <= usize::MAX,
        (h0.snippets)(encode_utf8(yaml@)) is Some,
        call_ensures(Editor::<'doc>::set_yaml_at, (e, path, yaml), step),
        runs(step, h0, trace, result, end),
    ensures
        *final(e) == *old(e),
        ({
            let p = h0.place(parent);
            let count = h0.items(p).len();
            &&& (!minus || n == 0) && n < count ==> result is Ok && exists|node: usize, h1: Heap| #[trigger]
                tree_built(h0, encode_utf8(yaml@), node, h1) && end == h1.with_item_replaced(
                    p,
                    n as int,
                    node,
                )
            &&& minus && 0 < n <= count ==> result is Ok && exists|node: usize, h1: Heap| #[trigger]
                tree_built(h0, encode_utf8(yaml@), node, h1) && end == h1.with_item_replaced(
                    p,
                    count - n,
                    node,
                )
            &&& (!minus || n == 0) && count <= n <= 0x7fff_ffff ==> end == h0 && result == Err::<(), Error>(
                Error::Ffi("sequence index out of bounds"),
            )
            &&& minus && count < n <= 0x8000_0000 ==> end == h0 && result == Err::<(), Error>(
                Error::Ffi("sequence index out of bounds"),
            )
            &&& minus && n > 0x8000_0000 || !minus && n > 0x7fff_ffff ==> end == h0 && result == Err::<
                (),
                Error,
            >(Error::Ffi("invalid sequence index"))
        }),
{
    let key = index_text(minus, n);
    lemma_index_text(minus, n);
    let doc = old(e).doc.ptr;
    let target = choose|target: Target<'a>| #[trigger]
        target.denotes(path@) && step == SetYamlAt::started(doc, target, yaml);
    lemma_target(target, path@, parent, key);
    law_set_yaml_at(doc, target, yaml, h0, trace, result, end);
    law_set_yaml_outcome(doc, target, yaml, h0, trace, result, end);
    assert(h0.place(parent) != 0);
    if result is Ok {
        let (node, h1) = choose|node: usize, h1: Heap| #[trigger]
            tree_built(h0, encode_utf8(yaml@), node, h1) && put_at(
                h1,
                target,
                node,
                end,
            );
        let p = choose|p: usize| #[trigger]
            h1.found(parent, p) && put_under(h1, p, key, node, end);
        lemma_parent_found(h0, node, h1, parent, p, key);
        assert(tree_built(h0, encode_utf8(yaml@), node, h1));
    }
}

/// Deleting the item at an index takes it out and frees it, for every index from minus the number of
/// items up to, and without, that number; a negative one counts from the end. With any other index
/// there is nothing to delete, and nothing changes.
pub proof fn law_edit_delete_item<'a, 'doc>(
    e: &mut Editor<'doc>,
    path: &'a str,
    parent: Seq<char>,
    minus: bool,
    n: nat,
    step: Step<'a, DeleteAt<'a>, Result<bool, Error>>,
    h0: Heap,
    trace: Seq<(Reply, Heap)>,
    result: Result<bool, Error>,
    end: Heap,
)
    requires
        h0.well_formed(),
        !h0.scarce,
        h0.root != 0,
        h0.is_sequence(h0.place(parent)),
        path@ == parent + seq!['/'] + index_text(minus, n),
        call_ensures(Editor::<'doc>::delete_at, (e, path), step),
        runs(step, h0, trace, result, end),
    ensures
        *final(e) == *old(e),
        ({
            let p = h0.place(parent);
            let count = h0.items(p).len();
            &&& (!minus || n == 0) && n < count ==> result == Ok::<bool, Error>(true) && end == h0.item_deleted(
                p,
                n as int,
            )
            &&& minus && 0 < n <= count ==> result == Ok::<bool, Error>(true) && end
                == h0.item_deleted(p, count - n)
            &&& minus && n > count || (!minus || n == 0) && n >= count ==> result == Ok::<bool, Error>(false)
                && end == h0
        }),
{
    let key = index_text(minus, n);
    lemma_index_text(minus, n);
    let doc = old(e).doc.ptr;
    let target = choose|target: Target<'a>| #[trigger]
        target.denotes(path@) && step == DeleteAt::started(doc, target);
    lemma_target(target, path@, parent, key);
    law_delete_at(doc, target, h0, trace, result, end);
    law_delete_outcome(doc, target, h0, trace, result, end);
    let p = h0.place(parent);
    assert(p != 0);
    let count = h0.items(p).len();
    assert(count <= i32::MAX);
    let at = if minus && n > 0 {
        count - n
    } else {
        n as int
    };
    if 0 <= at < count {
        h0.lemma_item(p, at);
    }
    if result == Ok::<bool, Error>(true) {
        let q = choose|q: usize| #[trigger]
            h0.found(parent, q) && (pair_deleted(h0, q, key, end)
                || item_deleted(h0, q, key, end));
        assert(q == p);
        let i = choose|i: int| #[trigger]
            is_item_for(h0, p, key, i) && end == h0.item_deleted(p, i);
    }
}

/// Setting a value puts the tree that libfyaml makes of the snippet where the path points, or changes
/// nothing and says why.
pub proof fn law_edit_set_yaml_at<'a, 'doc>(
    e: &mut Editor<'doc>,
    path: &'a str,
    yaml: &'a str,
    step: Step<'a, SetYamlAt<'a>, Result<(), Error>>,
    h0: Heap,
    trace: Seq<(Reply, Heap)>,
    result: Result<(), Error>,
    end: Heap,
)
    requires
        h0.well_formed(),
        encode_utf8(yaml@).len() <= usize::MAX,
        call_ensures(Editor::<'doc>::set_yaml_at, (e, path, yaml), step),
        runs(step, h0, trace, result, end),
    ensures
        *final(e) == *old(e),
        end.well_formed(),
        end.diag == h0.diag,
        exists|target: Target<'a>| #[trigger]
            target.denotes(path@) && value_set(h0, encode_utf8(yaml@), target, result, end) && (
            !h0.scarce && (h0.snippets)(encode_utf8(yaml@)) is Some ==> (fate(
                h0,
                target,
            ) matches Some(r) ==> r == result)),
        (h0.snippets)(encode_utf8(yaml@)) is None ==> result is Err,
        !h0.scarce && (h0.snippets)(encode_utf8(yaml@)) is None ==> (result matches Err(error)
            && is_fault(h0, encode_utf8(yaml@), error)),
{
    let doc = old(e).doc.ptr;
    let target = choose|target: Target<'a>| #[trigger]
        target.denotes(path@) && step == SetYamlAt::started(doc, target, yaml);
    law_set_yaml_at(doc, target, yaml, h0, trace, result, end);
    if !h0.scarce {
        law_set_yaml_outcome(doc, target, yaml, h0, trace, result, end);
    }
    assert(target.denotes(path@));
}

/// Deleting takes out and frees what the path points at, or changes nothing.
pub proof fn law_edit_delete_at<'a, 'doc>(
    e: &mut Editor<'doc>,
    path: &'a str,
    step: Step<'a, DeleteAt<'a>, Result<bool, Error>>,
    h0: Heap,
    trace: Seq<(Reply, Heap)>,
    result: Result<bool, Error>,
    end: Heap,
)
    requires
        h0.well_formed(),
        call_ensures(Editor::<'doc>::delete_at, (e, path), step),
        runs(step, h0, trace, result, end),
    ensures
        *final(e) == *old(e),
        end.well_formed(),
        end.diag == h0.diag,
        path@.len() == 0 || (path@.len() == 1 && path@[0] == '/') ==> end == h0 && result == Err::<
            bool,
            Error,
        >(Error::Ffi("cannot delete root via delete_at")),
        exists|target: Target<'a>| #[trigger]
            target.denotes(path@) && (crate::laws::delete::fate(h0, target) matches Some(r) ==> r == result) && (
            target matches Target::Child { parent, key } ==> deleted(
                h0,
                parent@,
                key@,
                result,
                end,
            )),
{
    let doc = old(e).doc.ptr;
    let target = choose|target: Target<'a>| #[trigger]
        target.denotes(path@) && step == DeleteAt::started(doc, target);
    law_delete_at(doc, target, h0, trace, result, end);
    law_delete_outcome(doc, target, h0, trace, result, end);
    law_target_of_path(path, target);
    assert(target.denotes(path@));
}

/// Building a node from a snippet adds the tree that libfyaml makes of it, detached, or changes nothing
/// and says why.
pub proof fn law_edit_build_from_yaml<'a, 'doc>(
    e: &mut Editor<'doc>,
    yaml: &'a str,
    step: Step<'a, BuildFromYaml<'a>, Result<RawNodeHandle, Error>>,
    h0: Heap,
    trace: Seq<(Reply, Heap)>,
    result: Result<RawNodeHandle, Error>,
    end: Heap,
)
    requires
        encode_utf8(yaml@).len() <= usize::MAX,
        call_ensures(Editor::<'doc>::build_from_yaml, (e, yaml), step),
        runs(step, h0, trace, result, end),
    ensures
        *final(e) == *old(e),
        end.diag == h0.diag,
        node_built(h0, encode_utf8(yaml@), result, end),
        !h0.scarce ==> (result is Ok <==> (h0.snippets)(encode_utf8(yaml@)) is Some),
{
    law_build_from_yaml(old(e).doc.ptr, yaml, h0, trace, result, end);
}

/// Building a null adds what libfyaml makes of the word.
pub proof fn law_edit_build_null<'a, 'doc>(
    e: &mut Editor<'doc>,
    step: Step<'a, BuildFromYaml<'a>, Result<RawNodeHandle, Error>>,
    h0: Heap,
    trace: Seq<(Reply, Heap)>,
    result: Result<RawNodeHandle, Error>,
    end: Heap,
)
    requires
        call_ensures(Editor::<'doc>::build_null, (e,), step),
        runs(step, h0, trace, result, end),
    ensures
        *final(e) == *old(e),
        end.diag == h0.diag,
        node_built(h0, encode_utf8(seq!['n', 'u', 'l', 'l']), result, end),
{
    reveal_strlit("null");
    assert("null"@ =~= seq!['n', 'u', 'l', 'l']);
    is_ascii_chars_encode_utf8("null"@);
    law_build_from_yaml(old(e).doc.ptr, "null", h0, trace, result, end);
}

/// Making a scalar adds it, detached, with just the given text; it fails only where memory is scarce.
pub proof fn law_edit_build_scalar<'a, 'doc>(
    e: &mut Editor<'doc>,
    value: &'a str,
    step: Step<'a, MakeNode, Result<RawNodeHandle, Error>>,
    h0: Heap,
    trace: Seq<(Reply, Heap)>,
    result: Result<RawNodeHandle, Error>,
    end: Heap,
)
    requires
        call_ensures(Editor::<'doc>::build_scalar, (e, value), step),
        runs(step, h0, trace, result, end),
    ensures
        *final(e) == *old(e),
        match result {
            Ok(node) => !node.inserted && h0.grown(node.node, end) && end.body(node.node)
                == Body::Scalar(value@),
            Err(_) => h0.scarce && end == h0,
        },
{
    if let Step::Ask(s, call) = step {
        law_make_node(s.message, call, h0, trace, result, end);
    }
}

/// Making a sequence adds an empty one, detached; it fails only where memory is scarce.
pub proof fn law_edit_build_sequence<'a, 'doc>(
    e: &mut Editor<'doc>,
    step: Step<'a, MakeNode, Result<RawNodeHandle, Error>>,
    h0: Heap,
    trace: Seq<(Reply, Heap)>,
    result: Result<RawNodeHandle, Error>,
    end: Heap,
)
    requires
        call_ensures(Editor::<'doc>::build_sequence, (e,), step),
        runs(step, h0, trace, result, end),
    ensures
        *final(e) == *old(e),
        match result {
            Ok(node) => !node.inserted && h0.grown(node.node, end) && end.body(node.node)
                == Body::Sequence(Seq::empty()),
            Err(_) => h0.scarce && end == h0,
        },
{
    if let Step::Ask(s, call) = step {
        law_make_node(s.message, call, h0, trace, result, end);
    }
}

/// Making a mapping adds an empty one, detached; it fails only where memory is scarce.
pub proof fn law_edit_build_mapping<'a, 'doc>(
    e: &mut Editor<'doc>,
    step: Step<'a, MakeNode, Result<RawNodeHandle, Error>>,
    h0: Heap,
    trace: Seq<(Reply, Heap)>,
    result: Result<RawNodeHandle, Error>,
    end: Heap,
)
    requires
        call_ensures(Editor::<'doc>::build_mapping, (e,), step),
        runs(step, h0, trace, result, end),
    ensures
        *final(e) == *old(e),
        match result {
            Ok(node) => !node.inserted && h0.grown(node.node, end) && end.body(node.node)
                == Body::Mapping(Seq::empty()),
            Err(_) => h0.scarce && end == h0,
        },
{
    if let Step::Ask(s, call) = step {
        law_make_node(s.message, call, h0, trace, result, end);
    }
}

/// Copying a node adds a detached tree that looks like the one under the node.
pub proof fn law_edit_copy_node<'a, 'doc, 's>(
    e: &mut Editor<'doc>,
    source: NodeRef<'s>,
    step: Step<'a, MakeNode, Result<RawNodeHandle, Error>>,
    h0: Heap,
    trace: Seq<(Reply, Heap)>,
    result: Result<RawNodeHandle, Error>,
    end: Heap,
)
    requires
        h0.has(source.node) || h0.foreign.contains_key(source.node),
        call_ensures(Editor::<'doc>::copy_node, (e, source), step),
        runs(step, h0, trace, result, end),
    ensures
        *final(e) == *old(e),
        match result {
            Ok(node) => !node.inserted && h0.grown(node.node, end) && look_alike(
                h0.nodes_around(source.node),
                source.node,
                end.nodes,
                node.node,
            ),
            Err(_) => end == h0,
        },
{
    if let Step::Ask(s, call) = step {
        law_make_node(s.message, call, h0, trace, result, end);
    }
}

/// Making a detached node the root succeeds, and frees the tree that was there.
pub proof fn law_edit_set_root<'a, 'doc>(
    e: &mut Editor<'doc>,
    node: RawNodeHandle,
    step: Step<'a, Attach, Result<(), Error>>,
    h0: Heap,
    trace: Seq<(Reply, Heap)>,
    result: Result<(), Error>,
    end: Heap,
)
    requires
        h0.well_formed(),
        h0.loose(node.node),
        !node.inserted,
        call_ensures(Editor::<'doc>::set_root, (e, node), step),
        runs(step, h0, trace, result, end),
    ensures
        *final(e) == *old(e),
        result is Ok,
        end == h0.with_root(node.node),
        end.root == node.node,
        whole_look(end.nodes, end.root) == whole_look(h0.nodes, node.node),
        end.well_formed(),
{
    law_set_root(old(e).doc.ptr, node, h0, trace, result, end);
}

/// Appending to a sequence puts the item at its end; appending to anything else frees the item.
pub proof fn law_edit_seq_append<'a, 'doc>(
    e: &mut Editor<'doc>,
    seq: &RawNodeHandle,
    item: RawNodeHandle,
    step: Step<'a, Attach, Result<(), Error>>,
    h0: Heap,
    trace: Seq<(Reply, Heap)>,
    result: Result<(), Error>,
    end: Heap,
)
    requires
        h0.well_formed(),
        h0.has(seq.node),
        h0.loose(item.node),
        !item.inserted,
        call_ensures(Editor::<'doc>::seq_append, (e, seq, item), step),
        runs(step, h0, trace, result, end),
    ensures
        *final(e) == *old(e),
        result is Ok <==> h0.is_sequence(seq.node),
        result matches Err(error) ==> error == Error::Ffi("fy_node_sequence_append failed"),
        appended(h0, seq.node, item.node, result, end),
        result is Ok ==> end.items(seq.node) == h0.items(seq.node).push(item.node),
{
    law_seq_append(seq.node, item, h0, trace, result, end);
}

/// Inserting into a mapping puts the pair at its end. A key that it has already, and anything but a
/// mapping, is refused; both nodes are freed then.
pub proof fn law_edit_map_insert<'a, 'doc>(
    e: &mut Editor<'doc>,
    map: &RawNodeHandle,
    key: RawNodeHandle,
    value: RawNodeHandle,
    step: Step<'a, MapInsert, Result<(), Error>>,
    h0: Heap,
    trace: Seq<(Reply, Heap)>,
    result: Result<(), Error>,
    end: Heap,
)
    requires
        h0.well_formed(),
        h0.has(map.node),
        h0.loose(key.node),
        h0.loose(value.node),
        key.node != value.node,
        !key.inserted,
        !value.inserted,
        call_ensures(Editor::<'doc>::map_insert, (e, map, key, value), step),
        runs(step, h0, trace, result, end),
    ensures
        *final(e) == *old(e),
        inserted(h0, map.node, key.node, value.node, result, end),
        result is Ok ==> h0.is_mapping(map.node),
        h0.holds_key(map.node, key.node) && !h0.scarce ==> result is Err,
        h0.is_mapping(map.node) && h0.is_text(key.node) && !h0.holds_key(map.node, key.node)
            && !h0.scarce ==> result is Ok,
{
    law_map_insert(map.node, key, value, h0, trace, result, end);
}

/// The number that libfyaml has for a style.
pub open spec fn style_number(style: NodeStyle) -> i32 {
    match style {
        NodeStyle::Any => -1i32,
        NodeStyle::Flow => 0,
        NodeStyle::Block => 1,
        NodeStyle::Plain => 2,
        NodeStyle::SingleQuoted => 3,
        NodeStyle::DoubleQuoted => 4,
        NodeStyle::Literal => 5,
        NodeStyle::Folded => 6,
        NodeStyle::Alias => 7,
    }
}

/// Setting a style gives the node the style that was asked for if libfyaml grants it, and leaves it
/// alone otherwise. The result is the style that the node has then. Nothing else changes.
pub proof fn law_edit_set_style<'a, 'doc>(
    e: &mut Editor<'doc>,
    node: &RawNodeHandle,
    style: NodeStyle,
    step: Step<'a, SetStyle, NodeStyle>,
    h0: Heap,
    trace: Seq<(Reply, Heap)>,
    result: NodeStyle,
    end: Heap,
)
    requires
        h0.has(node.node),
        call_ensures(Editor::<'doc>::set_style, (e, node, style), step),
        runs(step, h0, trace, result, end),
    ensures
        *final(e) == *old(e),
        is_style(end.nodes[node.node].style, result),
        end == if (h0.grants)(h0.nodes[node.node], style_number(style)) {
            h0.with_style(node.node, style_number(style))
        } else {
            h0.with_style(node.node, h0.nodes[node.node].style)
        },
{
    law_set_style(node.node, style, h0, trace, result, end);
}

/// Setting a tag changes the tag and nothing else, or nothing at all; a local tag is taken unless
/// memory runs out.
pub proof fn law_edit_set_tag<'a, 'doc>(
    e: &mut Editor<'doc>,
    node: &RawNodeHandle,
    tag: &'a str,
    step: Step<'a, SetTag, Result<(), Error>>,
    h0: Heap,
    trace: Seq<(Reply, Heap)>,
    result: Result<(), Error>,
    end: Heap,
)
    requires
        h0.has(node.node),
        call_ensures(Editor::<'doc>::set_tag, (e, node, tag), step),
        runs(step, h0, trace, result, end),
    ensures
        *final(e) == *old(e),
        tagged(h0, node.node, tag@, result, end),
{
    law_set_tag(node.node, tag, h0, trace, result, end);
}

/// Appending at a path puts the item at the end of the sequence that the path leads to, or frees it and
/// says why.
pub proof fn law_edit_seq_append_at<'a, 'doc>(
    e: &mut Editor<'doc>,
    path: &'a str,
    item: RawNodeHandle,
    step: Step<'a, SeqAppendAt<'a>, Result<(), Error>>,
    h0: Heap,
    trace: Seq<(Reply, Heap)>,
    result: Result<(), Error>,
    end: Heap,
)
    requires
        h0.well_formed(),
        h0.loose(item.node),
        !item.inserted,
        call_ensures(Editor::<'doc>::seq_append_at, (e, path, item), step),
        runs(step, h0, trace, result, end),
    ensures
        *final(e) == *old(e),
        appended_at(h0, path@, item.node, result, end),
        append_fate(h0, path@) matches Some(r) ==> r == result,
{
    law_seq_append_at(old(e).doc.ptr, path, item, h0, trace, result, end);
}

/// Sorting a mapping puts the pairs of the one that the path leads to in order.
pub proof fn law_edit_sort_mapping_at<'a, 'doc>(
    e: &mut Editor<'doc>,
    path: &'a str,
    step: Step<'a, SortAt<'a>, Result<(), Error>>,
    h0: Heap,
    trace: Seq<(Reply, Heap)>,
    result: Result<(), Error>,
    end: Heap,
)
    requires
        h0.well_formed(),
        call_ensures(Editor::<'doc>::sort_mapping_at, (e, path), step),
        runs(step, h0, trace, result, end),
    ensures
        *final(e) == *old(e),
        sorted_at(h0, path@, SortKind::Mapping, result, end),
        sort_fate(h0, path@, SortKind::Mapping) matches Some(r) ==> r == result,
{
    law_sort_at(old(e).doc.ptr, path, SortKind::Mapping, h0, trace, result, end);
}

/// Sorting a tree puts the pairs of every mapping in it in order.
pub proof fn law_edit_sort_at<'a, 'doc>(
    e: &mut Editor<'doc>,
    path: &'a str,
    step: Step<'a, SortAt<'a>, Result<(), Error>>,
    h0: Heap,
    trace: Seq<(Reply, Heap)>,
    result: Result<(), Error>,
    end: Heap,
)
    requires
        h0.well_formed(),
        call_ensures(Editor::<'doc>::sort_at, (e, path), step),
        runs(step, h0, trace, result, end),
    ensures
        *final(e) == *old(e),
        sorted_at(h0, path@, SortKind::Tree, result, end),
        sort_fate(h0, path@, SortKind::Tree) matches Some(r) ==> r == result,
{
    law_sort_at(old(e).doc.ptr, path, SortKind::Tree, h0, trace, result, end);
}

/// Sorting a sequence puts the items of the one that the path leads to in order.
pub proof fn law_edit_sort_sequence_at<'a, 'doc>(
    e: &mut Editor<'doc>,
    path: &'a str,
    step: Step<'a, SortAt<'a>, Result<(), Error>>,
    h0: Heap,
    trace: Seq<(Reply, Heap)>,
    result: Result<(), Error>,
    end: Heap,
)
    requires
        h0.well_formed(),
        call_ensures(Editor::<'doc>::sort_sequence_at, (e, path), step),
        runs(step, h0, trace, result, end),
    ensures
        *final(e) == *old(e),
        sorted_at(h0, path@, SortKind::Sequence, result, end),
        sort_fate(h0, path@, SortKind::Sequence) matches Some(r) ==> r == result,
{
    law_sort_at(old(e).doc.ptr, path, SortKind::Sequence, h0, trace, result, end);
}

} // verus!
