//! What one operation takes back of another.

use vstd::prelude::*;
use vstd::utf8::encode_utf8;

use crate::call::Reply;
use crate::delete::DeleteAt;
use crate::error::Error;
use crate::laws::delete::{law_delete_at, law_delete_outcome, pair_deleted};
use crate::laws::set_yaml::{
    law_set_yaml_at, lemma_pair_added, lemma_parent_found, pair_added, clear_path, put_at,
    put_under, scalar_made, tree_built,
};
use crate::model::heap::{kids, Body, Entry, Heap};
use crate::model::world::runs;
use crate::path::{is_root_path, key_part, parent_part};
use crate::set_yaml::{SetYamlAt, Target};

verus! {

impl Heap {
    /// Nothing but itself lies below a node that holds nothing.
    proof fn lemma_leaf(self, n: usize, m: usize)
        requires
            kids(self.body(n)).len() == 0,
            self.below(n, m),
        ensures
            m == n,
    {
        let k = choose|k: nat| #[trigger] self.reach(n, m, k);
        self.lemma_leaf_reach(n, m, k);
    }

    proof fn lemma_leaf_reach(self, n: usize, m: usize, k: nat)
        requires
            kids(self.body(n)).len() == 0,
            self.reach(n, m, k),
        ensures
            m == n,
        decreases k,
    {
        if n != m {
            let q = choose|q: usize| #[trigger]
                self.kid(q, m) && self.reach(n, q, (k - 1) as nat);
            self.lemma_leaf_reach(n, q, (k - 1) as nat);
        }
    }

    /// Deleting the pair that was added last gives the heap from before its key and value were made.
    proof fn lemma_pair_undone(self, node: usize, h1: Heap, p: usize, text: Seq<char>, h2: Heap, e: Entry)
        requires
            self.well_formed(),
            self.grown(node, h1),
            self.is_mapping(p),
            scalar_made(h1, e.key, text, h2),
            e.value == node,
            e.pair != 0,
            !(exists|q: usize, i: int| h2.pair_at(e.pair, q, i)),
        ensures
            h2.with_entry(p, e).entry_deleted(p, self.entries(p).len() as int) == self,
    {
        let entries = self.entries(p);
        let n = entries.len() as int;
        let h = h2.with_entry(p, e);
        let out = h.without_entry(p, n);
        let end = h.entry_deleted(p, n);
        self.lemma_grown_apart(node, h1, p);
        h1.lemma_grown_below(e.key, h2, node);
        h1.lemma_grown_apart(e.key, h2, p);
        h1.lemma_grown_apart(e.key, h2, node);
        h1.lemma_below_self(node);
        h2.lemma_below_self(e.key);
        assert(h2.body(p) == self.body(p));
        assert(!h2.below(node, p));
        h2.lemma_with_entry_shape(p, e);
        assert(h.entries(p) == entries.push(e));
        h.lemma_entry_out(p, n);
        h2.lemma_below_frame(h, node);
        assert forall|m: usize| #[trigger] h.below(e.key, m) <==> m == e.key by {
            if h.below(e.key, m) {
                h.lemma_leaf(e.key, m);
            }
            h.lemma_below_self(e.key);
        }
        assert forall|m: usize| #[trigger] h2.below(e.key, m) implies m == e.key by {
            h2.lemma_leaf(e.key, m);
        }
        assert forall|m: usize| self.has(m) implies !#[trigger] h1.below(node, m) by {
            self.lemma_grown_apart(node, h1, m);
        }
        assert forall|m: usize| end.nodes.contains_key(m) <==> self.nodes.contains_key(m) by {
            assert(h2.has(m) <==> h1.has(m) || m == e.key);
            assert(h.has(m) <==> h2.has(m));
            assert(out.has(m) <==> h.has(m) && m != e.key);
            assert(out.below(e.value, m) <==> h1.below(node, m));
            assert(h1.has(m) ==> self.has(m) || h1.below(node, m));
            assert(self.has(m) ==> h1.has(m) && m != e.key);
        }
        assert(entries.push(e).remove(n) =~= entries);
        assert forall|m: usize| #[trigger] self.nodes.contains_key(m) implies end.nodes[m]
            == self.nodes[m] by {
            assert(self.has(m));
            assert(h1.has(m));
            assert(h2.has(m));
            assert(m != e.key && m != node);
        }
        assert(end.nodes =~= self.nodes);
    }
}

/// Adding a key and deleting it again leaves the document as it was, and there is nothing left for
/// a further deletion.
pub proof fn law_set_then_delete<'a>(
    doc: usize,
    path: Seq<char>,
    targets: (Target<'a>, Target<'a>, Target<'a>),
    yaml: &'a str,
    h0: Heap,
    edit: Seq<(Reply, Heap)>,
    h1: Heap,
    undo: Seq<(Reply, Heap)>,
    first: Result<bool, Error>,
    h2: Heap,
    again: Seq<(Reply, Heap)>,
    second: Result<bool, Error>,
    end: Heap,
)
    requires
        h0.well_formed(),
        encode_utf8(yaml@).len() <= usize::MAX,
        targets.0.denotes(path),
        targets.1.denotes(path),
        targets.2.denotes(path),
        clear_path(h0, path),
        !is_root_path(path),
        ({
            let p = h0.place(parent_part(path));
            h0.is_mapping(p) && h0.find(p, key_part(path)) == h0.entries(p).len()
        }),
        runs(SetYamlAt::started(doc, targets.0, yaml), h0, edit, Ok(()), h1),
        runs(DeleteAt::started(doc, targets.1), h1, undo, first, h2),
        runs(DeleteAt::started(doc, targets.2), h2, again, second, end),
    ensures
        first == Ok::<bool, Error>(true),
        h2 == h0,
        second == Ok::<bool, Error>(false),
        end == h0,
{
    lemma_set_then_delete(doc, path, targets.0, targets.1, yaml, h0, edit, h1, undo, first, h2);
    law_delete_at(doc, targets.2, h0, again, second, end);
    law_delete_outcome(doc, targets.2, h0, again, second, end);
}

proof fn lemma_set_then_delete<'a>(
    doc: usize,
    path: Seq<char>,
    target: Target<'a>,
    undone: Target<'a>,
    yaml: &'a str,
    h0: Heap,
    edit: Seq<(Reply, Heap)>,
    h1: Heap,
    undo: Seq<(Reply, Heap)>,
    result: Result<bool, Error>,
    end: Heap,
)
    requires
        h0.well_formed(),
        encode_utf8(yaml@).len() <= usize::MAX,
        target.denotes(path),
        undone.denotes(path),
        clear_path(h0, path),
        !is_root_path(path),
        ({
            let p = h0.place(parent_part(path));
            h0.is_mapping(p) && h0.find(p, key_part(path)) == h0.entries(p).len()
        }),
        runs(SetYamlAt::started(doc, target, yaml), h0, edit, Ok(()), h1),
        runs(DeleteAt::started(doc, undone), h1, undo, result, end),
    ensures
        result == Ok::<bool, Error>(true),
        end == h0,
{
    law_set_yaml_at(doc, target, yaml, h0, edit, Ok(()), h1);
    law_delete_at(doc, undone, h1, undo, result, end);
    law_delete_outcome(doc, undone, h1, undo, result, end);
    if let Target::Child { parent, key } = target {
        let p = h0.place(parent@);
        let (node, hb) = choose|node: usize, hb: Heap| #[trigger]
            tree_built(h0, encode_utf8(yaml@), node, hb) && put_at(hb, target, node, h1);
        let q = choose|q: usize| #[trigger]
            hb.found(parent@, q) && put_under(hb, q, key@, node, h1);
        lemma_parent_found(h0, node, hb, parent@, q, key@);
        assert(q == p);
        assert(pair_added(hb, p, key@, node, h1));
        hb.lemma_loose_apart(node, p);
        lemma_pair_added(hb, p, key@, node, h1);
        hb.lemma_place_kept(p, h1, parent@);
        let (h2, e) = choose|h2: Heap, e: Entry|
            {
                &&& #[trigger] scalar_made(hb, e.key, key@, h2)
                &&& e.value == node
                &&& e.pair != 0
                &&& !(exists|q: usize, i: int| h2.pair_at(e.pair, q, i))
                &&& h1 == #[trigger] h2.with_entry(p, e)
            };
        let n = h0.entries(p).len() as int;
        assert(h1.body(p) == Body::Mapping(h0.entries(p).push(e)));
        assert(h1.child(p, key@) == node);
        assert(h1.find(p, key@) < h1.entries(p).len());
        let r = choose|r: usize| #[trigger]
            h1.found(parent@, r) && (pair_deleted(h1, r, key@, end)
                || crate::laws::delete::item_deleted(h1, r, key@, end));
        assert(r == p);
        h0.lemma_pair_undone(node, hb, p, key@, h2, e);
    }
}

} // verus!
