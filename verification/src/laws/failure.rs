//! What is reported when a call fails, and which document the calls are made on, whatever libfyaml
//! answers.

use std::rc::Rc;

use vstd::prelude::*;

use crate::assemble::{Attach, MapInsert, SeqAppendAt};
use crate::call::{Call, Reply, Step};
use crate::delete::DeleteAt;
use crate::document::{CreateDocument, Document, InputOwnership, ParseOwned, ParseStr};
use crate::editor::Editor;
use crate::emitter::{EmitEvents, Emitter};
use crate::error::Error;
use crate::find::FindNode;
use crate::get_c_version;
use crate::handle::RawNodeHandle;
use crate::laws::parse::lemma_empty;
use crate::make::{MakeNode, SetTag};
use crate::model::record::{blank, collector_of, document_of, Record};
use crate::model::world::{lemma_runs, runs};
use crate::node_ref::{AskText, Lookup, LookupAt, LookupValue, NodeRef, ValueRef};
use crate::parser::{
    CloseParser, DocumentIterator, FirstOfStdin, FyParser, NewParser, NextDocument, OpenStdin,
    ParseString, ParserInner,
};
use crate::set_yaml::SetYamlAt;
use crate::snippet::BuildFromYaml;
use crate::sort::{SortAt, SortKind};

verus! {

/// Whether a session has kept to its document, and reports the first call that failed, for a parse
/// what the collector says of it.
pub open spec fn told<T>(end: Record, result: Result<T, Error>) -> bool {
    &&& end.kept
    &&& end.thorough()
    &&& end.failure matches Some(e) ==> result == Err::<T, Error>(e)
}

/// The same for a session that ends well unless a call fails.
pub open spec fn told_all<T>(end: Record, result: Result<T, Error>) -> bool {
    told(end, result) && (end.failure is None ==> result is Ok)
}

/// Whether nothing has failed so far, and the call that is asked for is on the document.
spec fn faultless<'a>(w: Record, call: Call<'a>) -> bool {
    &&& w.kept
    &&& w.failure is None
    &&& !w.unparsed
    &&& document_of(call) matches Some(doc) ==> doc == w.doc
    &&& collector_of(call) matches Some(diag) ==> diag == w.diag
}

/// Whether what has failed is on the way to being reported.
spec fn faulted<'a>(w: Record, call: Call<'a>, error: Error) -> bool {
    &&& w.kept
    &&& w.thorough()
    &&& w.failure == Some(error)
    &&& document_of(call) matches Some(doc) ==> doc == w.doc
}

/// Whether an error is on the way, and it is that of what has failed, if anything has.
spec fn refusing<'a>(w: Record, call: Call<'a>, error: Error) -> bool {
    &&& w.kept
    &&& w.thorough()
    &&& w.failure matches Some(e) ==> e == error
    &&& call is NodeFree
}

spec fn finding<'a>(w: Record, find: FindNode<'a>, call: Call<'a>) -> bool {
    faultless(w, call) && match find {
        FindNode::Rooting { .. } => call is DocumentRoot,
        FindNode::Walking { .. } => call is NodeByPath,
    }
}

spec fn attaching<'a>(w: Record, attach: Attach, call: Call<'a>) -> bool {
    match attach {
        Attach::Asking { message, .. } => faultless(w, call) && ((call is DocumentSetRoot && message
            == "fy_document_set_root failed") || (call is SequenceAppend && message
            == "fy_node_sequence_append failed")),
        Attach::Failing { error } => faulted(w, call, error) && call is NodeFree,
    }
}

spec fn building<'a>(w: Record, build: BuildFromYaml<'a>, call: Call<'a>) -> bool {
    match build {
        BuildFromYaml::Copying { doc, .. } => faultless(w, call) && doc == w.doc
            && call is MallocCopy && w.diag == 0,
        BuildFromYaml::MakingDiag { doc, .. } => faultless(w, call) && doc == w.doc
            && call is DiagCreate && w.diag == 0,
        BuildFromYaml::ReadingDiag { doc, diag, .. } => faultless(w, call) && doc == w.doc
            && call is DocumentGetDiag && w.diag == diag,
        BuildFromYaml::SettingDiag { doc, diag, .. } => faultless(w, call) && doc == w.doc
            && call is DocumentSetDiag && w.diag == diag,
        BuildFromYaml::Building { doc, diag, .. } => faultless(w, call) && doc == w.doc
            && call is NodeBuildFromMallocString && w.diag == diag,
        BuildFromYaml::Diagnosing { doc, .. } => w.kept && doc == w.doc && w.diag != 0
            && w.unparsed && w.failure == Some(Error::Parse("fy_node_build_from_malloc_string failed")) && call
            == (Call::DiagTakeFirst { diag: w.diag }),
        BuildFromYaml::Restoring { outcome, .. } => told_all(w, outcome) && (
        call matches Call::DocumentSetDiag { doc, .. } && doc == w.doc),
        BuildFromYaml::Dropping { outcome } => told_all(w, outcome) && call is DiagDestroy,
    }
}

/// Building a node from a snippet fails only if a call fails, and says why.
pub proof fn law_build_from_yaml_tells<'a, 'doc>(
    e: &mut Editor<'doc>,
    yaml: &'a str,
    step: Step<'a, BuildFromYaml<'a>, Result<RawNodeHandle, Error>>,
    trace: Seq<(Reply, Record)>,
    result: Result<RawNodeHandle, Error>,
    end: Record,
)
    requires
        call_ensures(Editor::<'doc>::build_from_yaml, (e, yaml), step),
        runs(step, blank(old(e).doc.ptr), trace, result, end),
    ensures
        told_all(end, result),
{
    let inv = |s: Step<'a, BuildFromYaml<'a>, Result<RawNodeHandle, Error>>, w: Record|
        match s {
            Step::Ask(build, call) => building(w, build, call),
            Step::Done(r) => told_all(w, r),
        };
    lemma_runs(inv, step, blank(old(e).doc.ptr), trace, result, end);
}

/// Building a null does so as well.
pub proof fn law_build_null_tells<'a, 'doc>(
    e: &mut Editor<'doc>,
    step: Step<'a, BuildFromYaml<'a>, Result<RawNodeHandle, Error>>,
    trace: Seq<(Reply, Record)>,
    result: Result<RawNodeHandle, Error>,
    end: Record,
)
    requires
        call_ensures(Editor::<'doc>::build_null, (e,), step),
        runs(step, blank(old(e).doc.ptr), trace, result, end),
    ensures
        told_all(end, result),
{
    let inv = |s: Step<'a, BuildFromYaml<'a>, Result<RawNodeHandle, Error>>, w: Record|
        match s {
            Step::Ask(build, call) => building(w, build, call),
            Step::Done(r) => told_all(w, r),
        };
    lemma_runs(inv, step, blank(old(e).doc.ptr), trace, result, end);
}

spec fn setting<'a>(
    w: Record,
    step: Step<'a, SetYamlAt<'a>, Result<(), Error>>,
) -> bool {
    match step {
        Step::Done(r) => told(w, r),
        Step::Ask(s, call) => match s {
            SetYamlAt::Building { doc, build, .. } => doc == w.doc && building(w, build, call),
            SetYamlAt::Rooting { set } => attaching(w, set, call),
            SetYamlAt::Finding { doc, find, .. } => doc == w.doc && finding(w, find, call),
            SetYamlAt::Typing { doc, .. } => doc == w.doc && faultless(w, call)
                && call is NodeGetType,
            SetYamlAt::Looking { doc, .. } => doc == w.doc && faultless(w, call)
                && call is MappingLookupPairByString,
            SetYamlAt::Replacing { .. } => faultless(w, call) && call is PairSetValue,
            SetYamlAt::Keying { .. } => faultless(w, call) && call is NodeCreateScalarCopy,
            SetYamlAt::Appending { .. } => faultless(w, call) && call is MappingAppend,
            SetYamlAt::FreeingKey { .. } => faulted(
                w,
                call,
                Error::Ffi("fy_node_mapping_append failed"),
            ) && call is NodeFree,
            SetYamlAt::Counting { .. } => faultless(w, call) && call is SequenceItemCount,
            SetYamlAt::Getting { .. } => faultless(w, call) && call is SequenceGetByIndex
                && w.counted,
            SetYamlAt::Peeking { .. } => faultless(w, call) && call is SequenceGetByIndex
                && !w.counted,
            SetYamlAt::Removing { .. } => faultless(w, call) && call is SequenceRemove,
            SetYamlAt::Freeing { .. } => faultless(w, call) && call is NodeFree,
            SetYamlAt::Adding { .. } => faultless(w, call) && call is SequenceAppend,
            SetYamlAt::Inserting { .. } => faultless(w, call) && call is SequenceInsertBefore,
            SetYamlAt::Failing { error } => refusing(w, call, error),
        },
    }
}

/// Setting a value reports the call that fails, if one does.
#[verifier::rlimit(40)]
pub proof fn law_set_yaml_at_tells<'a, 'doc>(
    e: &mut Editor<'doc>,
    path: &'a str,
    yaml: &'a str,
    step: Step<'a, SetYamlAt<'a>, Result<(), Error>>,
    trace: Seq<(Reply, Record)>,
    result: Result<(), Error>,
    end: Record,
)
    requires
        call_ensures(Editor::<'doc>::set_yaml_at, (e, path, yaml), step),
        runs(step, blank(old(e).doc.ptr), trace, result, end),
    ensures
        told(end, result),
{
    let inv = |s: Step<'a, SetYamlAt<'a>, Result<(), Error>>, w: Record| setting(w, s);
    lemma_runs(inv, step, blank(old(e).doc.ptr), trace, result, end);
}

/// Deleting keeps to the document. It deletes something unless something that it needs is not found, and
/// the root is all that it refuses.
pub proof fn law_delete_at_keeps<'a, 'doc>(
    e: &mut Editor<'doc>,
    path: &'a str,
    step: Step<'a, DeleteAt<'a>, Result<bool, Error>>,
    trace: Seq<(Reply, Record)>,
    result: Result<bool, Error>,
    end: Record,
)
    requires
        call_ensures(Editor::<'doc>::delete_at, (e, path), step),
        runs(step, blank(old(e).doc.ptr), trace, result, end),
    ensures
        end.kept,
        end.lost ==> result == Ok::<bool, Error>(false),
        result matches Err(error) ==> trace.len() == 0 && error == Error::Ffi(
            "cannot delete root via delete_at",
        ),
{
    if trace.len() == 0 {
        assert(step == Step::<'a, DeleteAt<'a>, Result<bool, Error>>::Done(result));
    }
    let inv = |s: Step<'a, DeleteAt<'a>, Result<bool, Error>>, w: Record|
        {
            &&& w.kept
            &&& match s {
                Step::Ask(d, call) => {
                    &&& trace.len() > 0
                    &&& !w.lost
                    &&& document_of(call) matches Some(doc) ==> doc == w.doc
                    &&& match d {
                        DeleteAt::Finding { find, .. } => match find {
                            FindNode::Rooting { .. } => call is DocumentRoot,
                            FindNode::Walking { .. } => call is NodeByPath,
                        },
                        DeleteAt::Typing { .. } => call is NodeGetType,
                        DeleteAt::Looking { .. } => call is MappingLookupPairByString,
                        DeleteAt::Keying { .. } => call is PairKey,
                        DeleteAt::Getting { .. } => call is SequenceGetByIndex,
                        DeleteAt::Removing => call is MappingRemoveByKey || call is SequenceRemove,
                        DeleteAt::Freeing => call is NodeFree,
                    }
                },
                Step::Done(r) => {
                    &&& w.lost ==> r == Ok::<bool, Error>(false)
                    &&& trace.len() > 0 ==> r is Ok
                    &&& r matches Err(error) ==> error == Error::Ffi(
                        "cannot delete root via delete_at",
                    )
                },
            }
        };
    lemma_runs(inv, step, blank(old(e).doc.ptr), trace, result, end);
}

/// Making a scalar fails only if the call does, and says so.
pub proof fn law_build_scalar_tells<'a, 'doc>(
    e: &mut Editor<'doc>,
    value: &'a str,
    step: Step<'a, MakeNode, Result<RawNodeHandle, Error>>,
    trace: Seq<(Reply, Record)>,
    result: Result<RawNodeHandle, Error>,
    end: Record,
)
    requires
        call_ensures(Editor::<'doc>::build_scalar, (e, value), step),
        runs(step, blank(old(e).doc.ptr), trace, result, end),
    ensures
        told_all(end, result),
{
    let inv = |s: Step<'a, MakeNode, Result<RawNodeHandle, Error>>, w: Record|
        match s {
            Step::Ask(_, call) => s == step && faultless(w, call),
            Step::Done(r) => told_all(w, r),
        };
    lemma_runs(inv, step, blank(old(e).doc.ptr), trace, result, end);
}

/// Making a sequence fails only if the call does, and says so.
pub proof fn law_build_sequence_tells<'a, 'doc>(
    e: &mut Editor<'doc>,
    step: Step<'a, MakeNode, Result<RawNodeHandle, Error>>,
    trace: Seq<(Reply, Record)>,
    result: Result<RawNodeHandle, Error>,
    end: Record,
)
    requires
        call_ensures(Editor::<'doc>::build_sequence, (e,), step),
        runs(step, blank(old(e).doc.ptr), trace, result, end),
    ensures
        told_all(end, result),
{
    let inv = |s: Step<'a, MakeNode, Result<RawNodeHandle, Error>>, w: Record|
        match s {
            Step::Ask(_, call) => s == step && faultless(w, call),
            Step::Done(r) => told_all(w, r),
        };
    lemma_runs(inv, step, blank(old(e).doc.ptr), trace, result, end);
}

/// Making a mapping fails only if the call does, and says so.
pub proof fn law_build_mapping_tells<'a, 'doc>(
    e: &mut Editor<'doc>,
    step: Step<'a, MakeNode, Result<RawNodeHandle, Error>>,
    trace: Seq<(Reply, Record)>,
    result: Result<RawNodeHandle, Error>,
    end: Record,
)
    requires
        call_ensures(Editor::<'doc>::build_mapping, (e,), step),
        runs(step, blank(old(e).doc.ptr), trace, result, end),
    ensures
        told_all(end, result),
{
    let inv = |s: Step<'a, MakeNode, Result<RawNodeHandle, Error>>, w: Record|
        match s {
            Step::Ask(_, call) => s == step && faultless(w, call),
            Step::Done(r) => told_all(w, r),
        };
    lemma_runs(inv, step, blank(old(e).doc.ptr), trace, result, end);
}

/// Copying a node fails only if the call does, and says so. The copy is made in the document that is
/// edited, wherever the node is.
pub proof fn law_copy_node_tells<'a, 'doc, 's>(
    e: &mut Editor<'doc>,
    source: NodeRef<'s>,
    step: Step<'a, MakeNode, Result<RawNodeHandle, Error>>,
    trace: Seq<(Reply, Record)>,
    result: Result<RawNodeHandle, Error>,
    end: Record,
)
    requires
        call_ensures(Editor::<'doc>::copy_node, (e, source), step),
        runs(step, blank(old(e).doc.ptr), trace, result, end),
    ensures
        told_all(end, result),
{
    let inv = |s: Step<'a, MakeNode, Result<RawNodeHandle, Error>>, w: Record|
        match s {
            Step::Ask(_, call) => s == step && faultless(w, call),
            Step::Done(r) => told_all(w, r),
        };
    lemma_runs(inv, step, blank(old(e).doc.ptr), trace, result, end);
}

/// Setting the root fails only if the call does, and says so.
pub proof fn law_set_root_tells<'a, 'doc>(
    e: &mut Editor<'doc>,
    node: RawNodeHandle,
    step: Step<'a, Attach, Result<(), Error>>,
    trace: Seq<(Reply, Record)>,
    result: Result<(), Error>,
    end: Record,
)
    requires
        call_ensures(Editor::<'doc>::set_root, (e, node), step),
        runs(step, blank(old(e).doc.ptr), trace, result, end),
    ensures
        told_all(end, result),
{
    let inv = |s: Step<'a, Attach, Result<(), Error>>, w: Record|
        match s {
            Step::Ask(attach, call) => attaching(w, attach, call),
            Step::Done(r) => told_all(w, r),
        };
    lemma_runs(inv, step, blank(old(e).doc.ptr), trace, result, end);
}

/// Appending to a sequence fails only if the call does, and says so.
pub proof fn law_seq_append_tells<'a, 'doc>(
    e: &mut Editor<'doc>,
    seq: &RawNodeHandle,
    item: RawNodeHandle,
    step: Step<'a, Attach, Result<(), Error>>,
    trace: Seq<(Reply, Record)>,
    result: Result<(), Error>,
    end: Record,
)
    requires
        call_ensures(Editor::<'doc>::seq_append, (e, seq, item), step),
        runs(step, blank(old(e).doc.ptr), trace, result, end),
    ensures
        told_all(end, result),
{
    let inv = |s: Step<'a, Attach, Result<(), Error>>, w: Record|
        match s {
            Step::Ask(attach, call) => attaching(w, attach, call),
            Step::Done(r) => told_all(w, r),
        };
    lemma_runs(inv, step, blank(old(e).doc.ptr), trace, result, end);
}

/// Inserting into a mapping fails only if the call does, and says so.
pub proof fn law_map_insert_tells<'a, 'doc>(
    e: &mut Editor<'doc>,
    map: &RawNodeHandle,
    key: RawNodeHandle,
    value: RawNodeHandle,
    step: Step<'a, MapInsert, Result<(), Error>>,
    trace: Seq<(Reply, Record)>,
    result: Result<(), Error>,
    end: Record,
)
    requires
        call_ensures(Editor::<'doc>::map_insert, (e, map, key, value), step),
        runs(step, blank(old(e).doc.ptr), trace, result, end),
    ensures
        told_all(end, result),
{
    let inv = |s: Step<'a, MapInsert, Result<(), Error>>, w: Record|
        match s {
            Step::Ask(MapInsert::Appending { .. }, call) => faultless(w, call)
                && call is MappingAppend,
            Step::Ask(_, call) => faulted(w, call, Error::Ffi("fy_node_mapping_append failed"))
                && call is NodeFree,
            Step::Done(r) => told_all(w, r),
        };
    lemma_runs(inv, step, blank(old(e).doc.ptr), trace, result, end);
}

/// Setting a tag fails only if the call does, and says so.
pub proof fn law_set_tag_tells<'a, 'doc>(
    e: &mut Editor<'doc>,
    node: &RawNodeHandle,
    tag: &'a str,
    step: Step<'a, SetTag, Result<(), Error>>,
    trace: Seq<(Reply, Record)>,
    result: Result<(), Error>,
    end: Record,
)
    requires
        call_ensures(Editor::<'doc>::set_tag, (e, node, tag), step),
        runs(step, blank(old(e).doc.ptr), trace, result, end),
    ensures
        told_all(end, result),
{
    let inv = |s: Step<'a, SetTag, Result<(), Error>>, w: Record|
        match s {
            Step::Ask(_, call) => s == step && faultless(w, call),
            Step::Done(r) => told_all(w, r),
        };
    lemma_runs(inv, step, blank(old(e).doc.ptr), trace, result, end);
}

/// Appending at a path reports the call that fails, if one does.
pub proof fn law_seq_append_at_tells<'a, 'doc>(
    e: &mut Editor<'doc>,
    path: &'a str,
    item: RawNodeHandle,
    step: Step<'a, SeqAppendAt<'a>, Result<(), Error>>,
    trace: Seq<(Reply, Record)>,
    result: Result<(), Error>,
    end: Record,
)
    requires
        call_ensures(Editor::<'doc>::seq_append_at, (e, path, item), step),
        runs(step, blank(old(e).doc.ptr), trace, result, end),
    ensures
        told(end, result),
{
    let inv = |s: Step<'a, SeqAppendAt<'a>, Result<(), Error>>, w: Record|
        match s {
            Step::Ask(SeqAppendAt::Finding { find, .. }, call) => finding(w, find, call),
            Step::Ask(SeqAppendAt::Typing { .. }, call) => faultless(w, call)
                && call is NodeGetType,
            Step::Ask(SeqAppendAt::Appending { attach }, call) => attaching(w, attach, call),
            Step::Ask(SeqAppendAt::Failing { error }, call) => refusing(w, call, error),
            Step::Done(r) => told(w, r),
        };
    lemma_runs(inv, step, blank(old(e).doc.ptr), trace, result, end);
}

spec fn sorting<'a>(w: Record, step: Step<'a, SortAt<'a>, Result<(), Error>>) -> bool {
    match step {
        Step::Done(r) => told(w, r),
        Step::Ask(s, call) => faultless(w, call) && match s {
            SortAt::Finding { find, .. } => finding(w, find, call),
            SortAt::Typing { .. } => call is NodeGetType,
            SortAt::Styling { .. } => call is NodeGetStyle,
            SortAt::Sorting { kind, .. } => match kind {
                SortKind::Mapping => call is MappingSort,
                SortKind::Tree => call is NodeSort,
                SortKind::Sequence => call is SequenceSort,
            },
            SortAt::Restyling => call is NodeSetStyle,
        },
    }
}

spec fn sorting_what<'a>(
    kind0: SortKind,
    step: Step<'a, SortAt<'a>, Result<(), Error>>,
) -> bool {
    step matches Step::Ask(s, _) ==> match s {
        SortAt::Finding { kind, .. } => kind == kind0,
        SortAt::Typing { kind, .. } => kind == kind0 && !(kind is Tree),
        SortAt::Styling { .. } => kind0 is Sequence,
        SortAt::Sorting { kind, .. } => kind == kind0,
        SortAt::Restyling => kind0 is Sequence,
    }
}

/// Sorting a mapping reports the call that fails, if one does.
pub proof fn law_sort_mapping_at_tells<'a, 'doc>(
    e: &mut Editor<'doc>,
    path: &'a str,
    step: Step<'a, SortAt<'a>, Result<(), Error>>,
    trace: Seq<(Reply, Record)>,
    result: Result<(), Error>,
    end: Record,
)
    requires
        call_ensures(Editor::<'doc>::sort_mapping_at, (e, path), step),
        runs(step, blank(old(e).doc.ptr), trace, result, end),
    ensures
        told(end, result),
{
    let inv = |s: Step<'a, SortAt<'a>, Result<(), Error>>, w: Record|
        sorting(w, s) && sorting_what(SortKind::Mapping, s);
    lemma_runs(inv, step, blank(old(e).doc.ptr), trace, result, end);
}

/// Sorting a tree reports the call that fails, if one does.
pub proof fn law_sort_at_tells<'a, 'doc>(
    e: &mut Editor<'doc>,
    path: &'a str,
    step: Step<'a, SortAt<'a>, Result<(), Error>>,
    trace: Seq<(Reply, Record)>,
    result: Result<(), Error>,
    end: Record,
)
    requires
        call_ensures(Editor::<'doc>::sort_at, (e, path), step),
        runs(step, blank(old(e).doc.ptr), trace, result, end),
    ensures
        told(end, result),
{
    let inv = |s: Step<'a, SortAt<'a>, Result<(), Error>>, w: Record|
        sorting(w, s) && sorting_what(SortKind::Tree, s);
    lemma_runs(inv, step, blank(old(e).doc.ptr), trace, result, end);
}

/// Sorting a sequence reports the call that fails, if one does.
pub proof fn law_sort_sequence_at_tells<'a, 'doc>(
    e: &mut Editor<'doc>,
    path: &'a str,
    step: Step<'a, SortAt<'a>, Result<(), Error>>,
    trace: Seq<(Reply, Record)>,
    result: Result<(), Error>,
    end: Record,
)
    requires
        call_ensures(Editor::<'doc>::sort_sequence_at, (e, path), step),
        runs(step, blank(old(e).doc.ptr), trace, result, end),
    ensures
        told(end, result),
{
    let inv = |s: Step<'a, SortAt<'a>, Result<(), Error>>, w: Record|
        sorting(w, s) && sorting_what(SortKind::Sequence, s);
    lemma_runs(inv, step, blank(old(e).doc.ptr), trace, result, end);
}

/// Looking at the root of a document keeps to the document.
pub proof fn law_root_keeps<'a, 'doc>(
    doc: &'doc Document,
    step: Step<'a, Lookup<'doc>, Option<NodeRef<'doc>>>,
    trace: Seq<(Reply, Record)>,
    result: Option<NodeRef<'doc>>,
    end: Record,
)
    requires
        call_ensures(Document::root, (doc,), step),
        runs(step, blank(doc.ptr), trace, result, end),
    ensures
        end.kept,
{
    let inv = |s: Step<'a, Lookup<'doc>, Option<NodeRef<'doc>>>, w: Record|
        w.kept && (s is Ask ==> s == step && w.doc == doc.ptr);
    lemma_runs(inv, step, blank(doc.ptr), trace, result, end);
}

/// The same for the root as a typed value.
pub proof fn law_root_value_keeps<'a, 'doc>(
    doc: &'doc Document,
    step: Step<'a, LookupValue<'doc>, Option<ValueRef<'doc>>>,
    trace: Seq<(Reply, Record)>,
    result: Option<ValueRef<'doc>>,
    end: Record,
)
    requires
        call_ensures(Document::root_value, (doc,), step),
        runs(step, blank(doc.ptr), trace, result, end),
    ensures
        end.kept,
{
    let inv = |s: Step<'a, LookupValue<'doc>, Option<ValueRef<'doc>>>, w: Record|
        w.kept && (s is Ask ==> s == step && w.doc == doc.ptr);
    lemma_runs(inv, step, blank(doc.ptr), trace, result, end);
}

/// Following a path from the root keeps to the document.
pub proof fn law_at_path_keeps<'a, 'doc>(
    doc: &'doc Document,
    path: &'a str,
    step: Step<'a, LookupAt<'doc, 'a>, Option<NodeRef<'doc>>>,
    trace: Seq<(Reply, Record)>,
    result: Option<NodeRef<'doc>>,
    end: Record,
)
    requires
        call_ensures(Document::at_path, (doc, path), step),
        runs(step, blank(doc.ptr), trace, result, end),
    ensures
        end.kept,
{
    let inv = |s: Step<'a, LookupAt<'doc, 'a>, Option<NodeRef<'doc>>>, w: Record|
        w.kept && (s matches Step::Ask(_, call) ==> collector_of(call) is None && (document_of(
            call,
        ) matches Some(d) ==> d == w.doc));
    lemma_runs(inv, step, blank(doc.ptr), trace, result, end);
}

/// A document is created unless the call fails, and has no input.
pub proof fn law_new_document_tells<'a>(
    step: Step<'a, CreateDocument, Result<Document, Error>>,
    trace: Seq<(Reply, Record)>,
    result: Result<Document, Error>,
    end: Record,
)
    requires
        call_ensures(Document::new, (), step),
        runs(step, blank(0), trace, result, end),
    ensures
        told_all(end, result),
        result matches Ok(doc) ==> doc.ptr == end.made && doc.ptr != 0 && doc.input is NoInput,
{
    let inv = |s: Step<'a, CreateDocument, Result<Document, Error>>, w: Record|
        match s {
            Step::Ask(_, call) => s == step && faultless(w, call),
            Step::Done(r) => told_all(w, r) && (r matches Ok(doc) ==> doc.ptr == w.made && doc.ptr
                != 0 && doc.input is NoInput),
        };
    lemma_runs(inv, step, blank(0), trace, result, end);
}

/// Whether a document is the one that was made, with the given input.
spec fn is_made(w: Record, result: Result<Document, Error>, input: InputOwnership) -> bool {
    result matches Ok(doc) ==> doc.ptr == w.made && doc.ptr != 0 && doc.input == input
}

/// An empty string is refused before anything is asked for; any other is parsed unless a call fails.
pub proof fn law_parse_str_tells<'a>(
    yaml: &'a str,
    step: Step<'a, ParseStr<'a>, Result<Document, Error>>,
    trace: Seq<(Reply, Record)>,
    result: Result<Document, Error>,
    end: Record,
)
    requires
        call_ensures(Document::parse_str, (yaml,), step),
        runs(step, blank(0), trace, result, end),
    ensures
        yaml@.len() == 0 ==> trace.len() == 0 && result == Err::<Document, Error>(
            Error::Parse("empty input"),
        ),
        yaml@.len() > 0 ==> told_all(end, result),
        result matches Ok(doc) ==> doc.ptr == end.made && doc.ptr != 0
            && doc.input is LibfyamlOwned,
{
    let fits = |w: Record, r: Result<Document, Error>|
        told_all(w, r) && is_made(w, r, InputOwnership::LibfyamlOwned);
    let inv = |s: Step<'a, ParseStr<'a>, Result<Document, Error>>, w: Record|
        match s {
            Step::Ask(ParseStr::Copying { .. }, call) => faultless(w, call) && call is MallocCopy
                && w.diag == 0,
            Step::Ask(ParseStr::MakingDiag { .. }, call) => faultless(w, call) && call is DiagCreate
                && w.diag == 0,
            Step::Ask(ParseStr::Building { diag, .. }, call) => faultless(w, call)
                && call is DocumentBuildFromMallocString && w.diag == diag,
            Step::Ask(ParseStr::FreeingBuffer { diag }, call) => w.kept && w.unparsed && w.failure == Some(
                Error::Parse("fy_document_build_from_malloc_string failed"),
            ) && call is Free && w.diag == diag,
            Step::Ask(ParseStr::Diagnosing, call) => w.kept && w.unparsed && w.failure == Some(
                Error::Parse("fy_document_build_from_malloc_string failed"),
            ) && w.diag != 0 && call == (Call::DiagTakeFirst { diag: w.diag }),
            Step::Ask(ParseStr::Dropping { ptr }, call) => faultless(w, call) && call is DiagDestroy
                && ptr == w.made && ptr != 0,
            Step::Done(r) => fits(w, r),
        };
    if yaml@.len() > 0 {
        lemma_runs(inv, step, blank(0), trace, result, end);
    }
}

spec fn parsing_owned<'a>(
    input: InputOwnership,
    step: Step<'a, ParseOwned, Result<Document, Error>>,
    w: Record,
) -> bool {
    match step {
        Step::Ask(ParseOwned::MakingDiag { input: i, .. }, call) => faultless(w, call)
            && call is DiagCreate && w.diag == 0 && i == input,
        Step::Ask(ParseOwned::Building { input: i, diag }, call) => faultless(w, call)
            && call is DocumentBuildFromOwned && w.diag == diag && i == input,
        Step::Ask(ParseOwned::Diagnosing, call) => w.kept && w.unparsed && w.failure == Some(
            Error::Parse("fy_document_build_from_string failed"),
        ) && w.diag != 0 && call == (Call::DiagTakeFirst { diag: w.diag }),
        Step::Ask(ParseOwned::Dropping { ptr, input: i }, call) => faultless(w, call)
            && call is DiagDestroy && ptr == w.made && ptr != 0 && i == input,
        Step::Done(r) => told_all(w, r) && is_made(w, r, input),
    }
}

/// The same for a string that the document keeps.
pub proof fn law_from_string_tells<'a>(
    text: String,
    step: Step<'a, ParseOwned, Result<Document, Error>>,
    trace: Seq<(Reply, Record)>,
    result: Result<Document, Error>,
    end: Record,
)
    requires
        call_ensures(Document::from_string, (text,), step),
        runs(step, blank(0), trace, result, end),
    ensures
        text@.len() == 0 ==> trace.len() == 0 && result == Err::<Document, Error>(
            Error::Parse("empty input"),
        ),
        text@.len() > 0 ==> told_all(end, result),
        result matches Ok(doc) ==> doc.ptr == end.made && doc.ptr != 0 && doc.input
            == InputOwnership::OwnedString(text),
{
    lemma_empty(text@);
    if text@.len() > 0 {
        let input = InputOwnership::OwnedString(text);
        let inv = |s: Step<'a, ParseOwned, Result<Document, Error>>, w: Record|
            parsing_owned(input, s, w);
        lemma_runs(inv, step, blank(0), trace, result, end);
    }
}

/// The same for bytes that the document keeps.
pub proof fn law_from_bytes_tells<'a>(
    bytes: Vec<u8>,
    step: Step<'a, ParseOwned, Result<Document, Error>>,
    trace: Seq<(Reply, Record)>,
    result: Result<Document, Error>,
    end: Record,
)
    requires
        bytes@.len() <= usize::MAX,
        call_ensures(Document::from_bytes, (bytes,), step),
        runs(step, blank(0), trace, result, end),
    ensures
        bytes@.len() == 0 ==> trace.len() == 0 && result == Err::<Document, Error>(
            Error::Parse("empty input"),
        ),
        bytes@.len() > 0 ==> told_all(end, result),
        result matches Ok(doc) ==> doc.ptr == end.made && doc.ptr != 0 && doc.input
            == InputOwnership::OwnedBytes(bytes),
{
    if bytes@.len() > 0 {
        let input = InputOwnership::OwnedBytes(bytes);
        let inv = |s: Step<'a, ParseOwned, Result<Document, Error>>, w: Record|
            parsing_owned(input, s, w);
        lemma_runs(inv, step, blank(0), trace, result, end);
    }
}

spec fn opening<'a>(w: Record, new: NewParser, call: Call<'a>) -> bool {
    match new {
        NewParser::MakingDiag => faultless(w, call) && call is DiagCreate && w.diag == 0 && !w.ended
            && !w.lined,
        NewParser::Creating { diag } => faultless(w, call) && call is ParserCreate && w.diag == diag
            && !w.ended && !w.lined,
        NewParser::Dropping => faulted(w, call, Error::Ffi("fy_parser_create returned null"))
            && call is DiagDestroy,
    }
}

/// Whether a parser is being taken down because of an error.
spec fn closing<'a>(w: Record, close: CloseParser, call: Call<'a>, error: Error) -> bool {
    &&& w.kept
    &&& w.thorough()
    &&& w.failure matches Some(e) ==> e == error
    &&& match close {
        CloseParser::Destroying { .. } => call is ParserDestroy,
        CloseParser::Dropping => call is DiagDestroy,
    }
}

/// Opening a string as a stream fails only if a call does, and says so.
pub proof fn law_parser_from_string_tells<'a>(
    yaml: &'a str,
    step: Step<'a, ParseString<'a>, Result<FyParser, Error>>,
    trace: Seq<(Reply, Record)>,
    result: Result<FyParser, Error>,
    end: Record,
)
    requires
        call_ensures(FyParser::from_string, (yaml,), step),
        runs(step, blank(0), trace, result, end),
    ensures
        told_all(end, result),
        result matches Ok(parser) ==> parser.inner.diag == end.diag,
{
    let inv = |s: Step<'a, ParseString<'a>, Result<FyParser, Error>>, w: Record|
        match s {
            Step::Ask(ParseString::Opening { new, .. }, call) => opening(w, new, call),
            Step::Ask(ParseString::Copying { inner, .. }, call) => faultless(w, call)
                && call is MallocCopy && inner.diag == w.diag,
            Step::Ask(ParseString::Setting { inner, .. }, call) => faultless(w, call)
                && call is ParserSetMallocString && inner.diag == w.diag,
            Step::Ask(ParseString::Freeing { .. }, call) => faulted(
                w,
                call,
                Error::Ffi("fy_parser_set_malloc_string failed"),
            ) && call is Free,
            Step::Ask(ParseString::Closing { close, error }, call) => w.failure is Some && closing(
                w,
                close,
                call,
                error,
            ),
            Step::Done(r) => told_all(w, r) && (r matches Ok(parser) ==> parser.inner.diag
                == w.diag),
        };
    lemma_runs(inv, step, blank(0), trace, result, end);
}

spec fn opening_stdin<'a>(w: Record, open: OpenStdin, call: Call<'a>, lined: bool) -> bool {
    match open {
        OpenStdin::Opening { line_buffered, new } => line_buffered == lined && opening(
            w,
            new,
            call,
        ),
        OpenStdin::Duping { line_buffered, inner } => line_buffered == lined && faultless(w, call)
            && call is DupStdin && inner.diag == w.diag && !w.lined && !w.ended,
        OpenStdin::FdOpening { line_buffered, inner, .. } => line_buffered == lined && faultless(
            w,
            call,
        ) && call is FdOpen && inner.diag == w.diag && !w.lined && !w.ended,
        OpenStdin::ClosingFd { .. } => faulted(w, call, Error::Io("fdopen failed"))
            && call is FdClose,
        OpenStdin::Buffering { inner, .. } => lined && faultless(w, call) && call is SetLineBuffered
            && inner.diag == w.diag && !w.ended,
        OpenStdin::Setting { inner, .. } => faultless(w, call) && call is ParserSetInputFp
            && inner.diag == w.diag && w.lined == lined && !w.ended,
        OpenStdin::ClosingFile { error, .. } => faulted(w, call, error) && call is FileClose,
        OpenStdin::Closing { close, error } => w.failure is Some && closing(w, close, call, error),
    }
}

spec fn opened_stdin(w: Record, result: Result<FyParser, Error>, lined: bool) -> bool {
    told_all(w, result) && (result matches Ok(parser) ==> parser.inner.diag == w.diag && w.lined
        == lined && !w.ended)
}

/// Opening the standard input fails only if a call does, and says so; otherwise it is read line by line
/// if that was asked for, and not if it was not.
pub proof fn law_from_stdin_with_line_buffer_tells<'a>(
    line_buffered: bool,
    step: Step<'a, OpenStdin, Result<FyParser, Error>>,
    trace: Seq<(Reply, Record)>,
    result: Result<FyParser, Error>,
    end: Record,
)
    requires
        call_ensures(FyParser::from_stdin_with_line_buffer, (line_buffered,), step),
        runs(step, blank(0), trace, result, end),
    ensures
        told_all(end, result),
        result matches Ok(parser) ==> parser.inner.diag == end.diag && end.lined == line_buffered,
{
    let inv = |s: Step<'a, OpenStdin, Result<FyParser, Error>>, w: Record|
        match s {
            Step::Ask(open, call) => opening_stdin(w, open, call, line_buffered),
            Step::Done(r) => opened_stdin(w, r, line_buffered),
        };
    lemma_runs(inv, step, blank(0), trace, result, end);
}

/// The standard input is read line by line unless asked for otherwise.
pub proof fn law_from_stdin_tells<'a>(
    step: Step<'a, OpenStdin, Result<FyParser, Error>>,
    trace: Seq<(Reply, Record)>,
    result: Result<FyParser, Error>,
    end: Record,
)
    requires
        call_ensures(FyParser::from_stdin, (), step),
        runs(step, blank(0), trace, result, end),
    ensures
        told_all(end, result),
        result matches Ok(parser) ==> parser.inner.diag == end.diag && end.lined,
{
    let inv = |s: Step<'a, OpenStdin, Result<FyParser, Error>>, w: Record|
        match s {
            Step::Ask(open, call) => opening_stdin(w, open, call, true),
            Step::Done(r) => opened_stdin(w, r, true),
        };
    lemma_runs(inv, step, blank(0), trace, result, end);
}

/// The documents of a stream are handed out from where its parser stands.
pub proof fn law_doc_iter(parser: FyParser, iter: DocumentIterator)
    requires
        call_ensures(FyParser::doc_iter, (&parser,), iter),
    ensures
        iter.inner == parser.inner,
        !iter.done,
{
}

spec fn loading<'a>(w: Record, next: NextDocument, call: Call<'a>, inner: Rc<ParserInner>) -> bool {
    match next {
        NextDocument::Loading { iter } => faultless(w, call) && call is ParseLoadDocument
            && iter.inner == inner && !iter.done && !w.ended && w.diag == inner.diag,
        NextDocument::Checking { iter } => faultless(w, call) && call is ParserGetStreamError
            && iter.inner == inner && iter.done && w.ended && w.diag == inner.diag,
        NextDocument::Peeking { iter } => w.kept && w.unparsed && w.failure == Some(
            Error::Parse("stream parse error"),
        ) && iter.inner == inner && iter.done && w.ended && w.diag == inner.diag && w.diag != 0
            && call == (Call::DiagPeekFirst { diag: w.diag }),
    }
}

/// What the next document of a stream is: the one that the parser handed out; after the end, what went
/// wrong, if anything did.
pub open spec fn next_told(
    w: Record,
    inner: Rc<ParserInner>,
    result: (DocumentIterator, Option<Result<Document, Error>>),
) -> bool {
    &&& w.kept
    &&& w.thorough()
    &&& result.0.inner == inner
    &&& result.0.done == w.ended
    &&& match result.1 {
        Some(Ok(doc)) => {
            &&& w.failure is None
            &&& !w.ended
            &&& doc.ptr == w.made
            &&& doc.ptr != 0
            &&& doc.input == InputOwnership::Parser(inner)
        },
        Some(Err(e)) => w.failure == Some(e) && w.ended,
        None => w.failure is None && w.ended,
    }
}

/// A stream that has ended is asked for nothing more; any other hands out the document that the parser
/// loads, or ends, with an error if the parser reports one.
pub proof fn law_next_document_tells<'a>(
    iter: DocumentIterator,
    step: Step<'a, NextDocument, (DocumentIterator, Option<Result<Document, Error>>)>,
    trace: Seq<(Reply, Record)>,
    result: (DocumentIterator, Option<Result<Document, Error>>),
    end: Record,
)
    requires
        call_ensures(DocumentIterator::next, (iter,), step),
        runs(step, (Record { diag: iter.inner.diag, ..blank(0) }), trace, result, end),
    ensures
        iter.done ==> trace.len() == 0 && result.0 == iter && result.1 is None,
        !iter.done ==> next_told(end, iter.inner, result),
{
    if !iter.done {
        let inv = |
            s: Step<'a, NextDocument, (DocumentIterator, Option<Result<Document, Error>>)>,
            w: Record,
        |
            match s {
                Step::Ask(next, call) => loading(w, next, call, iter.inner),
                Step::Done(r) => next_told(w, iter.inner, r),
            };
        lemma_runs(
            inv,
            step,
            Record { diag: iter.inner.diag, ..blank(0) },
            trace,
            result,
            end,
        );
    }
}

/// The document of the standard input is the first that its parser hands out. A call that fails, an
/// error in the stream and a stream without a document are reported. It is read line by line.
pub proof fn law_document_from_stdin_tells<'a>(
    step: Step<'a, FirstOfStdin, Result<Document, Error>>,
    trace: Seq<(Reply, Record)>,
    result: Result<Document, Error>,
    end: Record,
)
    requires
        call_ensures(Document::from_stdin, (), step),
        runs(step, blank(0), trace, result, end),
    ensures
        told(end, result),
        end.failure is None && end.ended ==> result == Err::<Document, Error>(
            Error::Parse("no document in stdin stream"),
        ),
        end.failure is None && !end.ended ==> (result matches Ok(doc) && doc.ptr == end.made
            && doc.ptr != 0 && doc.input is Parser && end.lined),
{
    let inv = |s: Step<'a, FirstOfStdin, Result<Document, Error>>, w: Record|
        match s {
            Step::Ask(FirstOfStdin::Opening { open }, call) => opening_stdin(w, open, call, true),
            Step::Ask(FirstOfStdin::Loading { next }, call) => w.lined && match next {
                NextDocument::Loading { iter } => loading(w, next, call, iter.inner),
                NextDocument::Checking { iter } => loading(w, next, call, iter.inner),
                NextDocument::Peeking { iter } => loading(w, next, call, iter.inner),
            },
            Step::Ask(FirstOfStdin::Closing { close, error }, call) => closing(
                w,
                close,
                call,
                error,
            ) && w.ended && (w.failure is None ==> error == Error::Parse(
                "no document in stdin stream",
            )),
            Step::Done(r) => {
                &&& told(w, r)
                &&& w.failure is None && w.ended ==> r == Err::<Document, Error>(
                    Error::Parse("no document in stdin stream"),
                )
                &&& w.failure is None && !w.ended ==> (r matches Ok(doc) && doc.ptr == w.made
                    && doc.ptr != 0 && doc.input is Parser && w.lined)
            },
        };
    lemma_runs(inv, step, blank(0), trace, result, end);
}

/// A document goes back to the parser that read it; any other is destroyed on its own.
pub proof fn law_release_document<'a>(doc: Document, call: Call<'a>)
    requires
        call_ensures(Document::release, (&doc,), call),
    ensures
        match doc.input {
            InputOwnership::Parser(inner) => call == (Call::ParseDocumentDestroy {
                parser: inner.parser,
                doc: doc.ptr,
            }),
            _ => call == (Call::DocumentDestroy { doc: doc.ptr }),
        },
{
}

/// A document that is taken over is the one at the address, with the given input.
pub proof fn law_raw_document(ptr: usize, input: InputOwnership, doc: Document)
    requires
        call_ensures(Document::from_raw_ptr, (ptr, input), doc),
    ensures
        doc.ptr == ptr,
        doc.input == input,
{
}

/// Emitting a document fails only if the call does, and says so; else it gives the bytes of the answer.
pub proof fn law_emit_tells<'a>(
    doc: Document,
    step: Step<'a, AskText, Result<Vec<u8>, Error>>,
    trace: Seq<(Reply, Record)>,
    result: Result<Vec<u8>, Error>,
    end: Record,
)
    requires
        call_ensures(Document::emit, (&doc,), step),
        runs(step, blank(doc.ptr), trace, result, end),
    ensures
        told_all(end, result),
        trace.len() == 1,
        result matches Ok(bytes) ==> trace[0].0 == Reply::Text(Some(bytes)),
{
    reveal_with_fuel(runs, 2);
}

/// The same for a node.
pub proof fn law_emit_node_tells<'a, 'doc>(
    node: NodeRef<'doc>,
    step: Step<'a, AskText, Result<Vec<u8>, Error>>,
    trace: Seq<(Reply, Record)>,
    result: Result<Vec<u8>, Error>,
    end: Record,
)
    requires
        call_ensures(NodeRef::<'doc>::emit, (&node,), step),
        runs(step, blank(node.doc.ptr), trace, result, end),
    ensures
        told_all(end, result),
        trace.len() == 1,
        result matches Ok(bytes) ==> trace[0].0 == Reply::Text(Some(bytes)),
{
    reveal_with_fuel(runs, 2);
}

/// The same for the version of libfyaml.
pub proof fn law_version_tells<'a>(
    step: Step<'a, AskText, Result<Vec<u8>, Error>>,
    trace: Seq<(Reply, Record)>,
    result: Result<Vec<u8>, Error>,
    end: Record,
)
    requires
        call_ensures(get_c_version, (), step),
        runs(step, blank(0), trace, result, end),
    ensures
        told_all(end, result),
        trace.len() == 1,
        result matches Ok(bytes) ==> trace[0].0 == Reply::Text(Some(bytes)),
{
    reveal_with_fuel(runs, 2);
}

/// An emission piece by piece fails only if a call does, and says so.
pub proof fn law_emit_events_tells<'a, 'doc>(
    emitter: Emitter<'doc>,
    step: Step<'a, EmitEvents, Result<Vec<(u32, Vec<u8>)>, Error>>,
    trace: Seq<(Reply, Record)>,
    result: Result<Vec<(u32, Vec<u8>)>, Error>,
    end: Record,
)
    requires
        call_ensures(Emitter::<'doc>::emit_events, (&emitter,), step),
        runs(step, blank(emitter.doc.ptr), trace, result, end),
    ensures
        told_all(end, result),
{
    let inv = |s: Step<'a, EmitEvents, Result<Vec<(u32, Vec<u8>)>, Error>>, w: Record|
        match s {
            Step::Ask(EmitEvents::Creating { doc }, call) => faultless(w, call) && doc == w.doc
                && call is EmitterCreate,
            Step::Ask(EmitEvents::Emitting { .. }, call) => faultless(w, call)
                && call is EmitDocument,
            Step::Ask(EmitEvents::Destroying { outcome }, call) => told_all(w, outcome)
                && call is EmitterDestroy,
            Step::Done(r) => told_all(w, r),
        };
    lemma_runs(inv, step, blank(emitter.doc.ptr), trace, result, end);
}

} // verus!
