//! What parsing a document achieves, whichever way its input comes.

use vstd::prelude::*;
use vstd::utf8::encode_utf8;

use crate::call::{Call, Reply, Session, Step};
use crate::document::{Document, InputOwnership, ParseOwned, ParseStr};
use crate::error::Error;
use crate::laws::emit::{emitting, law_emit};
use crate::laws::read::law_at_path;
use crate::model::heap::{look_alike, segments, Body, Heap};
use crate::model::press::Press;
use crate::model::reader::Reader;
use crate::model::world::{lemma_runs, runs, World};
use crate::node_ref::{LookupAt, NodeRef};

verus! {

/// The bytes of input that a document keeps.
pub open spec fn kept_bytes(input: InputOwnership) -> Seq<u8> {
    match input {
        InputOwnership::OwnedString(s) => encode_utf8(s@),
        InputOwnership::OwnedBytes(bytes) => bytes@,
        _ => Seq::empty(),
    }
}

/// What parsing `bytes` leaves behind: a document that was built from all of them, if there are any
/// and libfyaml accepts them; otherwise, or where memory ran out, nothing, with an error of its own
/// for empty input.
pub open spec fn parsed(
    w: Reader,
    bytes: Seq<u8>,
    result: Result<Document, Error>,
    after: Reader,
) -> bool {
    match result {
        Ok(doc) => {
            &&& bytes.len() > 0
            &&& (w.accepts)(bytes)
            &&& !w.documents.contains_key(doc.ptr)
            &&& after == w.with_document(doc.ptr, bytes)
        },
        Err(e) => {
            &&& after == w
            &&& bytes.len() == 0 ==> e == Error::Parse("empty input")
            &&& bytes.len() > 0 ==> w.scarce || !(w.accepts)(bytes)
        },
    }
}

/// Parsing a string succeeds, unless memory runs out, exactly when libfyaml accepts its bytes, and the
/// document is built from just those bytes.
pub proof fn law_parse_str<'a>(
    s: &'a str,
    w: Reader,
    trace: Seq<(Reply, Reader)>,
    result: Result<Document, Error>,
    end: Reader,
)
    requires
        encode_utf8(s@).len() <= usize::MAX,
        runs(Document::parsing(s), w, trace, result, end),
    ensures
        parsed(w, encode_utf8(s@), result, end),
{
    let bytes = encode_utf8(s@);
    lemma_empty(s@);
    assert(bytes.take(bytes.len() as int) =~= bytes);
    let copied = |v: Reader, buffer: usize|
        v == w.with_buffer(buffer, bytes) && !w.buffers.contains_key(buffer);
    let inv = |step: Step<'a, ParseStr<'a>, Result<Document, Error>>, v: Reader|
        match step {
            Step::Done(r) => parsed(w, bytes, r, v),
            Step::Ask(state, call) => bytes.len() > 0 && match state {
                ParseStr::Copying { yaml } => v == w && yaml == s && call == Call::MallocCopy {
                    text: s,
                },
                ParseStr::MakingDiag { yaml, buffer } => copied(v, buffer) && yaml == s && call
                    is DiagCreate,
                ParseStr::Building { buffer, diag } => copied(v, buffer) && call
                    == Call::DocumentBuildFromMallocString { diag, buffer, len: s.len() },
                ParseStr::FreeingBuffer { .. } => (w.scarce || !(w.accepts)(bytes)) && (call matches Call::Free {
                    buffer,
                } && copied(v, buffer)),
                ParseStr::Diagnosing => v == w && (w.scarce || !(w.accepts)(bytes)) && call
                    is DiagTakeFirst,
                ParseStr::Dropping { ptr } => call is DiagDestroy && !w.documents.contains_key(ptr)
                    && (w.accepts)(bytes) && v == w.with_document(ptr, bytes),
            },
        };
    assert forall|state: ParseStr<'a>, call: Call<'a>, before: Reader, reply: Reply, after: Reader|
        inv(Step::Ask(state, call), before) && #[trigger] before.performs(
            call,
            reply,
            after,
        ) implies inv(#[trigger] state.resumed(reply), after) by {
        if let Call::Free { buffer } = call {
            assert(w.buffers.insert(buffer, bytes).remove(buffer) =~= w.buffers);
        }
        if let Call::DocumentBuildFromMallocString { buffer, .. } = call {
            assert(w.buffers.insert(buffer, bytes).remove(buffer) =~= w.buffers);
        }
    }
    lemma_runs(inv, Document::parsing(s), w, trace, result, end);
}

/// Parsing input in place succeeds, unless memory runs out, exactly when libfyaml accepts its bytes, and
/// the document is built from just those bytes.
pub proof fn law_parse_owned<'a>(
    input: InputOwnership,
    w: Reader,
    trace: Seq<(Reply, Reader)>,
    result: Result<Document, Error>,
    end: Reader,
)
    requires
        w.owned == kept_bytes(input),
        kept_bytes(input).len() <= usize::MAX,
        runs(
            Document::parsing_owned::<'a>(input, kept_bytes(input).len() as usize),
            w,
            trace,
            result,
            end,
        ),
    ensures
        parsed(w, kept_bytes(input), result, end),
{
    let bytes = kept_bytes(input);
    let start = Document::parsing_owned::<'a>(input, bytes.len() as usize);
    assert(bytes.take(bytes.len() as int) =~= bytes);
    let inv = |step: Step<'a, ParseOwned, Result<Document, Error>>, v: Reader|
        match step {
            Step::Done(r) => parsed(w, bytes, r, v),
            Step::Ask(state, call) => bytes.len() > 0 && match state {
                ParseOwned::MakingDiag { len, .. } => v == w && len == bytes.len() && call
                    is DiagCreate,
                ParseOwned::Building { diag, .. } => v == w && call
                    == Call::DocumentBuildFromOwned { diag, len: bytes.len() as usize },
                ParseOwned::Diagnosing => v == w && (w.scarce || !(w.accepts)(bytes)) && call
                    is DiagTakeFirst,
                ParseOwned::Dropping { ptr, .. } => call is DiagDestroy
                    && !w.documents.contains_key(ptr) && (w.accepts)(bytes) && v
                    == w.with_document(ptr, bytes),
            },
        };
    lemma_runs(inv, start, w, trace, result, end);
}

/// Only the empty text has no bytes.
pub proof fn lemma_empty(text: Seq<char>)
    ensures
        encode_utf8(text).len() == 0 <==> text.len() == 0,
{
}

/// Whether the document at `doc` was built from `bytes`.
pub open spec fn made_of(w: Reader, doc: usize, bytes: Seq<u8>) -> bool {
    w.documents.contains_key(doc) && w.documents[doc] == bytes
}

/// A text may be parsed as a string slice, as a string or as bytes: it is refused as empty by all
/// three or by none, only what libfyaml accepts is parsed by any of them, and what the documents are
/// built from is the same. Unless memory runs out for one of them, it is parsed by all three or by
/// none.
pub proof fn law_parsed_alike<'a>(
    s: &'a str,
    string: String,
    bytes: Vec<u8>,
    worlds: (Reader, Reader, Reader),
    traces: (Seq<(Reply, Reader)>, Seq<(Reply, Reader)>, Seq<(Reply, Reader)>),
    results: (Result<Document, Error>, Result<Document, Error>, Result<Document, Error>),
    ends: (Reader, Reader, Reader),
)
    requires
        string@ == s@,
        bytes@ == encode_utf8(s@),
        bytes@.len() <= usize::MAX,
        worlds.0.agrees(worlds.1) && worlds.1.agrees(worlds.2),
        worlds.1.owned == bytes@ && worlds.2.owned == bytes@,
        runs(Document::parsing(s), worlds.0, traces.0, results.0, ends.0),
        runs(
            Document::parsing_owned::<'a>(
                InputOwnership::OwnedString(string),
                encode_utf8(string@).len() as usize,
            ),
            worlds.1,
            traces.1,
            results.1,
            ends.1,
        ),
        runs(
            Document::parsing_owned::<'a>(
                InputOwnership::OwnedBytes(bytes),
                bytes@.len() as usize,
            ),
            worlds.2,
            traces.2,
            results.2,
            ends.2,
        ),
    ensures
        results.0 is Ok || results.1 is Ok || results.2 is Ok ==> s@.len() > 0 && (
        worlds.0.accepts)(bytes@),
        !worlds.0.scarce && !worlds.1.scarce && !worlds.2.scarce ==> {
            &&& results.0 is Ok <==> results.1 is Ok
            &&& results.1 is Ok <==> results.2 is Ok
            &&& results.0 is Ok <==> s@.len() > 0 && (worlds.0.accepts)(bytes@)
        },
        s@.len() == 0 ==> results.0 == Err::<Document, Error>(Error::Parse("empty input"))
            && results.1 == results.0 && results.2 == results.0,
        results.0 matches Ok(doc) ==> made_of(ends.0, doc.ptr, bytes@),
        results.1 matches Ok(doc) ==> made_of(ends.1, doc.ptr, bytes@),
        results.2 matches Ok(doc) ==> made_of(ends.2, doc.ptr, bytes@),
        ends.0.agrees(ends.1) && ends.1.agrees(ends.2),
{
    lemma_empty(s@);
    law_parse_str(s, worlds.0, traces.0, results.0, ends.0);
    law_parse_owned(
        InputOwnership::OwnedString(string),
        worlds.1,
        traces.1,
        results.1,
        ends.1,
    );
    law_parse_owned(InputOwnership::OwnedBytes(bytes), worlds.2, traces.2, results.2, ends.2);
}

/// Whether two documents have roots that look alike, or none.
pub open spec fn same_document(a: Heap, b: Heap) -> bool {
    &&& a.root == 0 <==> b.root == 0
    &&& a.root != 0 ==> look_alike(a.nodes, a.root, b.nodes, b.root)
}

/// Documents that look alike read alike.
pub proof fn lemma_read_alike<'a, 'doc>(
    docs: (&'doc Document, &'doc Document),
    path: &'a str,
    heaps: (Heap, Heap),
    traces: (Seq<(Reply, Heap)>, Seq<(Reply, Heap)>),
    results: (Option<NodeRef<'doc>>, Option<NodeRef<'doc>>),
    ends: (Heap, Heap),
)
    requires
        same_document(heaps.0, heaps.1),
        heaps.0.well_formed() && heaps.1.well_formed(),
        heaps.0.same_rules(heaps.1),
        heaps.0.sure(path@),
        runs(
            Step::Ask(
                LookupAt::Rooting { doc: docs.0, path },
                Call::DocumentRoot { doc: docs.0.ptr },
            ),
            heaps.0,
            traces.0,
            results.0,
            ends.0,
        ),
        runs(
            Step::Ask(
                LookupAt::Rooting { doc: docs.1, path },
                Call::DocumentRoot { doc: docs.1.ptr },
            ),
            heaps.1,
            traces.1,
            results.1,
            ends.1,
        ),
    ensures
        results.0 is Some <==> results.1 is Some,
        results.0 matches Some(a) ==> (results.1 matches Some(b) && {
            &&& look_alike(heaps.0.nodes, a.node, heaps.1.nodes, b.node)
            &&& heaps.0.type_number(a.node) == heaps.1.type_number(b.node)
            &&& heaps.0.body(a.node) matches Body::Scalar(text) ==> heaps.1.body(b.node)
                == Body::Scalar(text)
        }),
{
    law_at_path(docs.0, path, heaps.0, traces.0, results.0, ends.0);
    law_at_path(docs.1, path, heaps.1, traces.1, results.1, ends.1);
    let (h0, h1) = heaps;
    if h0.root != 0 {
        h0.lemma_lead_alike(h0.root, h1, h1.root, path@);
        h0.lemma_walk_alike(h0.root, h1, h1.root, segments(path@));
        if h0.place(path@) != 0 {
            h0.lemma_twins(h0.place(path@), h1, h1.place(path@));
        }
    }
}

/// Documents that were built from the same bytes read alike: a path leads to something in both or in
/// neither, and what it leads to looks alike, and so is of the same kind and text. Where memory is
/// scarce this holds of paths of plain steps.
pub proof fn law_parsed_read_alike<'a, 'doc>(
    docs: (&'doc Document, &'doc Document),
    bytes: Seq<u8>,
    readers: (Reader, Reader),
    path: &'a str,
    heaps: (Heap, Heap),
    traces: (Seq<(Reply, Heap)>, Seq<(Reply, Heap)>),
    results: (Option<NodeRef<'doc>>, Option<NodeRef<'doc>>),
    ends: (Heap, Heap),
)
    requires
        readers.0.agrees(readers.1),
        made_of(readers.0, docs.0.ptr, bytes),
        made_of(readers.1, docs.1.ptr, bytes),
        readers.0.parsed_into(docs.0.ptr, heaps.0),
        readers.1.parsed_into(docs.1.ptr, heaps.1),
        heaps.0.well_formed() && heaps.1.well_formed(),
        heaps.0.same_rules(heaps.1),
        heaps.0.sure(path@),
        runs(
            Step::Ask(
                LookupAt::Rooting { doc: docs.0, path },
                Call::DocumentRoot { doc: docs.0.ptr },
            ),
            heaps.0,
            traces.0,
            results.0,
            ends.0,
        ),
        runs(
            Step::Ask(
                LookupAt::Rooting { doc: docs.1, path },
                Call::DocumentRoot { doc: docs.1.ptr },
            ),
            heaps.1,
            traces.1,
            results.1,
            ends.1,
        ),
    ensures
        results.0 is Some <==> results.1 is Some,
        results.0 matches Some(a) ==> (results.1 matches Some(b) && {
            &&& look_alike(heaps.0.nodes, a.node, heaps.1.nodes, b.node)
            &&& heaps.0.type_number(a.node) == heaps.1.type_number(b.node)
            &&& heaps.0.body(a.node) matches Body::Scalar(text) ==> heaps.1.body(b.node)
                == Body::Scalar(text)
        }),
{
    lemma_read_alike(docs, path, heaps, traces, results, ends);
}

/// Documents that were built from the same bytes are emitted alike, where memory does not run short.
pub proof fn law_parsed_emit_alike<'a>(
    docs: (Document, Document),
    message: &'static str,
    bytes: Seq<u8>,
    readers: (Reader, Reader),
    presses: (Press, Press),
    traces: (Seq<(Reply, Press)>, Seq<(Reply, Press)>),
    results: (Result<Vec<u8>, Error>, Result<Vec<u8>, Error>),
    ends: (Press, Press),
)
    requires
        readers.0.agrees(readers.1),
        made_of(readers.0, docs.0.ptr, bytes),
        made_of(readers.1, docs.1.ptr, bytes),
        readers.0.printed_by(docs.0.ptr, presses.0),
        readers.1.printed_by(docs.1.ptr, presses.1),
        !presses.0.scarce && !presses.1.scarce,
        runs(emitting::<'a>(docs.0.ptr, message), presses.0, traces.0, results.0, ends.0),
        runs(emitting::<'a>(docs.1.ptr, message), presses.1, traces.1, results.1, ends.1),
    ensures
        results.0 is Ok <==> results.1 is Ok,
        results.0 matches Ok(a) ==> (results.1 matches Ok(b) && a@ == b@),
{
    law_emit(docs.0, message, presses.0, traces.0, results.0, ends.0);
    law_emit(docs.1, message, presses.1, traces.1, results.1, ends.1);
}

} // verus!
