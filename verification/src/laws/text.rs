//! What is read of scalars and tags.

use vstd::prelude::*;
use vstd::utf8::{encode_utf8, encode_utf8_decode_utf8, encode_utf8_valid_utf8, valid_utf8};

use crate::call::{Call, Reply, Session, Step};
use crate::document::Document;
use crate::error::Error;
use crate::handle::RawNodeHandle;
use crate::laws::make::{law_make_node, law_set_tag};
use crate::make::{MakeNode, SetTag};
use crate::model::heap::{is_local_tag, Heap};
use crate::model::snapshot::Snapshot;
use crate::model::world::{lemma_runs, runs, World};
use crate::node_ref::{AskScalar, AskTag, NodeRef, Span};
use crate::text::{display_text, emitted_text, is_text_of, lossy_text, text_of, text_of_lossy};

verus! {

/// Whether the bytes of a text fit into a slice.
pub open spec fn fits_slice(text: Seq<char>) -> bool {
    encode_utf8(text).len() <= isize::MAX
}

/// Whether a span covers just the bytes of a text.
pub open spec fn spans(w: Snapshot, span: Span, text: Seq<char>) -> bool {
    (w.memory)(span.address, span.len) == encode_utf8(text)
}

/// The text that bytes encode is taken from them as it is.
pub proof fn law_text_of_encoded(text: Seq<char>, r: Result<&str, Error>)
    requires
        is_text_of(encode_utf8(text), r),
    ensures
        r matches Ok(s) && s@ == text,
{
    encode_utf8_valid_utf8(text);
    encode_utf8_decode_utf8(text);
}

/// What asking for the bytes of a scalar gives: those of its text, unless it stands nowhere or does not
/// fit into a slice; and an error for a node that is no scalar.
pub open spec fn scalar_read(w: Snapshot, node: usize, result: Result<Span, Error>) -> bool {
    match w.text(node) {
        None => result == Err::<Span, Error>(
            Error::TypeMismatch { expected: "scalar", got: "non-scalar or null" },
        ),
        Some(text) => !w.heap.scarce ==> {
            let placed = text.len() > 0 || (w.scalars)(node);
            &&& placed && fits_slice(text) ==> (result matches Ok(span) && spans(w, span, text)
                && span.len == encode_utf8(text).len())
            &&& placed && !fits_slice(text) ==> result == Err::<Span, Error>(
                Error::ScalarTooLarge(encode_utf8(text).len() as usize),
            )
            &&& !placed ==> result == Err::<Span, Error>(
                Error::TypeMismatch { expected: "scalar", got: "non-scalar or null" },
            )
        },
    }
}

/// The bytes of a scalar are those of its text; other nodes have none. Reading changes nothing.
pub proof fn law_scalar_bytes<'a>(
    node: usize,
    w: Snapshot,
    trace: Seq<(Reply, Snapshot)>,
    result: Result<Span, Error>,
    end: Snapshot,
)
    requires
        w.heap.has(node),
        runs(
            Step::<'a, AskScalar, Result<Span, Error>>::Ask(AskScalar, Call::NodeGetScalar { node }),
            w,
            trace,
            result,
            end,
        ),
    ensures
        end == w,
        scalar_read(w, node, result),
{
    let start = Step::<'a, AskScalar, Result<Span, Error>>::Ask(
        AskScalar,
        Call::NodeGetScalar { node },
    );
    let inv = |step: Step<'a, AskScalar, Result<Span, Error>>, v: Snapshot|
        v == w && match step {
            Step::Ask(_, _) => step == start,
            Step::Done(r) => scalar_read(w, node, r),
        };
    lemma_runs(inv, start, w, trace, result, end);
}

/// What asking for the bytes of a tag gives: those of its text, or nothing for a node without one.
pub open spec fn tag_read(w: Snapshot, node: usize, result: Result<Option<Span>, Error>) -> bool {
    match w.heap.nodes[node].tag {
        None => result == Ok::<Option<Span>, Error>(None),
        Some(text) => !w.heap.scarce ==> {
            let placed = text.len() > 0 || (w.tags)(node);
            &&& placed && fits_slice(text) ==> (result matches Ok(Some(span)) && spans(w, span, text)
                && span.len == encode_utf8(text).len())
            &&& placed && !fits_slice(text) ==> result == Err::<Option<Span>, Error>(
                Error::ScalarTooLarge(encode_utf8(text).len() as usize),
            )
            &&& !placed ==> result == Ok::<Option<Span>, Error>(None)
        },
    }
}

/// The bytes of a tag are those of its text; a node may have none. Reading changes nothing.
pub proof fn law_tag_bytes<'a>(
    node: usize,
    w: Snapshot,
    trace: Seq<(Reply, Snapshot)>,
    result: Result<Option<Span>, Error>,
    end: Snapshot,
)
    requires
        w.heap.has(node),
        runs(
            Step::<'a, AskTag, Result<Option<Span>, Error>>::Ask(AskTag, Call::NodeGetTag { node }),
            w,
            trace,
            result,
            end,
        ),
    ensures
        end == w,
        tag_read(w, node, result),
{
    let start = Step::<'a, AskTag, Result<Option<Span>, Error>>::Ask(
        AskTag,
        Call::NodeGetTag { node },
    );
    let inv = |step: Step<'a, AskTag, Result<Option<Span>, Error>>, v: Snapshot|
        v == w && match step {
            Step::Ask(_, _) => step == start,
            Step::Done(r) => tag_read(w, node, r),
        };
    lemma_runs(inv, start, w, trace, result, end);
}

/// A scalar that was built reads back as the text it was built from.
pub proof fn law_built_scalar_reads<'a>(
    doc: usize,
    message: &'static str,
    text: &'a str,
    h0: Heap,
    making: Seq<(Reply, Heap)>,
    node: RawNodeHandle,
    w: Snapshot,
    reading: Seq<(Reply, Snapshot)>,
    result: Result<Span, Error>,
    end: Snapshot,
    read: Result<&'a str, Error>,
)
    requires
        !h0.scarce,
        text@.len() > 0,
        fits_slice(text@),
        runs(
            Step::Ask(MakeNode { message }, Call::NodeCreateScalarCopy { doc, text }),
            h0,
            making,
            Ok(node),
            w.heap,
        ),
        runs(
            Step::<'a, AskScalar, Result<Span, Error>>::Ask(
                AskScalar,
                Call::NodeGetScalar { node: node.node },
            ),
            w,
            reading,
            result,
            end,
        ),
        result matches Ok(span) ==> is_text_of((w.memory)(span.address, span.len), read),
    ensures
        result is Ok,
        read matches Ok(s) && s@ == text@,
{
    law_make_node(
        message,
        Call::NodeCreateScalarCopy { doc, text },
        h0,
        making,
        Ok(node),
        w.heap,
    );
    law_scalar_bytes(node.node, w, reading, result, end);
    law_text_of_encoded(text@, read);
}

/// A local tag that was set reads back as it was set, where its mark stands for itself.
pub proof fn law_set_tag_reads<'a>(
    node: usize,
    tag: &'a str,
    h0: Heap,
    setting: Seq<(Reply, Heap)>,
    w: Snapshot,
    reading: Seq<(Reply, Snapshot)>,
    result: Result<Option<Span>, Error>,
    end: Snapshot,
    read: Result<&'a str, Error>,
)
    requires
        !h0.scarce,
        h0.has(node),
        h0.local == seq!['!'],
        is_local_tag(tag@),
        fits_slice(tag@),
        runs(Step::Ask(SetTag, Call::NodeSetTag { node, tag }), h0, setting, Ok(()), w.heap),
        runs(
            Step::<'a, AskTag, Result<Option<Span>, Error>>::Ask(AskTag, Call::NodeGetTag { node }),
            w,
            reading,
            result,
            end,
        ),
        result matches Ok(Some(span)) ==> is_text_of((w.memory)(span.address, span.len), read),
    ensures
        result matches Ok(Some(_)),
        read matches Ok(s) && s@ == tag@,
{
    law_set_tag(node, tag, h0, setting, Ok(()), w.heap);
    law_tag_bytes(node, w, reading, result, end);
    law_text_of_encoded(tag@, read);
}

/// Bytes are taken as the text that they encode, whatever it is; bytes that are not valid UTF-8 are
/// refused.
pub proof fn law_text_of<'a>(bytes: &'a [u8], text: Seq<char>, r: Result<&'a str, Error>)
    requires
        call_ensures(text_of, (bytes,), r),
    ensures
        bytes@ == encode_utf8(text) ==> (r matches Ok(s) && s@ == text),
        !valid_utf8(bytes@) ==> r == Err::<&'a str, Error>(Error::Utf8),
{
    if bytes@ == encode_utf8(text) {
        law_text_of_encoded(text, r);
    }
}

/// Bytes that encode a text are taken as that text also where others would be replaced.
pub proof fn law_text_of_lossy(bytes: &[u8], text: Seq<char>, r: String)
    requires
        call_ensures(text_of_lossy, (bytes,), r),
    ensures
        bytes@ == encode_utf8(text) ==> r@ == text,
        r@ == lossy_text(bytes@),
{
    encode_utf8_valid_utf8(text);
    encode_utf8_decode_utf8(text);
}

/// What was emitted is the text that its bytes encode; a failure stays what it is.
pub proof fn law_emitted_text(
    bytes: Result<Vec<u8>, Error>,
    text: Seq<char>,
    r: Result<String, Error>,
)
    requires
        call_ensures(emitted_text, (bytes,), r),
    ensures
        match bytes {
            Ok(b) => r matches Ok(s) && s@ == lossy_text(b@) && (b@ == encode_utf8(text) ==> s@
                == text),
            Err(e) => r == Err::<String, Error>(e),
        },
{
    encode_utf8_valid_utf8(text);
    encode_utf8_decode_utf8(text);
}

/// The text of a scalar is the one that its bytes encode; a failure to get at them stays what it is.
pub proof fn law_scalar_str<'doc>(
    node: NodeRef<'doc>,
    bytes: Result<&'doc [u8], Error>,
    text: Seq<char>,
    r: Result<&'doc str, Error>,
)
    requires
        call_ensures(NodeRef::<'doc>::scalar_str, (&node, bytes), r),
    ensures
        match bytes {
            Ok(b) => {
                &&& b@ == encode_utf8(text) ==> (r matches Ok(s) && s@ == text)
                &&& !valid_utf8(b@) ==> r == Err::<&'doc str, Error>(Error::Utf8)
            },
            Err(e) => r == Err::<&'doc str, Error>(e),
        },
{
    if let Ok(b) = bytes {
        if b@ == encode_utf8(text) {
            law_text_of_encoded(text, r);
        }
    }
}

/// The same for a tag, which a node may not have.
pub proof fn law_tag_str<'doc>(
    node: NodeRef<'doc>,
    bytes: Result<Option<&'doc [u8]>, Error>,
    text: Seq<char>,
    r: Result<Option<&'doc str>, Error>,
)
    requires
        call_ensures(NodeRef::<'doc>::tag_str, (&node, bytes), r),
    ensures
        match bytes {
            Ok(Some(b)) => {
                &&& b@ == encode_utf8(text) ==> (r matches Ok(Some(s)) && s@ == text)
                &&& !valid_utf8(b@) ==> r == Err::<Option<&'doc str>, Error>(Error::Utf8)
            },
            Ok(None) => r == Ok::<Option<&'doc str>, Error>(None),
            Err(e) => r == Err::<Option<&'doc str>, Error>(e),
        },
{
    encode_utf8_valid_utf8(text);
    encode_utf8_decode_utf8(text);
}

/// What is shown of a document is its text, or a note that there is none.
pub proof fn law_display_document(emitted: Result<String, Error>, r: String)
    requires
        call_ensures(Document::display, (emitted,), r),
    ensures
        match emitted {
            Ok(s) => r@ == s@,
            Err(_) => r@ == "<Document emit error>"@,
        },
{
}

/// What is shown of a node is its text, or a note that there is none.
pub proof fn law_display_node(emitted: Result<String, Error>, r: String)
    requires
        call_ensures(NodeRef::display, (emitted,), r),
    ensures
        match emitted {
            Ok(s) => r@ == s@,
            Err(_) => r@ == "<NodeRef emit error>"@,
        },
{
}

/// What is shown of anything is its text, or what stands in for it.
pub proof fn law_display_text(emitted: Result<String, Error>, failure: &'static str, r: String)
    requires
        call_ensures(display_text, (emitted, failure), r),
    ensures
        match emitted {
            Ok(s) => r@ == s@,
            Err(_) => r@ == failure@,
        },
{
}

} // verus!
