//! What the functions that load, stream and emit documents achieve, and what they leave held.

use vstd::prelude::*;
use vstd::utf8::{decode_utf8, encode_utf8, valid_utf8};

use crate::call::{Reply, Step};
use crate::document::{CreateDocument, Document, InputOwnership, ParseOwned, ParseStr};
use crate::editor::Editor;
use crate::emitter::{events_of, EmitEvent, EmitEvents, Emitter};
use crate::error::Error;
use crate::handle::RawNodeHandle;
use crate::laws::emit::{law_emit, law_emit_events};
use crate::laws::parse::{law_parse_owned, law_parse_str, parsed};
use crate::laws::resources::{
    document_loaded, document_made, first_loaded, law_build_from_yaml_settles, law_close_parser,
    law_create_settles, law_emit_events_settles, law_first_of_stdin_settles, law_next_document,
    law_open_stdin_settles, law_parse_owned_settles, law_parse_str_settles,
    law_parser_from_string_settles, law_set_yaml_at_settles, parser_made, with_parser,
};
use crate::laws::stream::{
    first_read, law_first_of_stdin, law_from_stdin, law_from_string, next_given, stdin_opened,
    stream_opened,
};
use crate::model::ledger::{Ledger, Resource};
use crate::model::press::{before_zero, joined, seen, Press};
use crate::model::reader::Reader;
use crate::model::stream::Stream;
use crate::model::world::{lemma_runs, runs};
use crate::node_ref::{AskText, NodeRef};
use crate::parser::{
    CloseParser, DocumentIterator, FirstOfStdin, FyParser, NextDocument, OpenStdin, ParseString,
    ParserInner,
};
use crate::set_yaml::{SetYamlAt, Target};
use crate::snippet::BuildFromYaml;
use crate::text::lossy_text;
use crate::write_type::write_type;

verus! {

/// A string is parsed whole: there is a document, built from all of its bytes, if libfyaml accepts
/// them.
pub proof fn law_load_str<'a>(
    yaml: &'a str,
    step: Step<'a, ParseStr<'a>, Result<Document, Error>>,
    w: Reader,
    trace: Seq<(Reply, Reader)>,
    result: Result<Document, Error>,
    end: Reader,
)
    requires
        encode_utf8(yaml@).len() <= usize::MAX,
        call_ensures(Document::parse_str, (yaml,), step),
        runs(step, w, trace, result, end),
    ensures
        parsed(w, encode_utf8(yaml@), result, end),
{
    law_parse_str(yaml, w, trace, result, end);
}

/// The same for a string that the document keeps.
pub proof fn law_load_string<'a>(
    text: String,
    step: Step<'a, ParseOwned, Result<Document, Error>>,
    w: Reader,
    trace: Seq<(Reply, Reader)>,
    result: Result<Document, Error>,
    end: Reader,
)
    requires
        w.owned == encode_utf8(text@),
        call_ensures(Document::from_string, (text,), step),
        runs(step, w, trace, result, end),
    ensures
        parsed(w, encode_utf8(text@), result, end),
{
    law_parse_owned(InputOwnership::OwnedString(text), w, trace, result, end);
}

/// The same for bytes that the document keeps.
pub proof fn law_load_bytes<'a>(
    bytes: Vec<u8>,
    step: Step<'a, ParseOwned, Result<Document, Error>>,
    w: Reader,
    trace: Seq<(Reply, Reader)>,
    result: Result<Document, Error>,
    end: Reader,
)
    requires
        w.owned == bytes@,
        bytes@.len() <= usize::MAX,
        call_ensures(Document::from_bytes, (bytes,), step),
        runs(step, w, trace, result, end),
    ensures
        parsed(w, bytes@, result, end),
{
    law_parse_owned(InputOwnership::OwnedBytes(bytes), w, trace, result, end);
}

/// A string is opened whole as a stream, from its beginning.
pub proof fn law_load_stream<'a>(
    yaml: &'a str,
    step: Step<'a, ParseString<'a>, Result<FyParser, Error>>,
    w: Stream,
    trace: Seq<(Reply, Stream)>,
    result: Result<FyParser, Error>,
    end: Stream,
)
    requires
        encode_utf8(yaml@).len() <= usize::MAX,
        call_ensures(FyParser::from_string, (yaml,), step),
        runs(step, w, trace, result, end),
    ensures
        stream_opened(w, encode_utf8(yaml@), result, end),
{
    law_from_string(yaml, w, trace, result, end);
}

/// The standard input is opened from its beginning.
pub proof fn law_load_stdin<'a>(
    step: Step<'a, OpenStdin, Result<FyParser, Error>>,
    w: Stream,
    trace: Seq<(Reply, Stream)>,
    result: Result<FyParser, Error>,
    end: Stream,
)
    requires
        call_ensures(FyParser::from_stdin, (), step),
        runs(step, w, trace, result, end),
    ensures
        stdin_opened(w, result, end),
{
    law_from_stdin(true, w, trace, result, end);
}

/// The same however it is buffered.
pub proof fn law_load_stdin_with_line_buffer<'a>(
    line_buffered: bool,
    step: Step<'a, OpenStdin, Result<FyParser, Error>>,
    w: Stream,
    trace: Seq<(Reply, Stream)>,
    result: Result<FyParser, Error>,
    end: Stream,
)
    requires
        call_ensures(FyParser::from_stdin_with_line_buffer, (line_buffered,), step),
        runs(step, w, trace, result, end),
    ensures
        stdin_opened(w, result, end),
{
    law_from_stdin(line_buffered, w, trace, result, end);
}

/// The next document of a stream is the one that its parser stands at.
pub proof fn law_load_next<'a>(
    iter: DocumentIterator,
    bytes: Seq<u8>,
    step: Step<'a, NextDocument, (DocumentIterator, Option<Result<Document, Error>>)>,
    w: Stream,
    trace: Seq<(Reply, Stream)>,
    result: (DocumentIterator, Option<Result<Document, Error>>),
    end: Stream,
)
    requires
        w.reads(iter.inner.parser, bytes),
        call_ensures(DocumentIterator::next, (iter,), step),
        runs(step, w, trace, result, end),
    ensures
        next_given(w, bytes, iter, result, end),
        end.reads(iter.inner.parser, bytes),
{
    crate::laws::stream::law_next_document(iter, bytes, w, trace, result, end);
}

/// The document of the standard input is the first that it holds.
pub proof fn law_load_first<'a>(
    step: Step<'a, FirstOfStdin, Result<Document, Error>>,
    w: Stream,
    trace: Seq<(Reply, Stream)>,
    result: Result<Document, Error>,
    end: Stream,
)
    requires
        call_ensures(Document::from_stdin, (), step),
        runs(step, w, trace, result, end),
    ensures
        first_read(w, result, end),
        (w.pages)(w.input).len() == 0 ==> result is Err,
{
    law_first_of_stdin(true, w, trace, result, end);
}

/// A document is emitted to a string as libfyaml writes it with comments and otherwise default settings,
/// up to the first zero byte.
pub proof fn law_write_document<'a>(
    doc: Document,
    step: Step<'a, AskText, Result<Vec<u8>, Error>>,
    w: Press,
    trace: Seq<(Reply, Press)>,
    result: Result<Vec<u8>, Error>,
    end: Press,
)
    requires
        !w.scarce,
        call_ensures(Document::emit, (&doc,), step),
        runs(step, w, trace, result, end),
    ensures
        end == w,
        match (w.prints)(doc.ptr, 2, None) {
            Some(pieces) => result matches Ok(bytes) && bytes@ == before_zero(joined(pieces)),
            None => result == Err::<Vec<u8>, Error>(
                Error::Ffi("fy_emit_document_to_string returned null"),
            ),
        },
{
    law_emit(doc, "fy_emit_document_to_string returned null", w, trace, result, end);
}

/// A node is emitted to a string as libfyaml writes it with the same settings.
pub proof fn law_write_node<'a, 'doc>(
    node: NodeRef<'doc>,
    step: Step<'a, AskText, Result<Vec<u8>, Error>>,
    w: Press,
    trace: Seq<(Reply, Press)>,
    result: Result<Vec<u8>, Error>,
    end: Press,
)
    requires
        !w.scarce,
        call_ensures(NodeRef::<'doc>::emit, (&node,), step),
        runs(step, w, trace, result, end),
    ensures
        end == w,
        match (w.excerpts)(node.node, 2) {
            Some(excerpt) => result matches Ok(bytes) && bytes@ == excerpt,
            None => result == Err::<Vec<u8>, Error>(
                Error::Ffi("fy_emit_node_to_string returned null"),
            ),
        },
{
    let inv = |s: Step<'a, AskText, Result<Vec<u8>, Error>>, v: Press|
        v == w && match s {
            Step::Ask(_, _) => s == step,
            Step::Done(r) => match (w.excerpts)(node.node, 2) {
                Some(excerpt) => r matches Ok(bytes) && bytes@ == excerpt,
                None => r == Err::<Vec<u8>, Error>(
                    Error::Ffi("fy_emit_node_to_string returned null"),
                ),
            },
        };
    lemma_runs(inv, step, w, trace, result, end);
}

/// A document is emitted piece by piece as libfyaml writes it under the settings of the emitter. What
/// only an extended configuration can hold is handed over in one, and marked as such.
pub proof fn law_write_events<'a, 'doc>(
    emitter: Emitter<'doc>,
    step: Step<'a, EmitEvents, Result<Vec<(u32, Vec<u8>)>, Error>>,
    w: Press,
    trace: Seq<(Reply, Press)>,
    result: Result<Vec<(u32, Vec<u8>)>, Error>,
    end: Press,
)
    requires
        !w.scarce,
        call_ensures(Emitter::<'doc>::emit_events, (&emitter,), step),
        runs(step, w, trace, result, end),
    ensures
        end == w,
        ({
            let extended = emitter.extended;
            let written = if extended.indented_seq_in_map || extended.preserve_flow_layout {
                (w.prints)(emitter.doc.ptr, emitter.flags | 128, Some(extended))
            } else {
                (w.prints)(emitter.doc.ptr, emitter.flags, None)
            };
            match written {
                Some(pieces) => result matches Ok(got) && seen(got@) == pieces,
                None => result == Err::<Vec<(u32, Vec<u8>)>, Error>(
                    Error::Ffi("fy_emit_document failed"),
                ),
            }
        }),
{
    law_emit_events(emitter, w, trace, result, end);
}

/// Every piece that was written becomes one event, in the same order, with its type and its text.
pub proof fn law_events_of(pieces: Vec<(u32, Vec<u8>)>, events: Vec<EmitEvent>, i: int)
    requires
        call_ensures(events_of, (&pieces,), events),
        0 <= i < pieces@.len(),
    ensures
        events@.len() == pieces@.len(),
        events@[i].write_type == write_type(pieces@[i].0),
        events@[i].content@ == lossy_text(pieces@[i].1@),
        valid_utf8(pieces@[i].1@) ==> events@[i].content@ == decode_utf8(pieces@[i].1@),
{
}

/// A document that is created is all that is held afterwards.
pub proof fn law_held_new<'a>(
    step: Step<'a, CreateDocument, Result<Document, Error>>,
    l0: Ledger,
    trace: Seq<(Reply, Ledger)>,
    result: Result<Document, Error>,
    end: Ledger,
)
    requires
        call_ensures(Document::new, (), step),
        runs(step, l0, trace, result, end),
    ensures
        document_made(l0, result, end),
{
    law_create_settles(l0, trace, result, end);
}

/// So is one that is parsed from a string.
pub proof fn law_held_str<'a>(
    yaml: &'a str,
    step: Step<'a, ParseStr<'a>, Result<Document, Error>>,
    l0: Ledger,
    trace: Seq<(Reply, Ledger)>,
    result: Result<Document, Error>,
    end: Ledger,
)
    requires
        call_ensures(Document::parse_str, (yaml,), step),
        runs(step, l0, trace, result, end),
    ensures
        document_made(l0, result, end),
{
    law_parse_str_settles(yaml, l0, trace, result, end);
}

/// So is one that keeps its string.
pub proof fn law_held_string<'a>(
    text: String,
    step: Step<'a, ParseOwned, Result<Document, Error>>,
    l0: Ledger,
    trace: Seq<(Reply, Ledger)>,
    result: Result<Document, Error>,
    end: Ledger,
)
    requires
        call_ensures(Document::from_string, (text,), step),
        runs(step, l0, trace, result, end),
    ensures
        document_made(l0, result, end),
{
    law_parse_owned_settles(
        InputOwnership::OwnedString(text),
        encode_utf8(text@).len() as usize,
        l0,
        trace,
        result,
        end,
    );
}

/// So is one that keeps its bytes.
pub proof fn law_held_bytes<'a>(
    bytes: Vec<u8>,
    step: Step<'a, ParseOwned, Result<Document, Error>>,
    l0: Ledger,
    trace: Seq<(Reply, Ledger)>,
    result: Result<Document, Error>,
    end: Ledger,
)
    requires
        call_ensures(Document::from_bytes, (bytes,), step),
        runs(step, l0, trace, result, end),
    ensures
        document_made(l0, result, end),
{
    law_parse_owned_settles(
        InputOwnership::OwnedBytes(bytes),
        bytes@.len() as usize,
        l0,
        trace,
        result,
        end,
    );
}

/// A stream that is opened leaves its parser and its collector held.
pub proof fn law_held_stream<'a>(
    yaml: &'a str,
    step: Step<'a, ParseString<'a>, Result<FyParser, Error>>,
    l0: Ledger,
    trace: Seq<(Reply, Ledger)>,
    result: Result<FyParser, Error>,
    end: Ledger,
)
    requires
        call_ensures(FyParser::from_string, (yaml,), step),
        runs(step, l0, trace, result, end),
    ensures
        parser_made(l0, result, end),
{
    law_parser_from_string_settles(yaml, l0, trace, result, end);
}

/// So does the standard input.
pub proof fn law_held_stdin<'a>(
    step: Step<'a, OpenStdin, Result<FyParser, Error>>,
    l0: Ledger,
    trace: Seq<(Reply, Ledger)>,
    result: Result<FyParser, Error>,
    end: Ledger,
)
    requires
        call_ensures(FyParser::from_stdin, (), step),
        runs(step, l0, trace, result, end),
    ensures
        parser_made(l0, result, end),
{
    law_open_stdin_settles(true, l0, trace, result, end);
}

/// So does the standard input however it is buffered.
pub proof fn law_held_stdin_with_line_buffer<'a>(
    line_buffered: bool,
    step: Step<'a, OpenStdin, Result<FyParser, Error>>,
    l0: Ledger,
    trace: Seq<(Reply, Ledger)>,
    result: Result<FyParser, Error>,
    end: Ledger,
)
    requires
        call_ensures(FyParser::from_stdin_with_line_buffer, (line_buffered,), step),
        runs(step, l0, trace, result, end),
    ensures
        parser_made(l0, result, end),
{
    law_open_stdin_settles(line_buffered, l0, trace, result, end);
}

/// Each document that is handed out is one thing more that is held.
pub proof fn law_held_next<'a>(
    iter: DocumentIterator,
    step: Step<'a, NextDocument, (DocumentIterator, Option<Result<Document, Error>>)>,
    l0: Ledger,
    trace: Seq<(Reply, Ledger)>,
    result: (DocumentIterator, Option<Result<Document, Error>>),
    end: Ledger,
)
    requires
        l0.has(Resource::Parser(iter.inner.parser)),
        l0.holds_diag(iter.inner.diag),
        call_ensures(DocumentIterator::next, (iter,), step),
        runs(step, l0, trace, result, end),
    ensures
        document_loaded(l0, iter, result, end),
{
    law_next_document(iter, l0, trace, result, end);
}

/// The document of the standard input is held along with its parser.
pub proof fn law_held_first<'a>(
    step: Step<'a, FirstOfStdin, Result<Document, Error>>,
    l0: Ledger,
    trace: Seq<(Reply, Ledger)>,
    result: Result<Document, Error>,
    end: Ledger,
)
    requires
        call_ensures(Document::from_stdin, (), step),
        runs(step, l0, trace, result, end),
    ensures
        first_loaded(l0, result, end),
{
    law_first_of_stdin_settles(l0, trace, result, end);
}

/// Taking a parser down gives back the parser and its collector.
pub proof fn law_held_close<'a>(
    inner: ParserInner,
    step: Step<'a, CloseParser, ()>,
    l0: Ledger,
    start: Ledger,
    trace: Seq<(Reply, Ledger)>,
    end: Ledger,
)
    requires
        with_parser(l0, inner, start),
        call_ensures(CloseParser::start, (&inner,), step),
        runs(step, start, trace, (), end),
    ensures
        end == l0,
{
    law_close_parser(inner, l0, start, trace, end);
}

/// An emission leaves nothing held.
pub proof fn law_held_events<'a>(
    emitter: Emitter<'a>,
    step: Step<'a, EmitEvents, Result<Vec<(u32, Vec<u8>)>, Error>>,
    l0: Ledger,
    trace: Seq<(Reply, Ledger)>,
    result: Result<Vec<(u32, Vec<u8>)>, Error>,
    end: Ledger,
)
    requires
        call_ensures(Emitter::<'a>::emit_events, (&emitter,), step),
        runs(step, l0, trace, result, end),
    ensures
        end == l0,
{
    law_emit_events_settles(emitter, l0, trace, result, end);
}

/// Building a node from a snippet leaves nothing held.
pub proof fn law_held_build<'a, 'doc>(
    e: &mut Editor<'doc>,
    yaml: &'a str,
    step: Step<'a, BuildFromYaml<'a>, Result<RawNodeHandle, Error>>,
    l0: Ledger,
    trace: Seq<(Reply, Ledger)>,
    result: Result<RawNodeHandle, Error>,
    end: Ledger,
)
    requires
        call_ensures(Editor::<'doc>::build_from_yaml, (e, yaml), step),
        runs(step, l0, trace, result, end),
    ensures
        end == l0,
{
    law_build_from_yaml_settles(old(e).doc.ptr, yaml, l0, trace, result, end);
}

/// Building a null leaves nothing held.
pub proof fn law_held_null<'a, 'doc>(
    e: &mut Editor<'doc>,
    step: Step<'a, BuildFromYaml<'a>, Result<RawNodeHandle, Error>>,
    l0: Ledger,
    trace: Seq<(Reply, Ledger)>,
    result: Result<RawNodeHandle, Error>,
    end: Ledger,
)
    requires
        call_ensures(Editor::<'doc>::build_null, (e,), step),
        runs(step, l0, trace, result, end),
    ensures
        end == l0,
{
    law_build_from_yaml_settles(old(e).doc.ptr, "null", l0, trace, result, end);
}

/// Setting a value leaves nothing held.
pub proof fn law_held_set<'a, 'doc>(
    e: &mut Editor<'doc>,
    path: &'a str,
    yaml: &'a str,
    step: Step<'a, SetYamlAt<'a>, Result<(), Error>>,
    l0: Ledger,
    trace: Seq<(Reply, Ledger)>,
    result: Result<(), Error>,
    end: Ledger,
)
    requires
        call_ensures(Editor::<'doc>::set_yaml_at, (e, path, yaml), step),
        runs(step, l0, trace, result, end),
    ensures
        end == l0,
{
    let doc = old(e).doc.ptr;
    let target = choose|target: Target<'a>| #[trigger]
        target.denotes(path@) && step == SetYamlAt::started(doc, target, yaml);
    law_set_yaml_at_settles(doc, target, yaml, l0, trace, result, end);
}

} // verus!
