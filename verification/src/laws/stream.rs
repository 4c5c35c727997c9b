//! What reading documents from a stream gives.

use vstd::prelude::*;
use vstd::utf8::encode_utf8;

use crate::call::{Call, Reply, Session, Step};
use crate::document::Document;
use crate::error::Error;
use crate::laws::parse::lemma_read_alike;
use crate::model::heap::{look_alike, Body, Heap};
use crate::model::stream::{at_start, Feed, Stream};
use crate::model::world::{lemma_runs, runs, World};
use crate::node_ref::{LookupAt, NodeRef};
use crate::parser::{
    ended, CloseParser, DocumentIterator, FirstOfStdin, FyParser, NewParser, NextDocument,
    OpenStdin, ParseString, ParserInner,
};

verus! {

/// Whether `v` is `w` with one more parser, which reads nothing yet.
spec fn opened(w: Stream, inner: ParserInner, v: Stream) -> bool {
    &&& !w.parsers.contains_key(inner.parser)
    &&& v == w.with_parser(inner.parser, Feed { bytes: None, at: 0, ended: false })
}

/// How far a session that creates a parser has got.
spec fn creating<'a>(
    w: Stream,
    step: Step<'a, NewParser, Result<ParserInner, Error>>,
    v: Stream,
) -> bool {
    match step {
        Step::Done(Ok(inner)) => opened(w, inner, v),
        Step::Done(Err(_)) => v == w && w.scarce,
        Step::Ask(s, call) => v == w && match s {
            NewParser::MakingDiag => call is DiagCreate,
            NewParser::Creating { .. } => call is ParserCreate,
            NewParser::Dropping => call is DiagDestroy && w.scarce,
        },
    }
}

/// How far a session that takes a parser down has got.
spec fn closing<'a>(w: Stream, step: Step<'a, CloseParser, ()>, v: Stream) -> bool {
    match step {
        Step::Done(_) => v == w,
        Step::Ask(s, call) => match s {
            CloseParser::Destroying { .. } => {
                &&& call matches Call::ParserDestroy { parser }
                &&& v.parsers.contains_key(parser)
                &&& v.without_parser(parser) == w
            },
            CloseParser::Dropping => call is DiagDestroy && v == w,
        },
    }
}

/// What opening a string leaves behind: a parser at the beginning of its bytes; or, where memory ran
/// out, nothing.
pub open spec fn stream_opened(
    w: Stream,
    bytes: Seq<u8>,
    result: Result<FyParser, Error>,
    v: Stream,
) -> bool {
    match result {
        Ok(parser) => {
            &&& !w.parsers.contains_key(parser.inner.parser)
            &&& v == w.with_parser(parser.inner.parser, at_start(bytes))
        },
        Err(_) => v == w && w.scarce,
    }
}

/// How far a session that opens a string has got.
spec fn opening<'a>(
    w: Stream,
    text: &'a str,
    step: Step<'a, ParseString<'a>, Result<FyParser, Error>>,
    v: Stream,
) -> bool {
    let bytes = encode_utf8(text@);
    match step {
        Step::Done(result) => stream_opened(w, bytes, result, v),
        Step::Ask(s, call) => match s {
            ParseString::Opening { yaml, new } => yaml == text && creating(
                w,
                Step::Ask(new, call),
                v,
            ),
            ParseString::Copying { yaml, inner } => yaml == text && opened(w, inner, v) && call == (
            Call::MallocCopy { text }),
            ParseString::Setting { inner, buffer } => {
                &&& copied(w, inner, buffer, bytes, v)
                &&& call matches Call::ParserSetMallocString { parser, buffer: b, len }
                &&& parser == inner.parser && b == buffer && len == bytes.len()
            },
            ParseString::Freeing { inner } => {
                &&& w.scarce
                &&& call matches Call::Free { buffer }
                &&& copied(w, inner, buffer, bytes, v)
            },
            ParseString::Closing { close, .. } => w.scarce && closing(w, Step::Ask(close, call), v),
        },
    }
}

/// Whether `v` is `w` with a new parser and the bytes in a buffer.
spec fn copied(w: Stream, inner: ParserInner, buffer: usize, bytes: Seq<u8>, v: Stream) -> bool {
    &&& !w.buffers.contains_key(buffer)
    &&& v.buffers == w.buffers.insert(buffer, bytes)
    &&& opened(w, inner, Stream { buffers: w.buffers, ..v })
}

/// A parser for a string stands at the beginning of its bytes, and nothing else has changed. Unless
/// memory runs out there always is one.
pub proof fn law_from_string<'a>(
    yaml: &'a str,
    w: Stream,
    trace: Seq<(Reply, Stream)>,
    result: Result<FyParser, Error>,
    end: Stream,
)
    requires
        encode_utf8(yaml@).len() <= usize::MAX,
        runs(
            Step::<'a, ParseString<'a>, Result<FyParser, Error>>::Ask(
                ParseString::Opening { yaml, new: NewParser::MakingDiag },
                Call::DiagCreate,
            ),
            w,
            trace,
            result,
            end,
        ),
    ensures
        stream_opened(w, encode_utf8(yaml@), result, end),
{
    let bytes = encode_utf8(yaml@);
    let start = Step::<'a, ParseString<'a>, Result<FyParser, Error>>::Ask(
        ParseString::Opening { yaml, new: NewParser::MakingDiag },
        Call::DiagCreate,
    );
    let inv = |step: Step<'a, ParseString<'a>, Result<FyParser, Error>>, v: Stream|
        opening(w, yaml, step, v);
    assert forall|s: ParseString<'a>, call: Call<'a>, before: Stream, reply: Reply, after: Stream|
        inv(Step::Ask(s, call), before) && #[trigger] before.performs(call, reply, after) implies inv(
        #[trigger] s.resumed(reply),
        after,
    ) by {
        lemma_opening(w, yaml, s, call, before, reply, after);
    }
    lemma_runs(inv, start, w, trace, result, end);
}

proof fn lemma_opening<'a>(
    w: Stream,
    text: &'a str,
    s: ParseString<'a>,
    call: Call<'a>,
    v: Stream,
    reply: Reply,
    after: Stream,
)
    requires
        encode_utf8(text@).len() <= usize::MAX,
        opening(w, text, Step::Ask(s, call), v),
        v.performs(call, reply, after),
    ensures
        opening(w, text, s.resumed(reply), after),
{
    let bytes = encode_utf8(text@);
    match s {
        ParseString::Opening { .. } => {},
        ParseString::Copying { yaml, inner } => match reply.buffer_spec() {
            Ok(buffer) => {
                assert((Stream { buffers: w.buffers, ..after }) == v);
                assert(copied(w, inner, buffer, bytes, after));
            },
            Err(_) => {
                assert(after.without_parser(inner.parser).parsers =~= w.parsers);
            },
        },
        ParseString::Setting { inner, buffer } => {
            if reply.status_spec() == 0 {
                assert(bytes.take(bytes.len() as int) =~= bytes);
                assert(w.buffers.insert(buffer, bytes).remove(buffer) =~= w.buffers);
                assert(after.parsers =~= w.parsers.insert(inner.parser, at_start(bytes)));
            }
        },
        ParseString::Freeing { inner } => {
            if let Call::Free { buffer } = call {
                assert(w.buffers.insert(buffer, bytes).remove(buffer) =~= w.buffers);
                assert(after.without_parser(inner.parser).parsers =~= w.parsers);
            }
        },
        ParseString::Closing { .. } => {},
    }
}

/// What asking for the next document gives: the next one of the stream, if there is one; otherwise the
/// end, with an error if libfyaml reports one. Once it has ended there is nothing any more. Where
/// memory is scarce it may end early.
pub open spec fn next_given(
    w: Stream,
    bytes: Seq<u8>,
    iter: DocumentIterator,
    result: (DocumentIterator, Option<Result<Document, Error>>),
    v: Stream,
) -> bool {
    let parser = iter.inner.parser;
    let feed = w.parsers[parser];
    let pages = (w.pages)(bytes);
    let more = !feed.ended && feed.at < pages.len();
    if iter.done {
        result.0 == iter && result.1 is None && v == w
    } else {
        match result.1 {
            Some(Ok(doc)) => {
                &&& more
                &&& result.0 == iter
                &&& !w.documents.contains_key(doc.ptr)
                &&& v == w.with_document(doc.ptr, pages[feed.at as int]).with_parser(
                    parser,
                    Feed { at: feed.at + 1, ..feed },
                )
            },
            other => {
                &&& w.scarce || !more
                &&& w.scarce || (other is Some <==> (w.breaks)(bytes))
                &&& result.0 == ended(iter)
                &&& v == w.with_parser(parser, Feed { ended: true, ..feed })
            },
        }
    }
}

/// Asking for the next document gives the next one of the stream, as [`next_given`] says, and leaves the
/// parser with the same input.
pub proof fn law_next_document<'a>(
    iter: DocumentIterator,
    bytes: Seq<u8>,
    w: Stream,
    trace: Seq<(Reply, Stream)>,
    result: (DocumentIterator, Option<Result<Document, Error>>),
    end: Stream,
)
    requires
        w.reads(iter.inner.parser, bytes),
        runs(iter.stepping::<'a>(), w, trace, result, end),
    ensures
        next_given(w, bytes, iter, result, end),
        end.reads(iter.inner.parser, bytes),
{
    let parser = iter.inner.parser;
    let feed = w.parsers[parser];
    let over = w.with_parser(parser, Feed { ended: true, ..feed });
    let stopped = w.scarce || feed.ended || feed.at >= (w.pages)(bytes).len();
    let inv = |
        step: Step<'a, NextDocument, (DocumentIterator, Option<Result<Document, Error>>)>,
        v: Stream,
    |
        match step {
            Step::Done(r) => next_given(w, bytes, iter, r, v),
            Step::Ask(s, call) => !iter.done && match s {
                NextDocument::Loading { iter: i } => i == iter && v == w && call == (
                Call::ParseLoadDocument { parser }),
                NextDocument::Checking { iter: i } => i == ended(iter) && v == over && stopped
                    && call == (Call::ParserGetStreamError { parser }),
                NextDocument::Peeking { iter: i } => i == ended(iter) && v == over && stopped
                    && call is DiagPeekFirst && (w.scarce || (w.breaks)(bytes)),
            },
        };
    lemma_runs(inv, iter.stepping::<'a>(), w, trace, result, end);
}

/// Whether the `i`-th request for a document was made, each where the one before it left things.
pub open spec fn asked(
    iters: Seq<DocumentIterator>,
    items: Seq<Option<Result<Document, Error>>>,
    worlds: Seq<Stream>,
    traces: Seq<Seq<(Reply, Stream)>>,
    i: int,
) -> bool {
    runs(iters[i].stepping(), worlds[i], traces[i], (iters[i + 1], items[i]), worlds[i + 1])
}

/// Whether `item` is what the `i`-th request gives: the `i`-th document of the stream, as long as there
/// is one; after the last of them the error, if libfyaml reports one; and nothing ever after.
pub open spec fn item_given(
    w: Stream,
    bytes: Seq<u8>,
    i: int,
    item: Option<Result<Document, Error>>,
    v: Stream,
) -> bool {
    let pages = (w.pages)(bytes);
    if i < pages.len() {
        item matches Some(Ok(doc)) && v.documents.contains_key(doc.ptr) && v.documents[doc.ptr]
            == pages[i]
    } else if i == pages.len() && (w.breaks)(bytes) {
        item matches Some(Err(_))
    } else {
        item is None
    }
}

/// The documents of a stream come in their order, each once; then, if libfyaml cannot read on, the
/// error; and then nothing, however often one asks. What was handed out stays as it is.
pub proof fn law_documents_in_order(
    parser: FyParser,
    bytes: Seq<u8>,
    iters: Seq<DocumentIterator>,
    items: Seq<Option<Result<Document, Error>>>,
    worlds: Seq<Stream>,
    traces: Seq<Seq<(Reply, Stream)>>,
)
    requires
        iters.len() == items.len() + 1,
        worlds.len() == items.len() + 1,
        iters[0] == (DocumentIterator { inner: parser.inner, done: false }),
        worlds[0].parsers.contains_key(parser.inner.parser),
        worlds[0].parsers[parser.inner.parser] == at_start(bytes),
        !worlds[0].scarce,
        forall|i: int|
            0 <= i < items.len() ==> #[trigger] asked(iters, items, worlds, traces, i),
    ensures
        forall|i: int|
            0 <= i < items.len() ==> item_given(
                worlds[0],
                bytes,
                i,
                #[trigger] items[i],
                worlds.last(),
            ),
{
    lemma_in_order(parser, bytes, iters, items, worlds, traces, items.len() as int);
}

proof fn lemma_in_order(
    parser: FyParser,
    bytes: Seq<u8>,
    iters: Seq<DocumentIterator>,
    items: Seq<Option<Result<Document, Error>>>,
    worlds: Seq<Stream>,
    traces: Seq<Seq<(Reply, Stream)>>,
    k: int,
)
    requires
        0 <= k <= items.len(),
        iters.len() == items.len() + 1,
        worlds.len() == items.len() + 1,
        iters[0] == (DocumentIterator { inner: parser.inner, done: false }),
        worlds[0].parsers.contains_key(parser.inner.parser),
        worlds[0].parsers[parser.inner.parser] == at_start(bytes),
        !worlds[0].scarce,
        forall|i: int|
            0 <= i < items.len() ==> #[trigger] asked(iters, items, worlds, traces, i),
    ensures
        worlds[k].reads(parser.inner.parser, bytes),
        worlds[k].pages == worlds[0].pages,
        worlds[k].breaks == worlds[0].breaks,
        !worlds[k].scarce,
        iters[k].inner == parser.inner,
        k <= (worlds[0].pages)(bytes).len() ==> !iters[k].done && !worlds[k].parsers[
            parser.inner.parser
        ].ended && worlds[k].parsers[parser.inner.parser].at == k,
        k > (worlds[0].pages)(bytes).len() ==> iters[k].done,
        forall|i: int|
            0 <= i < k ==> item_given(worlds[0], bytes, i, #[trigger] items[i], worlds[k]),
    decreases k,
{
    if k > 0 {
        let j = k - 1;
        lemma_in_order(parser, bytes, iters, items, worlds, traces, j);
        assert(asked(iters, items, worlds, traces, j));
        law_next_document(
            iters[j],
            bytes,
            worlds[j],
            traces[j],
            (iters[j + 1], items[j]),
            worlds[j + 1],
        );
        assert forall|i: int| 0 <= i < k implies item_given(
            worlds[0],
            bytes,
            i,
            #[trigger] items[i],
            worlds[k],
        ) by {
            if i < j {
                assert(item_given(worlds[0], bytes, i, items[i], worlds[j]));
            }
        }
    }
}

/// Documents that were read from the same place of the same stream read alike: a path leads to
/// something in both or in neither, and what it leads to looks alike, and so is of the same kind and
/// text. Where memory is scarce this holds of paths of plain steps.
pub proof fn law_streamed_read_alike<'a, 'doc>(
    docs: (&'doc Document, &'doc Document),
    streams: (Stream, Stream),
    path: &'a str,
    heaps: (Heap, Heap),
    traces: (Seq<(Reply, Heap)>, Seq<(Reply, Heap)>),
    results: (Option<NodeRef<'doc>>, Option<NodeRef<'doc>>),
    ends: (Heap, Heap),
)
    requires
        streams.0.read_into(docs.0.ptr, heaps.0),
        streams.1.read_into(docs.1.ptr, heaps.1),
        streams.0.documents[docs.0.ptr] == streams.1.documents[docs.1.ptr],
        heaps.0.well_formed() && heaps.1.well_formed(),
        heaps.0.same_rules(heaps.1),
        heaps.0.sure(path@),
        runs(
            Step::Ask(
                LookupAt::Rooting { doc: docs.0, path },
                Call::DocumentRoot { doc: docs.0.ptr },
            ),
            heaps.0,
            traces.0,
            results.0,
            ends.0,
        ),
        runs(
            Step::Ask(
                LookupAt::Rooting { doc: docs.1, path },
                Call::DocumentRoot { doc: docs.1.ptr },
            ),
            heaps.1,
            traces.1,
            results.1,
            ends.1,
        ),
    ensures
        results.0 is Some <==> results.1 is Some,
        results.0 matches Some(a) ==> (results.1 matches Some(b) && {
            &&& look_alike(heaps.0.nodes, a.node, heaps.1.nodes, b.node)
            &&& heaps.0.type_number(a.node) == heaps.1.type_number(b.node)
            &&& heaps.0.body(a.node) matches Body::Scalar(text) ==> heaps.1.body(b.node)
                == Body::Scalar(text)
        }),
{
    lemma_read_alike(docs, path, heaps, traces, results, ends);
}

/// What opening the standard input leaves behind: a parser at the beginning of what the input holds;
/// or nothing.
pub open spec fn stdin_opened(w: Stream, result: Result<FyParser, Error>, v: Stream) -> bool {
    match result {
        Ok(parser) => {
            &&& !w.parsers.contains_key(parser.inner.parser)
            &&& v == w.with_parser(parser.inner.parser, at_start(w.input))
        },
        Err(_) => v == w,
    }
}

/// How far a session that opens the standard input has got.
spec fn opening_stdin<'a>(
    w: Stream,
    step: Step<'a, OpenStdin, Result<FyParser, Error>>,
    v: Stream,
) -> bool {
    match step {
        Step::Done(result) => stdin_opened(w, result, v),
        Step::Ask(s, call) => match s {
            OpenStdin::Opening { new, .. } => creating(w, Step::Ask(new, call), v),
            OpenStdin::Duping { inner, .. } => opened(w, inner, v) && call is DupStdin,
            OpenStdin::FdOpening { inner, .. } => opened(w, inner, v) && call is FdOpen,
            OpenStdin::ClosingFd { inner } => opened(w, inner, v) && call is FdClose,
            OpenStdin::Buffering { inner, .. } => opened(w, inner, v) && call is SetLineBuffered,
            OpenStdin::Setting { inner, .. } => opened(w, inner, v) && (
            call matches Call::ParserSetInputFp { parser, .. } && parser == inner.parser),
            OpenStdin::ClosingFile { inner, .. } => opened(w, inner, v) && call is FileClose,
            OpenStdin::Closing { close, .. } => closing(w, Step::Ask(close, call), v),
        },
    }
}

proof fn lemma_opening_stdin<'a>(
    w: Stream,
    s: OpenStdin,
    call: Call<'a>,
    v: Stream,
    reply: Reply,
    after: Stream,
)
    requires
        opening_stdin(w, Step::Ask(s, call), v),
        v.performs(call, reply, after),
    ensures
        opening_stdin(w, Session::<'a>::resumed(s, reply), after),
{
    match s {
        OpenStdin::Opening { .. } | OpenStdin::Closing { .. } => {},
        OpenStdin::Duping { inner, .. } | OpenStdin::FdOpening { inner, .. }
        | OpenStdin::ClosingFd { inner } | OpenStdin::Buffering { inner, .. }
        | OpenStdin::ClosingFile { inner, .. } => {
            assert(after.without_parser(inner.parser).parsers =~= w.parsers);
        },
        OpenStdin::Setting { inner, .. } => {
            assert(after.parsers[inner.parser] == at_start(w.input) ==> after.parsers
                =~= w.parsers.insert(inner.parser, at_start(w.input)));
        },
    }
}

/// A parser for the standard input stands at the beginning of what the input holds.
pub proof fn law_from_stdin<'a>(
    line_buffered: bool,
    w: Stream,
    trace: Seq<(Reply, Stream)>,
    result: Result<FyParser, Error>,
    end: Stream,
)
    requires
        runs(
            Step::<'a, OpenStdin, Result<FyParser, Error>>::Ask(
                OpenStdin::Opening { line_buffered, new: NewParser::MakingDiag },
                Call::DiagCreate,
            ),
            w,
            trace,
            result,
            end,
        ),
    ensures
        stdin_opened(w, result, end),
{
    let start = Step::<'a, OpenStdin, Result<FyParser, Error>>::Ask(
        OpenStdin::Opening { line_buffered, new: NewParser::MakingDiag },
        Call::DiagCreate,
    );
    let inv = |step: Step<'a, OpenStdin, Result<FyParser, Error>>, v: Stream|
        opening_stdin(w, step, v);
    assert forall|s: OpenStdin, call: Call<'a>, before: Stream, reply: Reply, after: Stream|
        inv(Step::Ask(s, call), before) && #[trigger] before.performs(call, reply, after) implies inv(
        #[trigger] Session::<'a>::resumed(s, reply),
        after,
    ) by {
        lemma_opening_stdin(w, s, call, before, reply, after);
    }
    lemma_runs(inv, start, w, trace, result, end);
}

/// What reading the first document of the standard input leaves behind: that document, and the parser
/// that keeps what it was read from; or nothing.
pub open spec fn first_read(w: Stream, result: Result<Document, Error>, v: Stream) -> bool {
    let pages = (w.pages)(w.input);
    match result {
        Ok(doc) => {
            &&& pages.len() > 0
            &&& !w.documents.contains_key(doc.ptr)
            &&& v.documents == w.documents.insert(doc.ptr, pages[0])
        },
        Err(_) => v == w,
    }
}

/// Whether `v` is `w` with a new parser for the standard input in a given state.
spec fn fed(w: Stream, parser: usize, feed: Feed, v: Stream) -> bool {
    !w.parsers.contains_key(parser) && v == w.with_parser(parser, feed)
}

/// How far a session that reads the first document has got.
spec fn reading_first<'a>(
    w: Stream,
    step: Step<'a, FirstOfStdin, Result<Document, Error>>,
    v: Stream,
) -> bool {
    let start = at_start(w.input);
    let over = Feed { ended: true, ..start };
    match step {
        Step::Done(result) => first_read(w, result, v),
        Step::Ask(s, call) => match s {
            FirstOfStdin::Opening { open } => opening_stdin(w, Step::Ask(open, call), v),
            FirstOfStdin::Loading { next } => match next {
                NextDocument::Loading { iter } => fed(w, iter.inner.parser, start, v) && call == (
                Call::ParseLoadDocument { parser: iter.inner.parser }),
                NextDocument::Checking { iter } => fed(w, iter.inner.parser, over, v) && call == (
                Call::ParserGetStreamError { parser: iter.inner.parser }),
                NextDocument::Peeking { iter } => fed(w, iter.inner.parser, over, v) && call
                    is DiagPeekFirst,
            },
            FirstOfStdin::Closing { close, .. } => closing(w, Step::Ask(close, call), v),
        },
    }
}

proof fn lemma_reading_first<'a>(
    w: Stream,
    s: FirstOfStdin,
    call: Call<'a>,
    v: Stream,
    reply: Reply,
    after: Stream,
)
    requires
        reading_first(w, Step::Ask(s, call), v),
        v.performs(call, reply, after),
    ensures
        reading_first(w, Session::<'a>::resumed(s, reply), after),
{
    let start = at_start(w.input);
    let over = Feed { ended: true, ..start };
    match s {
        FirstOfStdin::Opening { open } => {
            lemma_opening_stdin(w, open, call, v, reply, after);
        },
        FirstOfStdin::Loading { next } => {
            let parser = match next {
                NextDocument::Loading { iter } => iter.inner.parser,
                NextDocument::Checking { iter } => iter.inner.parser,
                NextDocument::Peeking { iter } => iter.inner.parser,
            };
            if next is Loading && reply.pointer_spec() == 0 {
                assert(after.parsers =~= w.parsers.insert(parser, over));
                assert(fed(w, parser, over, after));
            }
            assert(after.without_parser(parser).parsers =~= w.parsers);
        },
        FirstOfStdin::Closing { .. } => {},
    }
}

/// What is read first from the standard input is the first document of what it holds; where there is
/// none, there is an error, and nothing is left behind.
pub proof fn law_first_of_stdin<'a>(
    line_buffered: bool,
    w: Stream,
    trace: Seq<(Reply, Stream)>,
    result: Result<Document, Error>,
    end: Stream,
)
    requires
        runs(
            Step::<'a, FirstOfStdin, Result<Document, Error>>::Ask(
                FirstOfStdin::Opening {
                    open: OpenStdin::Opening { line_buffered, new: NewParser::MakingDiag },
                },
                Call::DiagCreate,
            ),
            w,
            trace,
            result,
            end,
        ),
    ensures
        first_read(w, result, end),
        (w.pages)(w.input).len() == 0 ==> result is Err,
{
    let start = Step::<'a, FirstOfStdin, Result<Document, Error>>::Ask(
        FirstOfStdin::Opening {
            open: OpenStdin::Opening { line_buffered, new: NewParser::MakingDiag },
        },
        Call::DiagCreate,
    );
    let inv = |step: Step<'a, FirstOfStdin, Result<Document, Error>>, v: Stream|
        reading_first(w, step, v);
    assert forall|s: FirstOfStdin, call: Call<'a>, before: Stream, reply: Reply, after: Stream|
        inv(Step::Ask(s, call), before) && #[trigger] before.performs(call, reply, after) implies inv(
        #[trigger] Session::<'a>::resumed(s, reply),
        after,
    ) by {
        lemma_reading_first(w, s, call, before, reply, after);
    }
    lemma_runs(inv, start, w, trace, result, end);
}

} // verus!
