//! Whatever libfyaml answers, an operation gives back what it acquired, except for what its result
//! hands over, and uses nothing that it does not hold.

use vstd::prelude::*;

use crate::call::{Call, Reply, Session, Step};
use crate::document::{CreateDocument, Document, InputOwnership, ParseOwned, ParseStr};
use crate::emitter::{EmitEvents, Emitter};
use crate::error::Error;
use crate::handle::RawNodeHandle;
use crate::model::ledger::{Ledger, Resource};
use crate::model::world::{lemma_runs, runs, World};
use crate::parser::{
    CloseParser, DocumentIterator, FirstOfStdin, FyParser, NewParser, NextDocument, OpenStdin,
    ParseString, ParserInner,
};
use crate::set_yaml::{SetYamlAt, Target};
use crate::snippet::BuildFromYaml;

verus! {

/// What making a document leaves held: the document, if there is one.
pub open spec fn document_made(l0: Ledger, result: Result<Document, Error>, l: Ledger) -> bool {
    match result {
        Ok(doc) => doc.valid() && l0.gains(Resource::Document(doc.ptr), l),
        Err(_) => l == l0,
    }
}

spec fn parsing<'a>(
    l0: Ledger,
    step: Step<'a, ParseStr<'a>, Result<Document, Error>>,
    l: Ledger,
) -> bool {
    match step {
        Step::Done(result) => document_made(l0, result, l) && (result matches Ok(doc)
            ==> doc.input is LibfyamlOwned),
        Step::Ask(s, call) => match s {
            ParseStr::Copying { .. } => call is MallocCopy && l == l0,
            ParseStr::MakingDiag { buffer, .. } => call is DiagCreate && l0.gains(
                Resource::Buffer(buffer),
                l,
            ),
            ParseStr::Building { buffer, diag } => {
                &&& call matches Call::DocumentBuildFromMallocString { diag: d, buffer: b, .. }
                &&& d == diag
                &&& b == buffer
                &&& !l0.has(Resource::Buffer(buffer))
                &&& l0.lacks_diag(diag)
                &&& l == l0.with(Resource::Buffer(buffer)).with_diag(diag)
            },
            ParseStr::FreeingBuffer { diag } => {
                &&& call matches Call::Free { buffer }
                &&& !l0.has(Resource::Buffer(buffer))
                &&& l0.lacks_diag(diag)
                &&& l == l0.with(Resource::Buffer(buffer)).with_diag(diag)
            },
            ParseStr::Diagnosing => {
                &&& call matches Call::DiagTakeFirst { diag }
                &&& l0.gains(Resource::Diag(diag), l)
            },
            ParseStr::Dropping { ptr } => {
                &&& call matches Call::DiagDestroy { diag }
                &&& ptr != 0
                &&& !l0.has(Resource::Document(ptr))
                &&& !l0.has(Resource::Diag(diag))
                &&& l == l0.with(Resource::Document(ptr)).with(Resource::Diag(diag))
            },
        },
    }
}

/// Parsing a string leaves nothing behind but the document: the copy of the string is libfyaml's, or
/// was freed, and the collector is gone.
pub proof fn law_parse_str_settles<'a>(
    s: &'a str,
    l0: Ledger,
    trace: Seq<(Reply, Ledger)>,
    result: Result<Document, Error>,
    end: Ledger,
)
    requires
        runs(Document::parsing(s), l0, trace, result, end),
    ensures
        document_made(l0, result, end),
        s@.len() == 0 ==> result is Err,
        result matches Ok(doc) ==> doc.input is LibfyamlOwned,
{
    let inv = |step: Step<'a, ParseStr<'a>, Result<Document, Error>>, l: Ledger|
        parsing(l0, step, l);
    assert forall|s: ParseStr<'a>, call: Call<'a>, before: Ledger, reply: Reply, after: Ledger|
        inv(Step::Ask(s, call), before) && #[trigger] before.performs(call, reply, after) implies inv(
        #[trigger] s.resumed(reply),
        after,
    ) by {
        match s {
            ParseStr::Building { buffer, diag } => {
                let ptr = reply.pointer_spec();
                if ptr != 0 && diag != 0 {
                    assert(after =~= l0.with(Resource::Document(ptr)).with(Resource::Diag(diag)));
                } else if ptr != 0 {
                    assert(after =~= l0.with(Resource::Document(ptr)));
                }
            },
            ParseStr::FreeingBuffer { diag } => {
                assert(after =~= l0.with_diag(diag));
            },
            ParseStr::Diagnosing => {
                assert(after =~= l0);
            },
            ParseStr::Dropping { ptr } => {
                assert(after =~= l0.with(Resource::Document(ptr)));
            },
            _ => {},
        }
    }
    lemma_runs(inv, Document::parsing(s), l0, trace, result, end);
}

spec fn parsing_owned<'a>(
    l0: Ledger,
    input0: InputOwnership,
    step: Step<'a, ParseOwned, Result<Document, Error>>,
    l: Ledger,
) -> bool {
    match step {
        Step::Done(result) => document_made(l0, result, l) && (result matches Ok(doc) ==> doc.input
            == input0),
        Step::Ask(s, call) => match s {
            ParseOwned::MakingDiag { input, .. } => call is DiagCreate && l == l0 && input
                == input0,
            ParseOwned::Building { input, diag } => {
                &&& call matches Call::DocumentBuildFromOwned { diag: d, .. }
                &&& d == diag
                &&& l0.lacks_diag(diag)
                &&& l == l0.with_diag(diag)
                &&& input == input0
            },
            ParseOwned::Diagnosing => {
                &&& call matches Call::DiagTakeFirst { diag }
                &&& l0.gains(Resource::Diag(diag), l)
            },
            ParseOwned::Dropping { ptr, input } => {
                &&& call matches Call::DiagDestroy { diag }
                &&& ptr != 0
                &&& !l0.has(Resource::Document(ptr))
                &&& !l0.has(Resource::Diag(diag))
                &&& l == l0.with(Resource::Document(ptr)).with(Resource::Diag(diag))
                &&& input == input0
            },
        },
    }
}

/// Parsing input in place leaves nothing behind but the document, and the document keeps exactly the
/// input that was handed in.
pub proof fn law_parse_owned_settles<'a>(
    input: InputOwnership,
    len: usize,
    l0: Ledger,
    trace: Seq<(Reply, Ledger)>,
    result: Result<Document, Error>,
    end: Ledger,
)
    requires
        runs(Document::parsing_owned(input, len), l0, trace, result, end),
    ensures
        document_made(l0, result, end),
        len == 0 ==> result is Err,
        result matches Ok(doc) ==> doc.input == input,
{
    let inv = |step: Step<'a, ParseOwned, Result<Document, Error>>, l: Ledger|
        parsing_owned(l0, input, step, l);
    assert forall|s: ParseOwned, call: Call<'a>, before: Ledger, reply: Reply, after: Ledger|
        inv(Step::Ask(s, call), before) && #[trigger] before.performs(call, reply, after) implies inv(
        #[trigger] s.resumed(reply),
        after,
    ) by {
        match s {
            ParseOwned::Building { diag, .. } => {
                let ptr = reply.pointer_spec();
                if ptr != 0 && diag != 0 {
                    assert(after =~= l0.with(Resource::Document(ptr)).with(Resource::Diag(diag)));
                }
            },
            ParseOwned::Diagnosing => {
                assert(after =~= l0);
            },
            ParseOwned::Dropping { ptr, .. } => {
                assert(after =~= l0.with(Resource::Document(ptr)));
            },
            _ => {},
        }
    }
    lemma_runs(inv, Document::parsing_owned(input, len), l0, trace, result, end);
}

/// Building a node from a snippet leaves no buffer and no collector behind.
pub proof fn law_build_from_yaml_settles<'a>(
    doc: usize,
    yaml: &'a str,
    l0: Ledger,
    trace: Seq<(Reply, Ledger)>,
    result: Result<RawNodeHandle, Error>,
    end: Ledger,
)
    requires
        runs(BuildFromYaml::started(doc, yaml), l0, trace, result, end),
    ensures
        end == l0,
{
    let inv = |step: Step<'a, BuildFromYaml<'a>, Result<RawNodeHandle, Error>>, l: Ledger|
        building(l0, step, l);
    assert forall|s: BuildFromYaml<'a>, call: Call<'a>, before: Ledger, reply: Reply, after: Ledger|
        inv(Step::Ask(s, call), before) && #[trigger] before.performs(call, reply, after) implies inv(
        #[trigger] s.resumed(reply),
        after,
    ) by {
        lemma_building(l0, s, call, before, reply, after);
    }
    lemma_runs(inv, BuildFromYaml::started(doc, yaml), l0, trace, result, end);
}

proof fn lemma_building<'a>(
    l0: Ledger,
    s: BuildFromYaml<'a>,
    call: Call<'a>,
    l: Ledger,
    reply: Reply,
    after: Ledger,
)
    requires
        building(l0, Step::Ask(s, call), l),
        l.performs(call, reply, after),
    ensures
        building(l0, s.resumed(reply), after),
{
    match s {
        BuildFromYaml::Building { diag, .. } => {
            assert(after =~= l0.with_diag(diag));
        },
        BuildFromYaml::Diagnosing { .. } => {
            assert(after =~= l0);
        },
        BuildFromYaml::Dropping { .. } => {
            assert(after =~= l0);
        },
        _ => {},
    }
}

spec fn building<'a>(
    l0: Ledger,
    step: Step<'a, BuildFromYaml<'a>, Result<RawNodeHandle, Error>>,
    l: Ledger,
) -> bool {
    match step {
        Step::Done(_) => l == l0,
        Step::Ask(s, call) => match s {
            BuildFromYaml::Copying { .. } => call is MallocCopy && l == l0,
            BuildFromYaml::MakingDiag { buffer, .. } => call is DiagCreate && l0.gains(
                Resource::Buffer(buffer),
                l,
            ),
            BuildFromYaml::ReadingDiag { buffer, diag, .. } => {
                &&& call is DocumentGetDiag
                &&& !l0.has(Resource::Buffer(buffer))
                &&& l0.lacks_diag(diag)
                &&& l == l0.with(Resource::Buffer(buffer)).with_diag(diag)
            },
            BuildFromYaml::SettingDiag { buffer, diag, .. } => {
                &&& call is DocumentSetDiag
                &&& !l0.has(Resource::Buffer(buffer))
                &&& l0.lacks_diag(diag)
                &&& l == l0.with(Resource::Buffer(buffer)).with_diag(diag)
            },
            BuildFromYaml::Building { diag, .. } => {
                &&& call matches Call::NodeBuildFromMallocString { buffer, .. }
                &&& !l0.has(Resource::Buffer(buffer))
                &&& l0.lacks_diag(diag)
                &&& l == l0.with(Resource::Buffer(buffer)).with_diag(diag)
            },
            BuildFromYaml::Diagnosing { .. } => {
                &&& call matches Call::DiagTakeFirst { diag }
                &&& l0.gains(Resource::Diag(diag), l)
            },
            BuildFromYaml::Restoring { diag, .. } => {
                &&& call is DocumentSetDiag
                &&& l0.lacks_diag(diag)
                &&& l == l0.with_diag(diag)
            },
            BuildFromYaml::Dropping { .. } => {
                &&& call matches Call::DiagDestroy { diag }
                &&& l0.gains(Resource::Diag(diag), l)
            },
        },
    }
}

/// Whether a call neither acquires nor gives back anything.
spec fn quiet(call: Call) -> bool {
    call is DocumentRoot || call is DocumentSetRoot || call is NodeCreateScalarCopy
        || call is NodeFree || call is NodeByPath || call is NodeGetType
        || call is SequenceItemCount || call is SequenceGetByIndex || call is SequenceAppend
        || call is SequenceInsertBefore || call is SequenceRemove
        || call is MappingLookupPairByString || call is MappingAppend || call is PairSetValue
}

spec fn setting<'a>(
    l0: Ledger,
    step: Step<'a, SetYamlAt<'a>, Result<(), Error>>,
    l: Ledger,
) -> bool {
    match step {
        Step::Done(_) => l == l0,
        Step::Ask(s, call) => match s {
            SetYamlAt::Building { build, .. } => building(l0, Step::Ask(build, call), l),
            _ => l == l0 && quiet(call),
        },
    }
}

/// Setting a value leaves no buffer and no collector behind.
pub proof fn law_set_yaml_at_settles<'a>(
    doc: usize,
    target: Target<'a>,
    yaml: &'a str,
    l0: Ledger,
    trace: Seq<(Reply, Ledger)>,
    result: Result<(), Error>,
    end: Ledger,
)
    requires
        runs(SetYamlAt::started(doc, target, yaml), l0, trace, result, end),
    ensures
        end == l0,
{
    let inv = |step: Step<'a, SetYamlAt<'a>, Result<(), Error>>, l: Ledger| setting(l0, step, l);
    assert forall|s: SetYamlAt<'a>, call: Call<'a>, before: Ledger, reply: Reply, after: Ledger|
        inv(Step::Ask(s, call), before) && #[trigger] before.performs(call, reply, after) implies inv(
        #[trigger] s.resumed(reply),
        after,
    ) by {
        if let SetYamlAt::Building { build, .. } = s {
            lemma_building(l0, build, call, before, reply, after);
        }
    }
    lemma_runs(inv, SetYamlAt::started(doc, target, yaml), l0, trace, result, end);
}

/// Whether `l` is `l0` with a parser more, and its collector, if it has one.
pub open spec fn with_parser(l0: Ledger, inner: ParserInner, l: Ledger) -> bool {
    &&& inner.valid()
    &&& !l0.has(Resource::Parser(inner.parser))
    &&& l0.lacks_diag(inner.diag)
    &&& l == l0.with_diag(inner.diag).with(Resource::Parser(inner.parser))
}

spec fn opening<'a>(
    l0: Ledger,
    step: Step<'a, NewParser, Result<ParserInner, Error>>,
    l: Ledger,
) -> bool {
    match step {
        Step::Done(Ok(inner)) => with_parser(l0, inner, l),
        Step::Done(Err(_)) => l == l0,
        Step::Ask(s, call) => match s {
            NewParser::MakingDiag => call is DiagCreate && l == l0,
            NewParser::Creating { diag } => call == (Call::ParserCreate { diag }) && l0.lacks_diag(
                diag,
            ) && l == l0.with_diag(diag),
            NewParser::Dropping => call matches Call::DiagDestroy { diag } && l0.gains(
                Resource::Diag(diag),
                l,
            ),
        },
    }
}

proof fn lemma_opening<'a>(
    l0: Ledger,
    s: NewParser,
    call: Call<'a>,
    l: Ledger,
    reply: Reply,
    after: Ledger,
)
    requires
        opening(l0, Step::Ask(s, call), l),
        l.performs(call, reply, after),
    ensures
        opening(l0, s.resumed(reply), after),
{
    if s is Dropping {
        assert(after =~= l0);
    }
}

/// Whether `l` is `l0` with what is left to take down of a parser.
spec fn closing<'a>(l0: Ledger, step: Step<'a, CloseParser, ()>, l: Ledger) -> bool {
    match step {
        Step::Done(_) => l == l0,
        Step::Ask(s, call) => match s {
            CloseParser::Destroying { diag } => call matches Call::ParserDestroy { parser }
                && with_parser(l0, ParserInner { parser, diag }, l),
            CloseParser::Dropping => call matches Call::DiagDestroy { diag } && l0.gains(
                Resource::Diag(diag),
                l,
            ),
        },
    }
}

proof fn lemma_closing<'a>(
    l0: Ledger,
    s: CloseParser,
    call: Call<'a>,
    l: Ledger,
    reply: Reply,
    after: Ledger,
)
    requires
        closing(l0, Step::Ask(s, call), l),
        l.performs(call, reply, after),
    ensures
        closing(l0, s.resumed(reply), after),
{
    match s {
        CloseParser::Destroying { diag } => {
            assert(after =~= l0.with_diag(diag));
        },
        CloseParser::Dropping => {
            assert(after =~= l0);
        },
    }
}

/// Taking a parser down gives back the parser and its collector.
pub proof fn law_close_parser<'a>(
    inner: ParserInner,
    l0: Ledger,
    start: Ledger,
    trace: Seq<(Reply, Ledger)>,
    end: Ledger,
)
    requires
        with_parser(l0, inner, start),
        runs(CloseParser::started(inner), start, trace, (), end),
    ensures
        end == l0,
{
    let inv = |step: Step<'a, CloseParser, ()>, l: Ledger| closing(l0, step, l);
    assert forall|s: CloseParser, call: Call<'a>, before: Ledger, reply: Reply, after: Ledger|
        inv(Step::Ask(s, call), before) && #[trigger] before.performs(call, reply, after) implies inv(
        #[trigger] s.resumed(reply),
        after,
    ) by {
        lemma_closing(l0, s, call, before, reply, after);
    }
    lemma_runs(inv, CloseParser::started(inner), start, trace, (), end);
}

/// What opening a stream leaves held: the parser and its collector, if there is one.
pub open spec fn parser_made(l0: Ledger, result: Result<FyParser, Error>, l: Ledger) -> bool {
    match result {
        Ok(parser) => with_parser(l0, *parser.inner, l),
        Err(_) => l == l0,
    }
}

spec fn parsing_string<'a>(
    l0: Ledger,
    step: Step<'a, ParseString<'a>, Result<FyParser, Error>>,
    l: Ledger,
) -> bool {
    match step {
        Step::Done(result) => parser_made(l0, result, l),
        Step::Ask(s, call) => match s {
            ParseString::Opening { new, .. } => opening(l0, Step::Ask(new, call), l),
            ParseString::Copying { inner, .. } => call is MallocCopy && with_parser(l0, inner, l),
            ParseString::Setting { inner, buffer } => {
                &&& call matches Call::ParserSetMallocString { parser, buffer: b, .. }
                &&& parser == inner.parser
                &&& b == buffer
                &&& buffered(l0, inner, buffer, l)
            },
            ParseString::Freeing { inner } => call matches Call::Free { buffer } && buffered(
                l0,
                inner,
                buffer,
                l,
            ),
            ParseString::Closing { close, .. } => closing(l0, Step::Ask(close, call), l),
        },
    }
}

/// Whether `l` is `l0` with a parser and a buffer more.
spec fn buffered(l0: Ledger, inner: ParserInner, buffer: usize, l: Ledger) -> bool {
    &&& !l0.has(Resource::Buffer(buffer))
    &&& l.has(Resource::Buffer(buffer))
    &&& with_parser(l0, inner, l.without(Resource::Buffer(buffer)))
}

/// Opening a string leaves nothing behind but the parser and its collector.
pub proof fn law_parser_from_string_settles<'a>(
    yaml: &'a str,
    l0: Ledger,
    trace: Seq<(Reply, Ledger)>,
    result: Result<FyParser, Error>,
    end: Ledger,
)
    requires
        runs(
            Step::Ask(
                ParseString::Opening { yaml, new: NewParser::MakingDiag },
                Call::DiagCreate,
            ),
            l0,
            trace,
            result,
            end,
        ),
    ensures
        parser_made(l0, result, end),
{
    let inv = |step: Step<'a, ParseString<'a>, Result<FyParser, Error>>, l: Ledger|
        parsing_string(l0, step, l);
    assert forall|s: ParseString<'a>, call: Call<'a>, before: Ledger, reply: Reply, after: Ledger|
        inv(Step::Ask(s, call), before) && #[trigger] before.performs(call, reply, after) implies inv(
        #[trigger] s.resumed(reply),
        after,
    ) by {
        match s {
            ParseString::Opening { new, .. } => {
                lemma_opening(l0, new, call, before, reply, after);
            },
            ParseString::Copying { inner, .. } => {
                if let Ok(buffer) = reply.buffer_spec() {
                    assert(after.without(Resource::Buffer(buffer)) =~= before);
                }
            },
            ParseString::Closing { close, .. } => {
                lemma_closing(l0, close, call, before, reply, after);
            },
            _ => {},
        }
    }
    lemma_runs(
        inv,
        Step::Ask(ParseString::Opening { yaml, new: NewParser::MakingDiag }, Call::DiagCreate),
        l0,
        trace,
        result,
        end,
    );
}

spec fn opening_stdin<'a>(
    l0: Ledger,
    step: Step<'a, OpenStdin, Result<FyParser, Error>>,
    l: Ledger,
) -> bool {
    match step {
        Step::Done(result) => parser_made(l0, result, l),
        Step::Ask(s, call) => match s {
            OpenStdin::Opening { new, .. } => opening(l0, Step::Ask(new, call), l),
            OpenStdin::Duping { inner, .. } => call is DupStdin && with_parser(l0, inner, l),
            OpenStdin::FdOpening { inner, fd, .. } => {
                &&& call == Call::FdOpen { fd }
                &&& duplicated(l0, inner, fd, l)
            },
            OpenStdin::ClosingFd { inner } => call matches Call::FdClose { fd } && duplicated(
                l0,
                inner,
                fd,
                l,
            ),
            OpenStdin::Buffering { inner, file } => call == Call::SetLineBuffered { file }
                && streaming(l0, inner, file, l),
            OpenStdin::Setting { inner, file } => {
                &&& call == (Call::ParserSetInputFp { parser: inner.parser, file })
                &&& streaming(l0, inner, file, l)
            },
            OpenStdin::ClosingFile { inner, .. } => call matches Call::FileClose { file }
                && streaming(l0, inner, file, l),
            OpenStdin::Closing { close, .. } => closing(l0, Step::Ask(close, call), l),
        },
    }
}

/// Whether `l` is `l0` with a parser and a descriptor more.
spec fn duplicated(l0: Ledger, inner: ParserInner, fd: i32, l: Ledger) -> bool {
    &&& !l0.has(Resource::Fd(fd))
    &&& l.has(Resource::Fd(fd))
    &&& with_parser(l0, inner, l.without(Resource::Fd(fd)))
}

/// Whether `l` is `l0` with a parser and a stream more.
spec fn streaming(l0: Ledger, inner: ParserInner, file: usize, l: Ledger) -> bool {
    &&& !l0.has(Resource::File(file))
    &&& l.has(Resource::File(file))
    &&& with_parser(l0, inner, l.without(Resource::File(file)))
}

proof fn lemma_opening_stdin<'a>(
    l0: Ledger,
    s: OpenStdin,
    call: Call<'a>,
    l: Ledger,
    reply: Reply,
    after: Ledger,
)
    requires
        opening_stdin(l0, Step::Ask(s, call), l),
        l.performs(call, reply, after),
    ensures
        opening_stdin(l0, s.resumed(reply), after),
{
    match s {
        OpenStdin::Opening { new, .. } => {
            lemma_opening(l0, new, call, l, reply, after);
        },
        OpenStdin::Duping { .. } => {
            if reply.status_spec() >= 0 {
                assert(after.without(Resource::Fd(reply.status_spec())) =~= l);
            }
        },
        OpenStdin::FdOpening { fd, .. } => {
            let file = reply.pointer_spec();
            if file != 0 {
                assert(after.without(Resource::File(file)) =~= l.without(Resource::Fd(fd)));
            }
        },
        OpenStdin::Closing { close, .. } => {
            lemma_closing(l0, close, call, l, reply, after);
        },
        _ => {},
    }
}

/// Opening the standard input leaves nothing behind but the parser and its collector: a descriptor or
/// a stream that the parser did not take is closed.
pub proof fn law_open_stdin_settles<'a>(
    line_buffered: bool,
    l0: Ledger,
    trace: Seq<(Reply, Ledger)>,
    result: Result<FyParser, Error>,
    end: Ledger,
)
    requires
        runs(
            Step::Ask(
                OpenStdin::Opening { line_buffered, new: NewParser::MakingDiag },
                Call::DiagCreate,
            ),
            l0,
            trace,
            result,
            end,
        ),
    ensures
        parser_made(l0, result, end),
{
    let inv = |step: Step<'a, OpenStdin, Result<FyParser, Error>>, l: Ledger|
        opening_stdin(l0, step, l);
    assert forall|s: OpenStdin, call: Call<'a>, before: Ledger, reply: Reply, after: Ledger|
        inv(Step::Ask(s, call), before) && #[trigger] before.performs(call, reply, after) implies inv(
        #[trigger] s.resumed(reply),
        after,
    ) by {
        lemma_opening_stdin(l0, s, call, before, reply, after);
    }
    lemma_runs(
        inv,
        Step::Ask(
            OpenStdin::Opening { line_buffered, new: NewParser::MakingDiag },
            Call::DiagCreate,
        ),
        l0,
        trace,
        result,
        end,
    );
}

/// What asking for the next document leaves: the document held, and the parser shared with it; or the
/// stream at its end and nothing more held.
pub open spec fn document_loaded(
    l0: Ledger,
    iter: DocumentIterator,
    result: (DocumentIterator, Option<Result<Document, Error>>),
    l: Ledger,
) -> bool {
    &&& result.0.inner == iter.inner
    &&& match result.1 {
        Some(Ok(doc)) => {
            &&& doc.valid()
            &&& doc.input == InputOwnership::Parser(iter.inner)
            &&& !iter.done
            &&& !result.0.done
            &&& l0.gains(Resource::Document(doc.ptr), l)
        },
        Some(Err(_)) => !iter.done && result.0.done && l == l0,
        None => result.0.done && l == l0,
    }
}

spec fn loading<'a>(
    l0: Ledger,
    iter0: DocumentIterator,
    step: Step<'a, NextDocument, (DocumentIterator, Option<Result<Document, Error>>)>,
    l: Ledger,
) -> bool {
    match step {
        Step::Done(result) => document_loaded(l0, iter0, result, l),
        Step::Ask(s, call) => l == l0 && !iter0.done && match s {
            NextDocument::Loading { iter } => iter == iter0 && call == (Call::ParseLoadDocument {
                parser: iter.inner.parser,
            }),
            NextDocument::Checking { iter } => iter.inner == iter0.inner && iter.done && call == (
            Call::ParserGetStreamError { parser: iter.inner.parser }),
            NextDocument::Peeking { iter } => iter.inner == iter0.inner && iter.done
                && iter.inner.diag != 0 && call == (Call::DiagPeekFirst { diag: iter.inner.diag }),
        },
    }
}

/// A stream yields documents, each of which keeps the parser alive, until it ends, cleanly or in an
/// error. Once it has ended nothing more is asked of the parser and nothing more comes.
pub proof fn law_next_document<'a>(
    iter: DocumentIterator,
    l0: Ledger,
    trace: Seq<(Reply, Ledger)>,
    result: (DocumentIterator, Option<Result<Document, Error>>),
    end: Ledger,
)
    requires
        l0.has(Resource::Parser(iter.inner.parser)),
        l0.holds_diag(iter.inner.diag),
        runs(iter.stepping(), l0, trace, result, end),
    ensures
        document_loaded(l0, iter, result, end),
        iter.done ==> trace.len() == 0 && result.1 is None,
{
    let inv = |
        step: Step<'a, NextDocument, (DocumentIterator, Option<Result<Document, Error>>)>,
        l: Ledger,
    |
        loading(l0, iter, step, l);
    lemma_runs(inv, iter.stepping(), l0, trace, result, end);
}

spec fn loading_first<'a>(
    l0: Ledger,
    step: Step<'a, FirstOfStdin, Result<Document, Error>>,
    l: Ledger,
) -> bool {
    match step {
        Step::Done(result) => first_loaded(l0, result, l),
        Step::Ask(s, call) => match s {
            FirstOfStdin::Opening { open } => opening_stdin(l0, Step::Ask(open, call), l),
            FirstOfStdin::Loading { next } => match next {
                NextDocument::Loading { iter } => !iter.done && with_parser(l0, *iter.inner, l)
                    && call == (Call::ParseLoadDocument { parser: iter.inner.parser }),
                NextDocument::Checking { iter } => with_parser(l0, *iter.inner, l) && call == (
                Call::ParserGetStreamError { parser: iter.inner.parser }),
                NextDocument::Peeking { iter } => with_parser(l0, *iter.inner, l)
                    && iter.inner.diag != 0 && call == (Call::DiagPeekFirst {
                    diag: iter.inner.diag,
                }),
            },
            FirstOfStdin::Closing { close, .. } => closing(l0, Step::Ask(close, call), l),
        },
    }
}

/// What reading the first document leaves held: the document and the parser that read it, or nothing
/// more.
pub open spec fn first_loaded(l0: Ledger, result: Result<Document, Error>, l: Ledger) -> bool {
    match result {
        Ok(doc) => {
            &&& doc.valid()
            &&& doc.input matches InputOwnership::Parser(inner)
            &&& l.has(Resource::Document(doc.ptr))
            &&& !l0.has(Resource::Document(doc.ptr))
            &&& with_parser(l0, *inner, l.without(Resource::Document(doc.ptr)))
        },
        Err(_) => l == l0,
    }
}

/// Reading the first document of the standard input leaves nothing behind but the document and its
/// parser, and nothing at all when there is no document.
pub proof fn law_first_of_stdin_settles<'a>(
    l0: Ledger,
    trace: Seq<(Reply, Ledger)>,
    result: Result<Document, Error>,
    end: Ledger,
)
    requires
        runs(
            Step::Ask(
                FirstOfStdin::Opening {
                    open: OpenStdin::Opening { line_buffered: true, new: NewParser::MakingDiag },
                },
                Call::DiagCreate,
            ),
            l0,
            trace,
            result,
            end,
        ),
    ensures
        first_loaded(l0, result, end),
{
    let inv = |step: Step<'a, FirstOfStdin, Result<Document, Error>>, l: Ledger|
        loading_first(l0, step, l);
    assert forall|s: FirstOfStdin, call: Call<'a>, before: Ledger, reply: Reply, after: Ledger|
        inv(Step::Ask(s, call), before) && #[trigger] before.performs(call, reply, after) implies inv(
        #[trigger] s.resumed(reply),
        after,
    ) by {
        match s {
            FirstOfStdin::Opening { open } => {
                lemma_opening_stdin(l0, open, call, before, reply, after);
            },
            FirstOfStdin::Loading { next } => {
                let ptr = reply.pointer_spec();
                if next is Loading && ptr != 0 {
                    assert(after.without(Resource::Document(ptr)) =~= before);
                }
            },
            FirstOfStdin::Closing { close, .. } => {
                lemma_closing(l0, close, call, before, reply, after);
            },
        }
    }
    lemma_runs(
        inv,
        Step::Ask(
            FirstOfStdin::Opening {
                open: OpenStdin::Opening { line_buffered: true, new: NewParser::MakingDiag },
            },
            Call::DiagCreate,
        ),
        l0,
        trace,
        result,
        end,
    );
}

/// An emission leaves no emitter behind.
pub proof fn law_emit_events_settles<'a>(
    emitter: Emitter<'a>,
    l0: Ledger,
    trace: Seq<(Reply, Ledger)>,
    result: Result<Vec<(u32, Vec<u8>)>, Error>,
    end: Ledger,
)
    requires
        runs(emitter.emission(), l0, trace, result, end),
    ensures
        end == l0,
{
    let inv = |step: Step<'a, EmitEvents, Result<Vec<(u32, Vec<u8>)>, Error>>, l: Ledger|
        match step {
            Step::Done(_) => l == l0,
            Step::Ask(EmitEvents::Creating { .. }, call) => call is EmitterCreate && l == l0,
            Step::Ask(EmitEvents::Emitting { emitter: e }, call) => l0.gains(Resource::Emitter(e), l)
                && (call matches Call::EmitDocument { emitter: used, .. } && used == e),
            Step::Ask(EmitEvents::Destroying { .. }, call) => call matches Call::EmitterDestroy {
                emitter: e,
            } && l0.gains(Resource::Emitter(e), l),
        };
    assert forall|s: EmitEvents, call: Call<'a>, before: Ledger, reply: Reply, after: Ledger|
        inv(Step::Ask(s, call), before) && #[trigger] before.performs(call, reply, after) implies inv(
        #[trigger] s.resumed(reply),
        after,
    ) by {
        if s is Destroying {
            assert(after =~= l0);
        }
    }
    lemma_runs(inv, emitter.emission(), l0, trace, result, end);
}

/// Creating a document leaves nothing behind but the document.
pub proof fn law_create_settles<'a>(
    l0: Ledger,
    trace: Seq<(Reply, Ledger)>,
    result: Result<Document, Error>,
    end: Ledger,
)
    requires
        runs(Step::Ask(CreateDocument, Call::DocumentCreate), l0, trace, result, end),
    ensures
        document_made(l0, result, end),
{
    let inv = |step: Step<'a, CreateDocument, Result<Document, Error>>, l: Ledger|
        match step {
            Step::Done(result) => document_made(l0, result, l),
            Step::Ask(_, call) => call is DocumentCreate && l == l0,
        };
    lemma_runs(inv, Step::Ask(CreateDocument, Call::DocumentCreate), l0, trace, result, end);
}

/// Destroying a document gives it back, through the parser that read it if one did.
pub proof fn law_release(doc: Document, l0: Ledger, start: Ledger, reply: Reply, end: Ledger)
    requires
        l0.gains(Resource::Document(doc.ptr), start),
        doc.input matches InputOwnership::Parser(inner) ==> l0.has(Resource::Parser(inner.parser)),
        start.performs(doc.release_spec(), reply, end),
    ensures
        end == l0,
        doc.input matches InputOwnership::Parser(inner) ==> doc.release_spec()
            == (Call::ParseDocumentDestroy { parser: inner.parser, doc: doc.ptr }),
        !(doc.input is Parser) ==> doc.release_spec() == (Call::DocumentDestroy { doc: doc.ptr }),
{
    assert(end =~= l0);
}

} // verus!
