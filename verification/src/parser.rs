//! Reading documents one by one from a stream.

use std::rc::Rc;

use vstd::prelude::*;

use crate::call::{Call, Reply, Session, Step};
use crate::document::{Document, InputOwnership};
use crate::error::{diagnosis, first_error_or, Error};

verus! {

/// A parser and the collector it reports to. Everyone who needs the parser alive shares it: the
/// handle, the iterators, and the documents that were read.
pub struct ParserInner {
    /// Address of the parser; never null.
    pub parser: usize,
    /// Address of the collector; null for none.
    pub diag: usize,
}

impl ParserInner {
    /// A parser is there.
    pub open spec fn valid(self) -> bool {
        self.parser != 0
    }
}

/// `Rc::clone` gives another handle on the same value.
#[verifier::external_body]
fn share(inner: &Rc<ParserInner>) -> (r: Rc<ParserInner>)
    ensures
        r == *inner,
{
    Rc::clone(inner)
}

/// Takes a parser down once nobody shares it any more: the parser first, then the collector it
/// reports to.
pub enum CloseParser {
    Destroying { diag: usize },
    Dropping,
}

impl CloseParser {
    /// The first call of the session.
    pub open spec fn started<'a>(inner: ParserInner) -> Step<'a, Self, ()> {
        Step::Ask(
            CloseParser::Destroying { diag: inner.diag },
            Call::ParserDestroy { parser: inner.parser },
        )
    }

    /// Starts the session.
    pub fn start<'a>(inner: &ParserInner) -> (r: Step<'a, Self, ()>)
        ensures
            r == Self::started(*inner),
    {
        Step::Ask(
            CloseParser::Destroying { diag: inner.diag },
            Call::ParserDestroy { parser: inner.parser },
        )
    }
}

impl<'a> Session<'a> for CloseParser {
    type Output = ();

    open spec fn resumed(self, reply: Reply) -> Step<'a, Self, Self::Output> {
        match self {
            CloseParser::Destroying { diag } => if diag == 0 {
                Step::Done(())
            } else {
                Step::Ask(CloseParser::Dropping, Call::DiagDestroy { diag })
            },
            CloseParser::Dropping => Step::Done(()),
        }
    }

    fn resume(self, reply: Reply) -> (next: Step<'a, Self, Self::Output>) {
        match self {
            CloseParser::Destroying { diag } => if diag == 0 {
                Step::Done(())
            } else {
                Step::Ask(CloseParser::Dropping, Call::DiagDestroy { diag })
            },
            CloseParser::Dropping => Step::Done(()),
        }
    }
}

/// Message of the error for a parser that cannot be had.
pub const NO_PARSER: &'static str = "fy_parser_create returned null";

/// Creates a parser that reports to a collector of its own.
pub enum NewParser {
    MakingDiag,
    Creating { diag: usize },
    Dropping,
}

impl<'a> Session<'a> for NewParser {
    type Output = Result<ParserInner, Error>;

    open spec fn resumed(self, reply: Reply) -> Step<'a, Self, Self::Output> {
        let p = reply.pointer_spec();
        match self {
            NewParser::MakingDiag => Step::Ask(
                NewParser::Creating { diag: p },
                Call::ParserCreate { diag: p },
            ),
            NewParser::Creating { diag } => if p != 0 {
                Step::Done(Ok(ParserInner { parser: p, diag }))
            } else if diag != 0 {
                Step::Ask(NewParser::Dropping, Call::DiagDestroy { diag })
            } else {
                Step::Done(Err(Error::Ffi(NO_PARSER)))
            },
            NewParser::Dropping => Step::Done(Err(Error::Ffi(NO_PARSER))),
        }
    }

    fn resume(self, reply: Reply) -> (next: Step<'a, Self, Self::Output>) {
        let p = reply.pointer();
        match self {
            NewParser::MakingDiag => Step::Ask(
                NewParser::Creating { diag: p },
                Call::ParserCreate { diag: p },
            ),
            NewParser::Creating { diag } => if p != 0 {
                Step::Done(Ok(ParserInner { parser: p, diag }))
            } else if diag != 0 {
                Step::Ask(NewParser::Dropping, Call::DiagDestroy { diag })
            } else {
                Step::Done(Err(Error::Ffi(NO_PARSER)))
            },
            NewParser::Dropping => Step::Done(Err(Error::Ffi(NO_PARSER))),
        }
    }
}

/// A parser for a stream of documents.
pub struct FyParser {
    pub inner: Rc<ParserInner>,
}

/// Creates a parser for a string. A session that fails frees the copy of the string, unless the
/// parser took it, and takes the parser down.
pub enum ParseString<'a> {
    Opening { yaml: &'a str, new: NewParser },
    Copying { yaml: &'a str, inner: ParserInner },
    Setting { inner: ParserInner, buffer: usize },
    Freeing { inner: ParserInner },
    Closing { close: CloseParser, error: Error },
}

/// Takes the parser down and reports an error.
pub open spec fn string_refused<'a>(inner: ParserInner, error: Error) -> Step<
    'a,
    ParseString<'a>,
    Result<FyParser, Error>,
> {
    Step::Ask(
        ParseString::Closing { close: CloseParser::Destroying { diag: inner.diag }, error },
        Call::ParserDestroy { parser: inner.parser },
    )
}

/// Takes the parser down and reports an error.
fn refuse_string<'a>(inner: ParserInner, error: Error) -> (r: Step<
    'a,
    ParseString<'a>,
    Result<FyParser, Error>,
>)
    ensures
        r == string_refused(inner, error),
{
    Step::Ask(
        ParseString::Closing { close: CloseParser::Destroying { diag: inner.diag }, error },
        Call::ParserDestroy { parser: inner.parser },
    )
}

impl<'a> Session<'a> for ParseString<'a> {
    type Output = Result<FyParser, Error>;

    open spec fn resumed(self, reply: Reply) -> Step<'a, Self, Self::Output> {
        match self {
            ParseString::Opening { yaml, new } => match new.resumed(reply) {
                Step::Ask(new, call) => Step::Ask(ParseString::Opening { yaml, new }, call),
                Step::Done(Ok(inner)) => Step::Ask(
                    ParseString::Copying { yaml, inner },
                    Call::MallocCopy { text: yaml },
                ),
                Step::Done(Err(e)) => Step::Done(Err(e)),
            },
            ParseString::Copying { yaml, inner } => match reply.buffer_spec() {
                Ok(buffer) => Step::Ask(
                    ParseString::Setting { inner, buffer },
                    Call::ParserSetMallocString { parser: inner.parser, buffer, len: yaml.len() },
                ),
                Err(e) => string_refused(inner, e),
            },
            ParseString::Setting { inner, buffer } => if reply.status_spec() == 0 {
                Step::Done(Ok(FyParser { inner: Rc::new(inner) }))
            } else {
                Step::Ask(ParseString::Freeing { inner }, Call::Free { buffer })
            },
            ParseString::Freeing { inner } => string_refused(
                inner,
                Error::Ffi("fy_parser_set_malloc_string failed"),
            ),
            ParseString::Closing { close, error } => match close.resumed(reply) {
                Step::Ask(close, call) => Step::Ask(ParseString::Closing { close, error }, call),
                Step::Done(_) => Step::Done(Err(error)),
            },
        }
    }

    fn resume(self, reply: Reply) -> (next: Step<'a, Self, Self::Output>) {
        match self {
            ParseString::Opening { yaml, new } => match new.resume(reply) {
                Step::Ask(new, call) => Step::Ask(ParseString::Opening { yaml, new }, call),
                Step::Done(Ok(inner)) => Step::Ask(
                    ParseString::Copying { yaml, inner },
                    Call::MallocCopy { text: yaml },
                ),
                Step::Done(Err(e)) => Step::Done(Err(e)),
            },
            ParseString::Copying { yaml, inner } => match reply.buffer() {
                Ok(buffer) => {
                    let call = Call::ParserSetMallocString {
                        parser: inner.parser,
                        buffer,
                        len: yaml.len(),
                    };
                    Step::Ask(ParseString::Setting { inner, buffer }, call)
                },
                Err(e) => refuse_string(inner, e),
            },
            ParseString::Setting { inner, buffer } => if reply.status() == 0 {
                Step::Done(Ok(FyParser { inner: Rc::new(inner) }))
            } else {
                Step::Ask(ParseString::Freeing { inner }, Call::Free { buffer })
            },
            ParseString::Freeing { inner } => refuse_string(
                inner,
                Error::Ffi("fy_parser_set_malloc_string failed"),
            ),
            ParseString::Closing { close, error } => match close.resume(reply) {
                Step::Ask(close, call) => Step::Ask(ParseString::Closing { close, error }, call),
                Step::Done(_) => Step::Done(Err(error)),
            },
        }
    }
}

/// Creates a parser for the standard input. The descriptor is duplicated, so that closing the
/// parser's stream leaves the standard input open. A session that fails closes what it opened and
/// takes the parser down.
pub enum OpenStdin {
    Opening { line_buffered: bool, new: NewParser },
    Duping { line_buffered: bool, inner: ParserInner },
    FdOpening { line_buffered: bool, inner: ParserInner, fd: i32 },
    ClosingFd { inner: ParserInner },
    Buffering { inner: ParserInner, file: usize },
    Setting { inner: ParserInner, file: usize },
    ClosingFile { inner: ParserInner, error: Error },
    Closing { close: CloseParser, error: Error },
}

/// Takes the parser down and reports an error.
pub open spec fn stdin_refused<'a>(inner: ParserInner, error: Error) -> Step<
    'a,
    OpenStdin,
    Result<FyParser, Error>,
> {
    Step::Ask(
        OpenStdin::Closing { close: CloseParser::Destroying { diag: inner.diag }, error },
        Call::ParserDestroy { parser: inner.parser },
    )
}

/// Takes the parser down and reports an error.
fn refuse_stdin<'a>(inner: ParserInner, error: Error) -> (r: Step<
    'a,
    OpenStdin,
    Result<FyParser, Error>,
>)
    ensures
        r == stdin_refused(inner, error),
{
    Step::Ask(
        OpenStdin::Closing { close: CloseParser::Destroying { diag: inner.diag }, error },
        Call::ParserDestroy { parser: inner.parser },
    )
}

impl<'a> Session<'a> for OpenStdin {
    type Output = Result<FyParser, Error>;

    open spec fn resumed(self, reply: Reply) -> Step<'a, Self, Self::Output> {
        match self {
            OpenStdin::Opening { line_buffered, new } => match new.resumed(reply) {
                Step::Ask(new, call) => Step::Ask(OpenStdin::Opening { line_buffered, new }, call),
                Step::Done(Ok(inner)) => Step::Ask(
                    OpenStdin::Duping { line_buffered, inner },
                    Call::DupStdin,
                ),
                Step::Done(Err(e)) => Step::Done(Err(e)),
            },
            OpenStdin::Duping { line_buffered, inner } => {
                let fd = reply.status_spec();
                if fd < 0 {
                    stdin_refused(inner, Error::Io("dup(stdin) failed"))
                } else {
                    Step::Ask(
                        OpenStdin::FdOpening { line_buffered, inner, fd },
                        Call::FdOpen { fd },
                    )
                }
            },
            OpenStdin::FdOpening { line_buffered, inner, fd } => {
                let file = reply.pointer_spec();
                if file == 0 {
                    Step::Ask(OpenStdin::ClosingFd { inner }, Call::FdClose { fd })
                } else if line_buffered {
                    Step::Ask(OpenStdin::Buffering { inner, file }, Call::SetLineBuffered { file })
                } else {
                    Step::Ask(
                        OpenStdin::Setting { inner, file },
                        Call::ParserSetInputFp { parser: inner.parser, file },
                    )
                }
            },
            OpenStdin::ClosingFd { inner } => stdin_refused(inner, Error::Io("fdopen failed")),
            OpenStdin::Buffering { inner, file } => if reply.status_spec() != 0 {
                Step::Ask(
                    OpenStdin::ClosingFile { inner, error: Error::Io("setvbuf failed") },
                    Call::FileClose { file },
                )
            } else {
                Step::Ask(
                    OpenStdin::Setting { inner, file },
                    Call::ParserSetInputFp { parser: inner.parser, file },
                )
            },
            OpenStdin::Setting { inner, file } => if reply.status_spec() != 0 {
                Step::Ask(
                    OpenStdin::ClosingFile {
                        inner,
                        error: Error::Ffi("fy_parser_set_input_fp failed"),
                    },
                    Call::FileClose { file },
                )
            } else {
                Step::Done(Ok(FyParser { inner: Rc::new(inner) }))
            },
            OpenStdin::ClosingFile { inner, error } => stdin_refused(inner, error),
            OpenStdin::Closing { close, error } => match close.resumed(reply) {
                Step::Ask(close, call) => Step::Ask(OpenStdin::Closing { close, error }, call),
                Step::Done(_) => Step::Done(Err(error)),
            },
        }
    }

    fn resume(self, reply: Reply) -> (next: Step<'a, Self, Self::Output>) {
        match self {
            OpenStdin::Opening { line_buffered, new } => match new.resume(reply) {
                Step::Ask(new, call) => Step::Ask(OpenStdin::Opening { line_buffered, new }, call),
                Step::Done(Ok(inner)) => Step::Ask(
                    OpenStdin::Duping { line_buffered, inner },
                    Call::DupStdin,
                ),
                Step::Done(Err(e)) => Step::Done(Err(e)),
            },
            OpenStdin::Duping { line_buffered, inner } => {
                let fd: i32 = reply.status();
                if fd < 0 {
                    refuse_stdin(inner, Error::Io("dup(stdin) failed"))
                } else {
                    Step::Ask(
                        OpenStdin::FdOpening { line_buffered, inner, fd },
                        Call::FdOpen { fd },
                    )
                }
            },
            OpenStdin::FdOpening { line_buffered, inner, fd } => {
                let file = reply.pointer();
                if file == 0 {
                    Step::Ask(OpenStdin::ClosingFd { inner }, Call::FdClose { fd })
                } else if line_buffered {
                    Step::Ask(OpenStdin::Buffering { inner, file }, Call::SetLineBuffered { file })
                } else {
                    let call = Call::ParserSetInputFp { parser: inner.parser, file };
                    Step::Ask(OpenStdin::Setting { inner, file }, call)
                }
            },
            OpenStdin::ClosingFd { inner } => refuse_stdin(inner, Error::Io("fdopen failed")),
            OpenStdin::Buffering { inner, file } => if reply.status() != 0 {
                Step::Ask(
                    OpenStdin::ClosingFile { inner, error: Error::Io("setvbuf failed") },
                    Call::FileClose { file },
                )
            } else {
                let call = Call::ParserSetInputFp { parser: inner.parser, file };
                Step::Ask(OpenStdin::Setting { inner, file }, call)
            },
            OpenStdin::Setting { inner, file } => if reply.status() != 0 {
                Step::Ask(
                    OpenStdin::ClosingFile {
                        inner,
                        error: Error::Ffi("fy_parser_set_input_fp failed"),
                    },
                    Call::FileClose { file },
                )
            } else {
                Step::Done(Ok(FyParser { inner: Rc::new(inner) }))
            },
            OpenStdin::ClosingFile { inner, error } => refuse_stdin(inner, error),
            OpenStdin::Closing { close, error } => match close.resume(reply) {
                Step::Ask(close, call) => Step::Ask(OpenStdin::Closing { close, error }, call),
                Step::Done(_) => Step::Done(Err(error)),
            },
        }
    }
}

impl FyParser {
    /// Creates a parser for a string.
    pub fn from_string<'a>(yaml: &'a str) -> (r: Step<'a, ParseString<'a>, Result<FyParser, Error>>)
        ensures
            r == Step::<'a, ParseString<'a>, Result<FyParser, Error>>::Ask(
                ParseString::Opening { yaml, new: NewParser::MakingDiag },
                Call::DiagCreate,
            ),
    {
        Step::Ask(ParseString::Opening { yaml, new: NewParser::MakingDiag }, Call::DiagCreate)
    }

    /// Creates a parser for the standard input, line by line.
    pub fn from_stdin<'a>() -> (r: Step<'a, OpenStdin, Result<FyParser, Error>>)
        ensures
            r == Step::<'a, OpenStdin, Result<FyParser, Error>>::Ask(
                OpenStdin::Opening { line_buffered: true, new: NewParser::MakingDiag },
                Call::DiagCreate,
            ),
    {
        Self::from_stdin_with_line_buffer(true)
    }

    /// Creates a parser for the standard input, line by line or in whole blocks.
    pub fn from_stdin_with_line_buffer<'a>(line_buffered: bool) -> (r: Step<
        'a,
        OpenStdin,
        Result<FyParser, Error>,
    >)
        ensures
            r == Step::<'a, OpenStdin, Result<FyParser, Error>>::Ask(
                OpenStdin::Opening { line_buffered, new: NewParser::MakingDiag },
                Call::DiagCreate,
            ),
    {
        Step::Ask(OpenStdin::Opening { line_buffered, new: NewParser::MakingDiag }, Call::DiagCreate)
    }

    /// Iterates over the documents of the stream, from where the parser stands.
    pub fn doc_iter(&self) -> (r: DocumentIterator)
        ensures
            r == (DocumentIterator { inner: self.inner, done: false }),
    {
        DocumentIterator { inner: share(&self.inner), done: false }
    }
}

/// The documents of a stream, one after the other.
pub struct DocumentIterator {
    pub inner: Rc<ParserInner>,
    /// Whether the stream has ended.
    pub done: bool,
}

/// Asks for the next document. The stream ends with the first null document; whether it ended
/// cleanly or in an error is then asked of the parser.
pub enum NextDocument {
    Loading { iter: DocumentIterator },
    Checking { iter: DocumentIterator },
    Peeking { iter: DocumentIterator },
}

impl DocumentIterator {
    /// The first step of the session: nothing is asked of a stream that has ended.
    pub open spec fn stepping<'a>(self) -> Step<
        'a,
        NextDocument,
        (DocumentIterator, Option<Result<Document, Error>>),
    > {
        if self.done {
            Step::Done((self, None))
        } else {
            Step::Ask(
                NextDocument::Loading { iter: self },
                Call::ParseLoadDocument { parser: self.inner.parser },
            )
        }
    }

    /// Asks for the next document.
    pub fn next<'a>(self) -> (r: Step<
        'a,
        NextDocument,
        (DocumentIterator, Option<Result<Document, Error>>),
    >)
        ensures
            r == self.stepping(),
    {
        if self.done {
            Step::Done((self, None))
        } else {
            let parser = self.inner.parser;
            Step::Ask(NextDocument::Loading { iter: self }, Call::ParseLoadDocument { parser })
        }
    }
}

/// The iterator at the end of the stream.
pub open spec fn ended(iter: DocumentIterator) -> DocumentIterator {
    DocumentIterator { done: true, ..iter }
}

impl<'a> Session<'a> for NextDocument {
    type Output = (DocumentIterator, Option<Result<Document, Error>>);

    open spec fn resumed(self, reply: Reply) -> Step<'a, Self, Self::Output> {
        match self {
            NextDocument::Loading { iter } => {
                let ptr = reply.pointer_spec();
                if ptr == 0 {
                    Step::Ask(
                        NextDocument::Checking { iter: ended(iter) },
                        Call::ParserGetStreamError { parser: iter.inner.parser },
                    )
                } else {
                    Step::Done(
                        (iter, Some(Ok(Document { ptr, input: InputOwnership::Parser(iter.inner) }))),
                    )
                }
            },
            NextDocument::Checking { iter } => if !reply.flag_spec() {
                Step::Done((iter, None))
            } else if iter.inner.diag == 0 {
                Step::Done((iter, Some(Err(diagnosis(None, "stream parse error")))))
            } else {
                Step::Ask(
                    NextDocument::Peeking { iter },
                    Call::DiagPeekFirst { diag: iter.inner.diag },
                )
            },
            NextDocument::Peeking { iter } => Step::Done(
                (iter, Some(Err(diagnosis(reply.first_spec(), "stream parse error")))),
            ),
        }
    }

    fn resume(self, reply: Reply) -> (next: Step<'a, Self, Self::Output>) {
        match self {
            NextDocument::Loading { iter } => {
                let ptr = reply.pointer();
                if ptr == 0 {
                    let parser = iter.inner.parser;
                    Step::Ask(
                        NextDocument::Checking {
                            iter: DocumentIterator { inner: iter.inner, done: true },
                        },
                        Call::ParserGetStreamError { parser },
                    )
                } else {
                    let input = InputOwnership::Parser(share(&iter.inner));
                    Step::Done((iter, Some(Ok(Document { ptr, input }))))
                }
            },
            NextDocument::Checking { iter } => if !reply.flag() {
                Step::Done((iter, None))
            } else if iter.inner.diag == 0 {
                let error = first_error_or(None, "stream parse error");
                Step::Done((iter, Some(Err(error))))
            } else {
                let diag = iter.inner.diag;
                Step::Ask(NextDocument::Peeking { iter }, Call::DiagPeekFirst { diag })
            },
            NextDocument::Peeking { iter } => {
                let error = first_error_or(reply.first(), "stream parse error");
                Step::Done((iter, Some(Err(error))))
            },
        }
    }
}

/// Reads the first document of the standard input. When there is none, the parser is taken down.
pub enum FirstOfStdin {
    Opening { open: OpenStdin },
    Loading { next: NextDocument },
    Closing { close: CloseParser, error: Error },
}

/// Takes the parser down and reports an error.
pub open spec fn stream_refused<'a>(inner: ParserInner, error: Error) -> Step<
    'a,
    FirstOfStdin,
    Result<Document, Error>,
> {
    Step::Ask(
        FirstOfStdin::Closing { close: CloseParser::Destroying { diag: inner.diag }, error },
        Call::ParserDestroy { parser: inner.parser },
    )
}

/// Takes the parser down and reports an error.
fn refuse_stream<'a>(inner: &ParserInner, error: Error) -> (r: Step<
    'a,
    FirstOfStdin,
    Result<Document, Error>,
>)
    ensures
        r == stream_refused(*inner, error),
{
    Step::Ask(
        FirstOfStdin::Closing { close: CloseParser::Destroying { diag: inner.diag }, error },
        Call::ParserDestroy { parser: inner.parser },
    )
}

impl<'a> Session<'a> for FirstOfStdin {
    type Output = Result<Document, Error>;

    open spec fn resumed(self, reply: Reply) -> Step<'a, Self, Self::Output> {
        match self {
            FirstOfStdin::Opening { open } => match open.resumed(reply) {
                Step::Ask(open, call) => Step::Ask(FirstOfStdin::Opening { open }, call),
                Step::Done(Ok(parser)) => Step::Ask(
                    FirstOfStdin::Loading {
                        next: NextDocument::Loading {
                            iter: DocumentIterator { inner: parser.inner, done: false },
                        },
                    },
                    Call::ParseLoadDocument { parser: parser.inner.parser },
                ),
                Step::Done(Err(e)) => Step::Done(Err(e)),
            },
            FirstOfStdin::Loading { next } => match next.resumed(reply) {
                Step::Ask(next, call) => Step::Ask(FirstOfStdin::Loading { next }, call),
                Step::Done((iter, Some(Ok(doc)))) => Step::Done(Ok(doc)),
                Step::Done((iter, Some(Err(e)))) => stream_refused(*iter.inner, e),
                Step::Done((iter, None)) => stream_refused(
                    *iter.inner,
                    Error::Parse("no document in stdin stream"),
                ),
            },
            FirstOfStdin::Closing { close, error } => match close.resumed(reply) {
                Step::Ask(close, call) => Step::Ask(FirstOfStdin::Closing { close, error }, call),
                Step::Done(_) => Step::Done(Err(error)),
            },
        }
    }

    fn resume(self, reply: Reply) -> (next: Step<'a, Self, Self::Output>) {
        match self {
            FirstOfStdin::Opening { open } => match open.resume(reply) {
                Step::Ask(open, call) => Step::Ask(FirstOfStdin::Opening { open }, call),
                Step::Done(Ok(parser)) => {
                    let call = Call::ParseLoadDocument { parser: parser.inner.parser };
                    Step::Ask(
                        FirstOfStdin::Loading {
                            next: NextDocument::Loading {
                                iter: DocumentIterator { inner: parser.inner, done: false },
                            },
                        },
                        call,
                    )
                },
                Step::Done(Err(e)) => Step::Done(Err(e)),
            },
            FirstOfStdin::Loading { next } => match next.resume(reply) {
                Step::Ask(next, call) => Step::Ask(FirstOfStdin::Loading { next }, call),
                Step::Done((iter, Some(Ok(doc)))) => Step::Done(Ok(doc)),
                Step::Done((iter, Some(Err(e)))) => refuse_stream(&iter.inner, e),
                Step::Done((iter, None)) => refuse_stream(
                    &iter.inner,
                    Error::Parse("no document in stdin stream"),
                ),
            },
            FirstOfStdin::Closing { close, error } => match close.resume(reply) {
                Step::Ask(close, call) => Step::Ask(FirstOfStdin::Closing { close, error }, call),
                Step::Done(_) => Step::Done(Err(error)),
            },
        }
    }
}

} // verus!
