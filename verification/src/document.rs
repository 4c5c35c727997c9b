//! Documents, and how they come about.

use std::rc::Rc;

use vstd::prelude::*;
use vstd::utf8::encode_utf8;

use crate::call::{Call, Reply, Session, Step};
use crate::editor::Editor;
use crate::emitter::{Emitter, Extended, DEFAULT_EMIT_FLAGS};
use crate::error::{diagnosis, first_error_or, Error};
use crate::node_ref::{AskText, Lookup, LookupAt, LookupValue, NodeRef, ValueRef};
use crate::parser::{FirstOfStdin, NewParser, OpenStdin, ParserInner};
use crate::text::display_text;

verus! {

/// What keeps the input of a document alive. The nodes of a document may point into its input.
pub enum InputOwnership {
    /// libfyaml took over the buffer that the input was copied to.
    LibfyamlOwned,
    /// The document keeps the string itself.
    OwnedString(String),
    /// The document keeps the bytes themselves.
    OwnedBytes(Vec<u8>),
    /// The parser that read the document keeps its input.
    Parser(Rc<ParserInner>),
    /// There is no input.
    NoInput,
}

/// A document.
pub struct Document {
    /// Address of the libfyaml document; never null.
    pub ptr: usize,
    pub input: InputOwnership,
}

/// Creates an empty document.
pub struct CreateDocument;

impl<'a> Session<'a> for CreateDocument {
    type Output = Result<Document, Error>;

    open spec fn resumed(self, reply: Reply) -> Step<'a, Self, Self::Output> {
        let ptr = reply.pointer_spec();
        Step::Done(
            if ptr == 0 {
                Err(Error::Ffi("fy_document_create returned null"))
            } else {
                Ok(Document { ptr, input: InputOwnership::NoInput })
            },
        )
    }

    fn resume(self, reply: Reply) -> (next: Step<'a, Self, Self::Output>) {
        let ptr = reply.pointer();
        if ptr == 0 {
            Step::Done(Err(Error::Ffi("fy_document_create returned null")))
        } else {
            Step::Done(Ok(Document { ptr, input: InputOwnership::NoInput }))
        }
    }
}

/// Message of the error for a copied input that does not parse and leaves no diagnostic.
pub const COPY_UNPARSED: &'static str = "fy_document_build_from_malloc_string failed";

/// Parses a copy of a string. The copy is libfyaml's once the document is there; when there is none,
/// the copy is freed.
pub enum ParseStr<'a> {
    Copying { yaml: &'a str },
    MakingDiag { yaml: &'a str, buffer: usize },
    Building { buffer: usize, diag: usize },
    FreeingBuffer { diag: usize },
    Diagnosing,
    Dropping { ptr: usize },
}

impl<'a> Session<'a> for ParseStr<'a> {
    type Output = Result<Document, Error>;

    open spec fn resumed(self, reply: Reply) -> Step<'a, Self, Self::Output> {
        match self {
            ParseStr::Copying { yaml } => match reply.buffer_spec() {
                Ok(buffer) => Step::Ask(ParseStr::MakingDiag { yaml, buffer }, Call::DiagCreate),
                Err(e) => Step::Done(Err(e)),
            },
            ParseStr::MakingDiag { yaml, buffer } => {
                let diag = reply.pointer_spec();
                Step::Ask(
                    ParseStr::Building { buffer, diag },
                    Call::DocumentBuildFromMallocString { diag, buffer, len: yaml.len() },
                )
            },
            ParseStr::Building { buffer, diag } => {
                let ptr = reply.pointer_spec();
                if ptr == 0 {
                    Step::Ask(ParseStr::FreeingBuffer { diag }, Call::Free { buffer })
                } else if diag != 0 {
                    Step::Ask(ParseStr::Dropping { ptr }, Call::DiagDestroy { diag })
                } else {
                    Step::Done(Ok(Document { ptr, input: InputOwnership::LibfyamlOwned }))
                }
            },
            ParseStr::FreeingBuffer { diag } => if diag != 0 {
                Step::Ask(ParseStr::Diagnosing, Call::DiagTakeFirst { diag })
            } else {
                Step::Done(Err(diagnosis(None, COPY_UNPARSED)))
            },
            ParseStr::Diagnosing => Step::Done(Err(diagnosis(reply.first_spec(), COPY_UNPARSED))),
            ParseStr::Dropping { ptr } => Step::Done(
                Ok(Document { ptr, input: InputOwnership::LibfyamlOwned }),
            ),
        }
    }

    fn resume(self, reply: Reply) -> (next: Step<'a, Self, Self::Output>) {
        match self {
            ParseStr::Copying { yaml } => match reply.buffer() {
                Ok(buffer) => Step::Ask(ParseStr::MakingDiag { yaml, buffer }, Call::DiagCreate),
                Err(e) => Step::Done(Err(e)),
            },
            ParseStr::MakingDiag { yaml, buffer } => {
                let diag = reply.pointer();
                Step::Ask(
                    ParseStr::Building { buffer, diag },
                    Call::DocumentBuildFromMallocString { diag, buffer, len: yaml.len() },
                )
            },
            ParseStr::Building { buffer, diag } => {
                let ptr = reply.pointer();
                if ptr == 0 {
                    Step::Ask(ParseStr::FreeingBuffer { diag }, Call::Free { buffer })
                } else if diag != 0 {
                    Step::Ask(ParseStr::Dropping { ptr }, Call::DiagDestroy { diag })
                } else {
                    Step::Done(Ok(Document { ptr, input: InputOwnership::LibfyamlOwned }))
                }
            },
            ParseStr::FreeingBuffer { diag } => if diag != 0 {
                Step::Ask(ParseStr::Diagnosing, Call::DiagTakeFirst { diag })
            } else {
                Step::Done(Err(first_error_or(None, COPY_UNPARSED)))
            },
            ParseStr::Diagnosing => Step::Done(Err(first_error_or(reply.first(), COPY_UNPARSED))),
            ParseStr::Dropping { ptr } => Step::Done(
                Ok(Document { ptr, input: InputOwnership::LibfyamlOwned }),
            ),
        }
    }
}

/// Message of the error for a kept input that does not parse and leaves no diagnostic.
pub const KEPT_UNPARSED: &'static str = "fy_document_build_from_string failed";

/// Parses input in place. The input is the document's once it is there, and is dropped when there is
/// none.
pub enum ParseOwned {
    MakingDiag { input: InputOwnership, len: usize },
    Building { input: InputOwnership, diag: usize },
    Diagnosing,
    Dropping { ptr: usize, input: InputOwnership },
}

impl<'a> Session<'a> for ParseOwned {
    type Output = Result<Document, Error>;

    open spec fn resumed(self, reply: Reply) -> Step<'a, Self, Self::Output> {
        match self {
            ParseOwned::MakingDiag { input, len } => {
                let diag = reply.pointer_spec();
                Step::Ask(
                    ParseOwned::Building { input, diag },
                    Call::DocumentBuildFromOwned { diag, len },
                )
            },
            ParseOwned::Building { input, diag } => {
                let ptr = reply.pointer_spec();
                if ptr == 0 && diag != 0 {
                    Step::Ask(ParseOwned::Diagnosing, Call::DiagTakeFirst { diag })
                } else if ptr == 0 {
                    Step::Done(Err(diagnosis(None, KEPT_UNPARSED)))
                } else if diag != 0 {
                    Step::Ask(ParseOwned::Dropping { ptr, input }, Call::DiagDestroy { diag })
                } else {
                    Step::Done(Ok(Document { ptr, input }))
                }
            },
            ParseOwned::Diagnosing => Step::Done(
                Err(diagnosis(reply.first_spec(), KEPT_UNPARSED)),
            ),
            ParseOwned::Dropping { ptr, input } => Step::Done(Ok(Document { ptr, input })),
        }
    }

    fn resume(self, reply: Reply) -> (next: Step<'a, Self, Self::Output>) {
        match self {
            ParseOwned::MakingDiag { input, len } => {
                let diag = reply.pointer();
                Step::Ask(
                    ParseOwned::Building { input, diag },
                    Call::DocumentBuildFromOwned { diag, len },
                )
            },
            ParseOwned::Building { input, diag } => {
                let ptr = reply.pointer();
                if ptr == 0 && diag != 0 {
                    Step::Ask(ParseOwned::Diagnosing, Call::DiagTakeFirst { diag })
                } else if ptr == 0 {
                    Step::Done(Err(first_error_or(None, KEPT_UNPARSED)))
                } else if diag != 0 {
                    Step::Ask(ParseOwned::Dropping { ptr, input }, Call::DiagDestroy { diag })
                } else {
                    Step::Done(Ok(Document { ptr, input }))
                }
            },
            ParseOwned::Diagnosing => Step::Done(
                Err(first_error_or(reply.first(), KEPT_UNPARSED)),
            ),
            ParseOwned::Dropping { ptr, input } => Step::Done(Ok(Document { ptr, input })),
        }
    }
}

impl Document {
    /// A document is there.
    pub open spec fn valid(self) -> bool {
        self.ptr != 0
    }

    /// Takes over a libfyaml document.
    pub fn from_raw_ptr(ptr: usize, input: InputOwnership) -> (r: Self)
        ensures
            r == (Document { ptr, input }),
    {
        Document { ptr, input }
    }

    /// Creates an empty document.
    pub fn new<'a>() -> (r: Step<'a, CreateDocument, Result<Document, Error>>)
        ensures
            r == Step::<'a, CreateDocument, Result<Document, Error>>::Ask(
                CreateDocument,
                Call::DocumentCreate,
            ),
    {
        Step::Ask(CreateDocument, Call::DocumentCreate)
    }

    /// Reads the first document of the standard input.
    pub fn from_stdin<'a>() -> (r: Step<'a, FirstOfStdin, Result<Document, Error>>)
        ensures
            r == Step::<'a, FirstOfStdin, Result<Document, Error>>::Ask(
                FirstOfStdin::Opening {
                    open: OpenStdin::Opening { line_buffered: true, new: NewParser::MakingDiag },
                },
                Call::DiagCreate,
            ),
    {
        Step::Ask(
            FirstOfStdin::Opening {
                open: OpenStdin::Opening { line_buffered: true, new: NewParser::MakingDiag },
            },
            Call::DiagCreate,
        )
    }

    /// The first step of parsing a copy of a string; an empty string is refused.
    pub open spec fn parsing<'a>(s: &'a str) -> Step<'a, ParseStr<'a>, Result<Document, Error>> {
        if s@.len() == 0 {
            Step::Done(Err(Error::Parse("empty input")))
        } else {
            Step::Ask(ParseStr::Copying { yaml: s }, Call::MallocCopy { text: s })
        }
    }

    /// Parses a copy of a string.
    pub fn parse_str<'a>(s: &'a str) -> (r: Step<'a, ParseStr<'a>, Result<Document, Error>>)
        ensures
            r == Self::parsing(s),
    {
        if s.is_empty() {
            Step::Done(Err(Error::Parse("empty input")))
        } else {
            Step::Ask(ParseStr::Copying { yaml: s }, Call::MallocCopy { text: s })
        }
    }

    /// The first step of parsing input in place; empty input is refused.
    pub open spec fn parsing_owned<'a>(input: InputOwnership, len: usize) -> Step<
        'a,
        ParseOwned,
        Result<Document, Error>,
    > {
        if len == 0 {
            Step::Done(Err(Error::Parse("empty input")))
        } else {
            Step::Ask(ParseOwned::MakingDiag { input, len }, Call::DiagCreate)
        }
    }

    /// Parses a string in place. The document keeps the string.
    pub fn from_string<'a>(s: String) -> (r: Step<'a, ParseOwned, Result<Document, Error>>)
        ensures
            r == Self::parsing_owned(
                InputOwnership::OwnedString(s),
                encode_utf8(s@).len() as usize,
            ),
            encode_utf8(s@).len() <= usize::MAX,
    {
        let len = s.as_str().as_bytes().len();
        if len == 0 {
            Step::Done(Err(Error::Parse("empty input")))
        } else {
            Step::Ask(
                ParseOwned::MakingDiag { input: InputOwnership::OwnedString(s), len },
                Call::DiagCreate,
            )
        }
    }

    /// Parses bytes in place. The document keeps the bytes.
    pub fn from_bytes<'a>(bytes: Vec<u8>) -> (r: Step<'a, ParseOwned, Result<Document, Error>>)
        ensures
            r == Self::parsing_owned(InputOwnership::OwnedBytes(bytes), bytes@.len() as usize),
    {
        let len = bytes.len();
        if len == 0 {
            Step::Done(Err(Error::Parse("empty input")))
        } else {
            Step::Ask(
                ParseOwned::MakingDiag { input: InputOwnership::OwnedBytes(bytes), len },
                Call::DiagCreate,
            )
        }
    }

    /// Asks for the root.
    pub fn root<'a, 'doc>(&'doc self) -> (r: Step<'a, Lookup<'doc>, Option<NodeRef<'doc>>>)
        ensures
            r == Step::<'a, Lookup<'doc>, Option<NodeRef<'doc>>>::Ask(
                Lookup { doc: self },
                Call::DocumentRoot { doc: self.ptr },
            ),
    {
        Step::Ask(Lookup { doc: self }, Call::DocumentRoot { doc: self.ptr })
    }

    /// Follows a path from the root.
    pub fn at_path<'a, 'doc>(&'doc self, path: &'a str) -> (r: Step<
        'a,
        LookupAt<'doc, 'a>,
        Option<NodeRef<'doc>>,
    >)
        ensures
            r == Step::<'a, LookupAt<'doc, 'a>, Option<NodeRef<'doc>>>::Ask(
                LookupAt::Rooting { doc: self, path },
                Call::DocumentRoot { doc: self.ptr },
            ),
    {
        Step::Ask(LookupAt::Rooting { doc: self, path }, Call::DocumentRoot { doc: self.ptr })
    }

    /// Asks for the root, to read it as a typed value.
    pub fn root_value<'a, 'doc>(&'doc self) -> (r: Step<
        'a,
        LookupValue<'doc>,
        Option<ValueRef<'doc>>,
    >)
        ensures
            r == Step::<'a, LookupValue<'doc>, Option<ValueRef<'doc>>>::Ask(
                LookupValue { doc: self },
                Call::DocumentRoot { doc: self.ptr },
            ),
    {
        Step::Ask(LookupValue { doc: self }, Call::DocumentRoot { doc: self.ptr })
    }

    /// Borrows the document for editing.
    pub fn edit<'doc>(&'doc mut self) -> (r: Editor<'doc>)
        ensures
            r.doc_spec() == *old(self),
            *final(r.doc) == *final(self),
    {
        Editor::new(self)
    }

    /// An emitter for the document, with the default settings.
    pub fn emitter<'doc>(&'doc self) -> (r: Emitter<'doc>)
        ensures
            r == (Emitter {
                doc: self,
                flags: DEFAULT_EMIT_FLAGS,
                extended: Extended { indented_seq_in_map: false, preserve_flow_layout: false },
            }),
    {
        Emitter::new(self)
    }

    /// Asks for the document as YAML.
    pub fn emit<'a>(&self) -> (r: Step<'a, AskText, Result<Vec<u8>, Error>>)
        ensures
            r == Step::<'a, AskText, Result<Vec<u8>, Error>>::Ask(
                AskText { message: "fy_emit_document_to_string returned null" },
                Call::EmitDocumentToString { doc: self.ptr, flags: DEFAULT_EMIT_FLAGS },
            ),
    {
        Step::Ask(
            AskText { message: "fy_emit_document_to_string returned null" },
            Call::EmitDocumentToString { doc: self.ptr, flags: DEFAULT_EMIT_FLAGS },
        )
    }

    /// What is shown of a document: its YAML, or a fixed text when it could not be emitted.
    pub fn display(emitted: Result<String, Error>) -> (r: String)
        ensures
            r@ == match emitted {
                Ok(s) => s@,
                Err(_) => "<Document emit error>"@,
            },
    {
        display_text(emitted, "<Document emit error>")
    }

    /// The call that destroys the document: a document that a parser read goes through that parser.
    pub open spec fn release_spec<'a>(self) -> Call<'a> {
        match self.input {
            InputOwnership::Parser(inner) => Call::ParseDocumentDestroy {
                parser: inner.parser,
                doc: self.ptr,
            },
            _ => Call::DocumentDestroy { doc: self.ptr },
        }
    }

    /// The call that destroys the document. The input must outlive it.
    pub fn release<'a>(&self) -> (r: Call<'a>)
        ensures
            r == self.release_spec(),
    {
        match &self.input {
            InputOwnership::Parser(inner) => Call::ParseDocumentDestroy {
                parser: inner.parser,
                doc: self.ptr,
            },
            _ => Call::DocumentDestroy { doc: self.ptr },
        }
    }
}

} // verus!
