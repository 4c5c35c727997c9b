//! What the library asks of libfyaml and the C runtime, and how it takes the answers.
//!
//! The library decides; it never calls libfyaml itself. Every operation is a session: it asks for
//! one [`Call`] at a time, is handed the [`Reply`], and either asks for the next call or is done.
//! Pointers travel as plain addresses, with `0` for null.

use vstd::prelude::*;

use crate::emitter::Extended;
use crate::error::{Error, ParseError};

verus! {

/// One call into libfyaml or the C runtime.
pub enum Call<'a> {
    /// `malloc` a buffer and copy the bytes of `text` into it.
    MallocCopy { text: &'a str },
    /// `free` a buffer.
    Free { buffer: usize },
    /// Create a diagnostic collector.
    DiagCreate,
    /// Hand out the first error that a collector recorded, and destroy the collector.
    DiagTakeFirst { diag: usize },
    /// Hand out the first error that a collector recorded, and keep the collector.
    DiagPeekFirst { diag: usize },
    /// Destroy a collector.
    DiagDestroy { diag: usize },
    /// `fy_document_create`
    DocumentCreate,
    /// `fy_document_build_from_malloc_string`
    DocumentBuildFromMallocString { diag: usize, buffer: usize, len: usize },
    /// `fy_document_build_from_string`, on the input that the asking session owns
    DocumentBuildFromOwned { diag: usize, len: usize },
    /// `fy_document_destroy`
    DocumentDestroy { doc: usize },
    /// `fy_parse_document_destroy`
    ParseDocumentDestroy { parser: usize, doc: usize },
    /// `fy_document_root`
    DocumentRoot { doc: usize },
    /// `fy_document_set_root`
    DocumentSetRoot { doc: usize, node: usize },
    /// `fy_document_get_diag`
    DocumentGetDiag { doc: usize },
    /// `fy_document_set_diag`
    DocumentSetDiag { doc: usize, diag: usize },
    /// `fy_emit_document_to_string`
    EmitDocumentToString { doc: usize, flags: u32 },
    /// `fy_emit_node_to_string`
    EmitNodeToString { node: usize, flags: u32 },
    /// `fy_node_build_from_malloc_string`
    NodeBuildFromMallocString { doc: usize, buffer: usize, len: usize },
    /// `fy_node_create_scalar_copy`
    NodeCreateScalarCopy { doc: usize, text: &'a str },
    /// `fy_node_create_sequence`
    NodeCreateSequence { doc: usize },
    /// `fy_node_create_mapping`
    NodeCreateMapping { doc: usize },
    /// `fy_node_copy`
    NodeCopy { doc: usize, source: usize },
    /// `fy_node_free`
    NodeFree { node: usize },
    /// `fy_node_by_path`
    NodeByPath { node: usize, path: &'a str },
    /// `fy_node_get_type`
    NodeGetType { node: usize },
    /// `fy_node_get_style`
    NodeGetStyle { node: usize },
    /// `fy_node_set_style`
    NodeSetStyle { node: usize, style: i32 },
    /// `fy_node_set_tag`
    NodeSetTag { node: usize, tag: &'a str },
    /// `fy_node_get_scalar`
    NodeGetScalar { node: usize },
    /// `fy_node_get_tag`
    NodeGetTag { node: usize },
    /// `fy_node_sequence_item_count`
    SequenceItemCount { seq: usize },
    /// `fy_node_sequence_get_by_index`
    SequenceGetByIndex { seq: usize, index: i32 },
    /// `fy_node_sequence_iterate`; `last` is the item it returned last, null to start
    SequenceIterate { seq: usize, last: usize },
    /// `fy_node_sequence_append`
    SequenceAppend { seq: usize, item: usize },
    /// `fy_node_sequence_insert_before`
    SequenceInsertBefore { seq: usize, mark: usize, item: usize },
    /// `fy_node_sequence_remove`
    SequenceRemove { seq: usize, item: usize },
    /// `fy_node_sequence_sort`, with the comparator of the operation
    SequenceSort { seq: usize },
    /// `fy_node_mapping_item_count`
    MappingItemCount { map: usize },
    /// `fy_node_mapping_iterate`; `last` is the pair it returned last, null to start
    MappingIterate { map: usize, last: usize },
    /// `fy_node_mapping_lookup_by_string`
    MappingLookupByString { map: usize, name: &'a str },
    /// `fy_node_mapping_lookup_pair_by_string`
    MappingLookupPairByString { map: usize, name: &'a str },
    /// `fy_node_mapping_append`
    MappingAppend { map: usize, key: usize, value: usize },
    /// `fy_node_mapping_remove_by_key`
    MappingRemoveByKey { map: usize, key: usize },
    /// `fy_node_mapping_sort`, with the comparator of the operation
    MappingSort { map: usize },
    /// `fy_node_sort`, with the comparator of the operation
    NodeSort { node: usize },
    /// `fy_node_pair_key`
    PairKey { pair: usize },
    /// `fy_node_pair_value`
    PairValue { pair: usize },
    /// `fy_node_pair_set_value`
    PairSetValue { pair: usize, value: usize },
    /// `fy_emitter_create`; `extended` is given when the extended configuration is used
    EmitterCreate { flags: u32, extended: Option<Extended> },
    /// `fy_emit_document`, with the pieces that it writes collected
    EmitDocument { emitter: usize, doc: usize },
    /// `fy_emitter_destroy`
    EmitterDestroy { emitter: usize },
    /// `fy_parser_create`
    ParserCreate { diag: usize },
    /// `fy_parser_destroy`
    ParserDestroy { parser: usize },
    /// `fy_parser_set_malloc_string`
    ParserSetMallocString { parser: usize, buffer: usize, len: usize },
    /// `fy_parser_set_input_fp`, under the name `stdin`
    ParserSetInputFp { parser: usize, file: usize },
    /// `fy_parse_load_document`
    ParseLoadDocument { parser: usize },
    /// `fy_parser_get_stream_error`
    ParserGetStreamError { parser: usize },
    /// `dup` of the standard input descriptor
    DupStdin,
    /// `fdopen` for reading
    FdOpen { fd: i32 },
    /// `close`
    FdClose { fd: i32 },
    /// `setvbuf` to line buffering
    SetLineBuffered { file: usize },
    /// `fclose`
    FileClose { file: usize },
    /// `fy_library_version`
    LibraryVersion,
}

/// The answer to a [`Call`].
pub enum Reply {
    /// The address that the call returned; `0` is null.
    Pointer(usize),
    /// The `int` that the call returned.
    Status(i32),
    /// The type number that the call returned.
    Word(u32),
    /// The boolean that the call returned.
    Flag(bool),
    /// The address and length of the bytes that the call returned.
    Slice { address: usize, len: usize },
    /// The bytes of the C string that the call returned, or nothing for null.
    Text(Option<Vec<u8>>),
    /// The `int` that an emission returned, and the pieces it wrote.
    Emitted { status: i32, pieces: Vec<(u32, Vec<u8>)> },
    /// The error that a collector recorded first.
    First(Option<ParseError>),
    /// The call could not be made.
    Fault(Error),
    /// The call returns nothing.
    Void,
}

impl Reply {
    /// The address in the reply; a reply that holds none counts as null.
    pub open spec fn pointer_spec(self) -> usize {
        match self {
            Reply::Pointer(p) => p,
            _ => 0,
        }
    }

    /// The `int` in the reply; a reply that holds none counts as a failure.
    pub open spec fn status_spec(self) -> i32 {
        match self {
            Reply::Status(s) => s,
            _ => -1i32,
        }
    }

    /// The type number in the reply; a reply that holds none counts as a scalar.
    pub open spec fn word_spec(self) -> u32 {
        match self {
            Reply::Word(w) => w,
            _ => 0,
        }
    }

    /// The boolean in the reply; a reply that holds none counts as `false`.
    pub open spec fn flag_spec(self) -> bool {
        match self {
            Reply::Flag(b) => b,
            _ => false,
        }
    }

    /// The recorded error in the reply, if any.
    pub open spec fn first_spec(self) -> Option<ParseError> {
        match self {
            Reply::First(e) => e,
            _ => None,
        }
    }

    /// The bytes in the reply, if any.
    pub open spec fn text_spec(self) -> Option<Vec<u8>> {
        match self {
            Reply::Text(t) => t,
            _ => None,
        }
    }

    /// The pieces of an emission that succeeded.
    pub open spec fn emitted_spec(self) -> Option<Vec<(u32, Vec<u8>)>> {
        match self {
            Reply::Emitted { status, pieces } => if status == 0 {
                Some(pieces)
            } else {
                None
            },
            _ => None,
        }
    }

    /// The address and length in the reply; a reply that holds none counts as null.
    pub open spec fn slice_spec(self) -> (usize, usize) {
        match self {
            Reply::Slice { address, len } => (address, len),
            _ => (0, 0),
        }
    }

    /// The buffer that was allocated, or the reason why none was.
    pub open spec fn buffer_spec(self) -> Result<usize, Error> {
        match self {
            Reply::Pointer(p) => if p == 0 {
                Err(Error::Ffi("malloc failed"))
            } else {
                Ok(p)
            },
            Reply::Fault(e) => Err(e),
            _ => Err(Error::Ffi("malloc failed")),
        }
    }

    /// The address in the reply.
    pub fn pointer(&self) -> (p: usize)
        ensures
            p == self.pointer_spec(),
    {
        match self {
            Reply::Pointer(p) => *p,
            _ => 0,
        }
    }

    /// The `int` in the reply.
    pub fn status(&self) -> (s: i32)
        ensures
            s == self.status_spec(),
    {
        match self {
            Reply::Status(s) => *s,
            _ => -1i32,
        }
    }

    /// The type number in the reply.
    pub fn word(&self) -> (w: u32)
        ensures
            w == self.word_spec(),
    {
        match self {
            Reply::Word(w) => *w,
            _ => 0,
        }
    }

    /// The boolean in the reply.
    pub fn flag(&self) -> (b: bool)
        ensures
            b == self.flag_spec(),
    {
        match self {
            Reply::Flag(b) => *b,
            _ => false,
        }
    }

    /// The recorded error in the reply.
    pub fn first(self) -> (e: Option<ParseError>)
        ensures
            e == self.first_spec(),
    {
        match self {
            Reply::First(e) => e,
            _ => None,
        }
    }

    /// The bytes in the reply.
    pub fn text(self) -> (t: Option<Vec<u8>>)
        ensures
            t == self.text_spec(),
    {
        match self {
            Reply::Text(t) => t,
            _ => None,
        }
    }

    /// The buffer that was allocated.
    pub fn buffer(self) -> (r: Result<usize, Error>)
        ensures
            r == self.buffer_spec(),
    {
        match self {
            Reply::Pointer(p) => if p == 0 {
                Err(Error::Ffi("malloc failed"))
            } else {
                Ok(p)
            },
            Reply::Fault(e) => Err(e),
            _ => Err(Error::Ffi("malloc failed")),
        }
    }

    /// The pieces of an emission that succeeded.
    pub fn emitted(self) -> (r: Option<Vec<(u32, Vec<u8>)>>)
        ensures
            r == self.emitted_spec(),
    {
        match self {
            Reply::Emitted { status, pieces } => if status == 0 {
                Some(pieces)
            } else {
                None
            },
            _ => None,
        }
    }

    /// The address and length in the reply.
    pub fn slice(&self) -> (r: (usize, usize))
        ensures
            r == self.slice_spec(),
    {
        match self {
            Reply::Slice { address, len } => (*address, *len),
            _ => (0, 0),
        }
    }
}

/// Where a session stands: it waits for the reply to a call, or it is done.
pub enum Step<'a, S, T> {
    /// Make the call, then resume the session with the reply.
    Ask(S, Call<'a>),
    /// The operation is over, with this result.
    Done(T),
}

/// An operation that is waiting for the reply to the call it asked for.
pub trait Session<'a>: Sized {
    /// What the operation results in.
    type Output;

    /// Where the operation stands once it has been handed `reply`.
    spec fn resumed(self, reply: Reply) -> Step<'a, Self, Self::Output>;

    /// Hands the operation the reply it waits for.
    fn resume(self, reply: Reply) -> (next: Step<'a, Self, Self::Output>)
        ensures
            next == self.resumed(reply),
    ;
}

} // verus!
