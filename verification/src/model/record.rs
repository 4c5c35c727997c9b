//! A record of what was asked for, and of what has failed, whatever libfyaml answers.

use vstd::prelude::*;

use crate::call::{Call, Reply};
use crate::error::Error;
use crate::model::world::World;

verus! {

/// A document, and whether every call so far that names a document has named this one, and everything
/// that was parsed reports to the collector that was made; what the first call that failed is to be
/// reported as, and whether that was a parse; the collector that was made, `0` for none, and whether
/// it was asked what went wrong; the document that was made last, `0` for none; whether the items of
/// a sequence were counted just now; whether something was looked for and not found; whether a
/// stream came to its end; and whether a file is read line by line.
pub struct Record {
    pub doc: usize,
    pub kept: bool,
    pub failure: Option<Error>,
    pub unparsed: bool,
    pub diag: usize,
    pub consulted: bool,
    pub made: usize,
    pub counted: bool,
    pub lost: bool,
    pub ended: bool,
    pub lined: bool,
}

/// Nothing has been asked for yet.
pub open spec fn blank(doc: usize) -> Record {
    Record {
        doc,
        kept: true,
        failure: None,
        unparsed: false,
        diag: 0,
        consulted: false,
        made: 0,
        counted: false,
        lost: false,
        ended: false,
        lined: false,
    }
}

/// The document that a call names, if it names one.
pub open spec fn document_of(call: Call) -> Option<usize> {
    match call {
        Call::DocumentDestroy { doc } => Some(doc),
        Call::ParseDocumentDestroy { doc, .. } => Some(doc),
        Call::DocumentRoot { doc } => Some(doc),
        Call::DocumentSetRoot { doc, .. } => Some(doc),
        Call::DocumentGetDiag { doc } => Some(doc),
        Call::DocumentSetDiag { doc, .. } => Some(doc),
        Call::EmitDocumentToString { doc, .. } => Some(doc),
        Call::NodeBuildFromMallocString { doc, .. } => Some(doc),
        Call::NodeCreateScalarCopy { doc, .. } => Some(doc),
        Call::NodeCreateSequence { doc } => Some(doc),
        Call::NodeCreateMapping { doc } => Some(doc),
        Call::NodeCopy { doc, .. } => Some(doc),
        Call::EmitDocument { doc, .. } => Some(doc),
        _ => None,
    }
}

/// The collector that a call has a parse report to, if it has one do so.
pub open spec fn collector_of(call: Call) -> Option<usize> {
    match call {
        Call::DocumentBuildFromMallocString { diag, .. } => Some(diag),
        Call::DocumentBuildFromOwned { diag, .. } => Some(diag),
        Call::ParserCreate { diag } => Some(diag),
        _ => None,
    }
}

/// Whether a call looks for something, or takes it out.
pub open spec fn looks(call: Call) -> bool {
    call is DocumentRoot || call is NodeByPath || call is MappingLookupPairByString
        || call is PairKey || call is SequenceGetByIndex || call is MappingRemoveByKey
        || call is SequenceRemove
}

/// Whether a reply points nowhere.
pub open spec fn is_null(reply: Reply) -> bool {
    reply matches Reply::Pointer(p) ==> p == 0
}

/// Whether a reply is a status other than `0`.
pub open spec fn is_refusal(reply: Reply) -> bool {
    !(reply matches Reply::Status(s) && s == 0)
}

/// What a call that failed is to be reported as, if it failed.
pub open spec fn failure_of(call: Call, reply: Reply) -> Option<Error> {
    let null = is_null(reply);
    let refused = is_refusal(reply);
    match call {
        Call::MallocCopy { .. } => match reply {
            Reply::Fault(e) => Some(e),
            _ => if null {
                Some(Error::Ffi("malloc failed"))
            } else {
                None
            },
        },
        Call::DocumentCreate if null => Some(Error::Ffi("fy_document_create returned null")),
        Call::DocumentBuildFromMallocString { .. } if null => Some(
            Error::Parse("fy_document_build_from_malloc_string failed"),
        ),
        Call::DocumentBuildFromOwned { .. } if null => Some(
            Error::Parse("fy_document_build_from_string failed"),
        ),
        Call::NodeBuildFromMallocString { .. } if null => Some(
            Error::Parse("fy_node_build_from_malloc_string failed"),
        ),
        Call::DocumentSetRoot { .. } if refused => Some(Error::Ffi("fy_document_set_root failed")),
        Call::NodeCreateScalarCopy { .. } if null => Some(
            Error::Ffi("fy_node_create_scalar_copy failed"),
        ),
        Call::NodeCreateSequence { .. } if null => Some(
            Error::Ffi("fy_node_create_sequence failed"),
        ),
        Call::NodeCreateMapping { .. } if null => Some(
            Error::Ffi("fy_node_create_mapping failed"),
        ),
        Call::NodeCopy { .. } if null => Some(Error::Ffi("fy_node_copy failed")),
        Call::NodeSetTag { .. } if refused => Some(Error::Ffi("fy_node_set_tag failed")),
        Call::SequenceAppend { .. } if refused => Some(
            Error::Ffi("fy_node_sequence_append failed"),
        ),
        Call::SequenceInsertBefore { .. } if refused => Some(
            Error::Ffi("fy_node_sequence_insert_before failed"),
        ),
        Call::SequenceRemove { .. } if null => Some(Error::Ffi("fy_node_sequence_remove failed")),
        Call::MappingAppend { .. } if refused => Some(Error::Ffi("fy_node_mapping_append failed")),
        Call::PairSetValue { .. } if refused => Some(Error::Ffi("fy_node_pair_set_value failed")),
        Call::MappingSort { .. } if refused => Some(Error::Ffi("fy_node_mapping_sort failed")),
        Call::NodeSort { .. } if refused => Some(Error::Ffi("fy_node_sort failed")),
        Call::SequenceSort { .. } if refused => Some(Error::Ffi("fy_node_sequence_sort failed")),
        Call::ParserCreate { .. } if null => Some(Error::Ffi("fy_parser_create returned null")),
        Call::ParserSetMallocString { .. } if refused => Some(
            Error::Ffi("fy_parser_set_malloc_string failed"),
        ),
        Call::DupStdin if !(reply matches Reply::Status(s) && s >= 0) => Some(
            Error::Io("dup(stdin) failed"),
        ),
        Call::FdOpen { .. } if null => Some(Error::Io("fdopen failed")),
        Call::SetLineBuffered { .. } if refused => Some(Error::Io("setvbuf failed")),
        Call::ParserSetInputFp { .. } if refused => Some(
            Error::Ffi("fy_parser_set_input_fp failed"),
        ),
        Call::ParserGetStreamError { .. } if reply == Reply::Flag(true) => Some(
            Error::Parse("stream parse error"),
        ),
        Call::EmitterCreate { .. } if null => Some(Error::Ffi("fy_emitter_create returned null")),
        Call::EmitDocument { .. } if reply.emitted_spec() is None => Some(
            Error::Ffi("fy_emit_document failed"),
        ),
        Call::EmitDocumentToString { .. } if reply.text_spec() is None => Some(
            Error::Ffi("fy_emit_document_to_string returned null"),
        ),
        Call::EmitNodeToString { .. } if reply.text_spec() is None => Some(
            Error::Ffi("fy_emit_node_to_string returned null"),
        ),
        Call::LibraryVersion if reply.text_spec() is None => Some(
            Error::Ffi("fy_library_version returned null"),
        ),
        _ => None,
    }
}

/// Whether a call parses something, or says whether a parse has failed.
pub open spec fn is_parse(call: Call) -> bool {
    call is DocumentBuildFromMallocString || call is DocumentBuildFromOwned
        || call is NodeBuildFromMallocString || call is ParserGetStreamError
}

/// Whether a call makes a document.
pub open spec fn makes_document(call: Call) -> bool {
    call is DocumentCreate || call is DocumentBuildFromMallocString || call is DocumentBuildFromOwned
        || call is ParseLoadDocument
}

impl Record {
    /// What is to be reported once a call was answered: the first failure, and if that is a parse
    /// which failed, what the collector says of it.
    pub open spec fn reported(self, call: Call, reply: Reply) -> Option<Error> {
        if self.failure is None && self.counted && call is SequenceGetByIndex && is_null(reply) {
            Some(Error::Ffi("sequence element not found"))
        } else if self.failure is None {
            failure_of(call, reply)
        } else if self.unparsed && (call is DiagTakeFirst || call is DiagPeekFirst) {
            match reply {
                Reply::First(Some(first)) => Some(Error::ParseError(first)),
                _ => self.failure,
            }
        } else {
            self.failure
        }
    }

    /// Whether what went wrong with a parse was asked of the collector, if there is one.
    pub open spec fn thorough(self) -> bool {
        self.unparsed ==> self.failure is Some && (self.diag == 0 || self.consulted)
    }
}

impl World for Record {
    /// Any answer will do.
    open spec fn performs(self, call: Call, reply: Reply, after: Self) -> bool {
        after == (Record {
            doc: self.doc,
            kept: self.kept && (document_of(call) matches Some(doc) ==> doc == self.doc) && (
            collector_of(call) matches Some(diag) ==> diag == self.diag),
            failure: self.reported(call, reply),
            unparsed: self.unparsed || (self.failure is None && is_parse(call) && failure_of(
                call,
                reply,
            ) is Some),
            diag: if call is DiagCreate && !is_null(reply) {
                reply->Pointer_0
            } else {
                self.diag
            },
            consulted: self.consulted || (call matches Call::DiagTakeFirst { diag } && diag
                == self.diag) || (call matches Call::DiagPeekFirst { diag } && diag == self.diag),
            made: if makes_document(call) && !is_null(reply) {
                reply->Pointer_0
            } else {
                self.made
            },
            counted: call is SequenceItemCount,
            lost: self.lost || (looks(call) && is_null(reply)),
            ended: self.ended || (call is ParseLoadDocument && is_null(reply)),
            lined: self.lined || call is SetLineBuffered,
        })
    }
}

} // verus!
