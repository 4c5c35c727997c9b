//! Putting detached nodes together, and into the tree.

use vstd::prelude::*;

use crate::call::{Call, Reply, Session, Step};
use crate::error::Error;
use crate::find::{FindNode, PATH_NOT_FOUND};
use crate::handle::RawNodeHandle;
use crate::node::FYNT_SEQUENCE;

verus! {

/// Message of the error for a root that libfyaml does not accept.
pub const SET_ROOT_FAILED: &'static str = "fy_document_set_root failed";

/// Message of the error for an item that libfyaml does not accept.
pub const APPEND_FAILED: &'static str = "fy_node_sequence_append failed";

/// Hands a detached node over to the tree. When libfyaml does not take it, the node is freed.
pub enum Attach {
    Asking { node: RawNodeHandle, message: &'static str },
    Failing { error: Error },
}

impl Attach {
    /// The first call that makes `node` the root of a document.
    pub open spec fn rooting<'a>(doc: usize, node: RawNodeHandle) -> Step<
        'a,
        Self,
        Result<(), Error>,
    > {
        Step::Ask(
            Attach::Asking { node, message: SET_ROOT_FAILED },
            Call::DocumentSetRoot { doc, node: node.node },
        )
    }

    /// Makes `node` the root of a document. The old root, if any, is freed by libfyaml.
    pub fn root<'a>(doc: usize, node: RawNodeHandle) -> (r: Step<'a, Self, Result<(), Error>>)
        ensures
            r == Self::rooting(doc, node),
    {
        let address = node.node;
        Step::Ask(
            Attach::Asking { node, message: SET_ROOT_FAILED },
            Call::DocumentSetRoot { doc, node: address },
        )
    }

    /// The first call that appends `item` to the sequence at `seq`.
    pub open spec fn appending<'a>(seq: usize, item: RawNodeHandle) -> Step<
        'a,
        Self,
        Result<(), Error>,
    > {
        Step::Ask(
            Attach::Asking { node: item, message: APPEND_FAILED },
            Call::SequenceAppend { seq, item: item.node },
        )
    }

    /// Appends `item` to the sequence at `seq`.
    pub fn append<'a>(seq: usize, item: RawNodeHandle) -> (r: Step<'a, Self, Result<(), Error>>)
        ensures
            r == Self::appending(seq, item),
    {
        let address = item.node;
        Step::Ask(
            Attach::Asking { node: item, message: APPEND_FAILED },
            Call::SequenceAppend { seq, item: address },
        )
    }
}

impl<'a> Session<'a> for Attach {
    type Output = Result<(), Error>;

    open spec fn resumed(self, reply: Reply) -> Step<'a, Self, Self::Output> {
        match self {
            Attach::Asking { node, message } => if reply.status_spec() == 0 {
                Step::Done(Ok(()))
            } else {
                match node.release_spec() {
                    Some(call) => Step::Ask(Attach::Failing { error: Error::Ffi(message) }, call),
                    None => Step::Done(Err(Error::Ffi(message))),
                }
            },
            Attach::Failing { error } => Step::Done(Err(error)),
        }
    }

    fn resume(self, reply: Reply) -> (next: Step<'a, Self, Self::Output>) {
        match self {
            Attach::Asking { mut node, message } => if reply.status() == 0 {
                node.mark_inserted();
                Step::Done(Ok(()))
            } else {
                match node.release() {
                    Some(call) => Step::Ask(Attach::Failing { error: Error::Ffi(message) }, call),
                    None => Step::Done(Err(Error::Ffi(message))),
                }
            },
            Attach::Failing { error } => Step::Done(Err(error)),
        }
    }
}

/// Puts a key and a value into a mapping. When libfyaml does not take them, the value is freed, then
/// the key.
pub enum MapInsert {
    Appending { key: RawNodeHandle, value: RawNodeHandle },
    FreeingValue { key: RawNodeHandle },
    FreeingKey,
}

impl MapInsert {
    /// The first call of the session.
    pub open spec fn started<'a>(map: usize, key: RawNodeHandle, value: RawNodeHandle) -> Step<
        'a,
        Self,
        Result<(), Error>,
    > {
        Step::Ask(
            MapInsert::Appending { key, value },
            Call::MappingAppend { map, key: key.node, value: value.node },
        )
    }

    /// Starts the session.
    pub fn start<'a>(map: usize, key: RawNodeHandle, value: RawNodeHandle) -> (r: Step<
        'a,
        Self,
        Result<(), Error>,
    >)
        ensures
            r == Self::started(map, key, value),
    {
        let call = Call::MappingAppend { map, key: key.node, value: value.node };
        Step::Ask(MapInsert::Appending { key, value }, call)
    }
}

/// What follows once the value is out of the way: the key is freed unless the tree owns it.
pub open spec fn key_released<'a>(key: RawNodeHandle) -> Step<'a, MapInsert, Result<(), Error>> {
    match key.release_spec() {
        Some(call) => Step::Ask(MapInsert::FreeingKey, call),
        None => Step::Done(Err(Error::Ffi("fy_node_mapping_append failed"))),
    }
}

/// Goes on once the value is out of the way.
fn release_key<'a>(key: RawNodeHandle) -> (r: Step<'a, MapInsert, Result<(), Error>>)
    ensures
        r == key_released(key),
{
    match key.release() {
        Some(call) => Step::Ask(MapInsert::FreeingKey, call),
        None => Step::Done(Err(Error::Ffi("fy_node_mapping_append failed"))),
    }
}

impl<'a> Session<'a> for MapInsert {
    type Output = Result<(), Error>;

    open spec fn resumed(self, reply: Reply) -> Step<'a, Self, Self::Output> {
        match self {
            MapInsert::Appending { key, value } => if reply.status_spec() == 0 {
                Step::Done(Ok(()))
            } else {
                match value.release_spec() {
                    Some(call) => Step::Ask(MapInsert::FreeingValue { key }, call),
                    None => key_released(key),
                }
            },
            MapInsert::FreeingValue { key } => key_released(key),
            MapInsert::FreeingKey => Step::Done(Err(Error::Ffi("fy_node_mapping_append failed"))),
        }
    }

    fn resume(self, reply: Reply) -> (next: Step<'a, Self, Self::Output>) {
        match self {
            MapInsert::Appending { mut key, mut value } => if reply.status() == 0 {
                key.mark_inserted();
                value.mark_inserted();
                Step::Done(Ok(()))
            } else {
                match value.release() {
                    Some(call) => Step::Ask(MapInsert::FreeingValue { key }, call),
                    None => release_key(key),
                }
            },
            MapInsert::FreeingValue { key } => release_key(key),
            MapInsert::FreeingKey => Step::Done(Err(Error::Ffi("fy_node_mapping_append failed"))),
        }
    }
}

/// Appends a node to the sequence at a path. A session that fails frees the node.
pub enum SeqAppendAt<'a> {
    Finding { item: RawNodeHandle, find: FindNode<'a> },
    Typing { item: RawNodeHandle, seq: usize },
    Appending { attach: Attach },
    Failing { error: Error },
}

impl<'a> SeqAppendAt<'a> {
    /// The first call of the session.
    pub open spec fn started(doc: usize, path: &'a str, item: RawNodeHandle) -> Step<
        'a,
        Self,
        Result<(), Error>,
    > {
        Step::Ask(
            SeqAppendAt::Finding {
                item,
                find: FindNode::Rooting { path, missing: PATH_NOT_FOUND },
            },
            Call::DocumentRoot { doc },
        )
    }

    /// Starts the session.
    pub fn start(doc: usize, path: &'a str, item: RawNodeHandle) -> (r: Step<
        'a,
        Self,
        Result<(), Error>,
    >)
        ensures
            r == Self::started(doc, path, item),
    {
        Step::Ask(
            SeqAppendAt::Finding {
                item,
                find: FindNode::Rooting { path, missing: PATH_NOT_FOUND },
            },
            Call::DocumentRoot { doc },
        )
    }
}

/// Gives up on an append: the item is freed unless the tree owns it.
pub open spec fn append_failed<'a>(item: RawNodeHandle, error: Error) -> Step<
    'a,
    SeqAppendAt<'a>,
    Result<(), Error>,
> {
    match item.release_spec() {
        Some(call) => Step::Ask(SeqAppendAt::Failing { error }, call),
        None => Step::Done(Err(error)),
    }
}

/// Gives up on an append.
fn fail_append<'a>(item: RawNodeHandle, error: Error) -> (r: Step<
    'a,
    SeqAppendAt<'a>,
    Result<(), Error>,
>)
    ensures
        r == append_failed(item, error),
{
    match item.release() {
        Some(call) => Step::Ask(SeqAppendAt::Failing { error }, call),
        None => Step::Done(Err(error)),
    }
}

impl<'a> Session<'a> for SeqAppendAt<'a> {
    type Output = Result<(), Error>;

    open spec fn resumed(self, reply: Reply) -> Step<'a, Self, Self::Output> {
        match self {
            SeqAppendAt::Finding { item, find } => match find.resumed(reply) {
                Step::Ask(find, call) => Step::Ask(SeqAppendAt::Finding { item, find }, call),
                Step::Done(Ok(seq)) => Step::Ask(
                    SeqAppendAt::Typing { item, seq },
                    Call::NodeGetType { node: seq },
                ),
                Step::Done(Err(e)) => append_failed(item, e),
            },
            SeqAppendAt::Typing { item, seq } => if reply.word_spec() == FYNT_SEQUENCE {
                Step::Ask(
                    SeqAppendAt::Appending {
                        attach: Attach::Asking { node: item, message: APPEND_FAILED },
                    },
                    Call::SequenceAppend { seq, item: item.node },
                )
            } else {
                append_failed(
                    item,
                    Error::TypeMismatch { expected: "sequence", got: "non-sequence" },
                )
            },
            SeqAppendAt::Appending { attach } => match attach.resumed(reply) {
                Step::Ask(attach, call) => Step::Ask(SeqAppendAt::Appending { attach }, call),
                Step::Done(outcome) => Step::Done(outcome),
            },
            SeqAppendAt::Failing { error } => Step::Done(Err(error)),
        }
    }

    fn resume(self, reply: Reply) -> (next: Step<'a, Self, Self::Output>) {
        match self {
            SeqAppendAt::Finding { item, find } => match find.resume(reply) {
                Step::Ask(find, call) => Step::Ask(SeqAppendAt::Finding { item, find }, call),
                Step::Done(Ok(seq)) => Step::Ask(
                    SeqAppendAt::Typing { item, seq },
                    Call::NodeGetType { node: seq },
                ),
                Step::Done(Err(e)) => fail_append(item, e),
            },
            SeqAppendAt::Typing { item, seq } => if reply.word() == FYNT_SEQUENCE {
                let address = item.node;
                Step::Ask(
                    SeqAppendAt::Appending {
                        attach: Attach::Asking { node: item, message: APPEND_FAILED },
                    },
                    Call::SequenceAppend { seq, item: address },
                )
            } else {
                fail_append(
                    item,
                    Error::TypeMismatch { expected: "sequence", got: "non-sequence" },
                )
            },
            SeqAppendAt::Appending { attach } => match attach.resume(reply) {
                Step::Ask(attach, call) => Step::Ask(SeqAppendAt::Appending { attach }, call),
                Step::Done(outcome) => Step::Done(outcome),
            },
            SeqAppendAt::Failing { error } => Step::Done(Err(error)),
        }
    }
}

} // verus!
