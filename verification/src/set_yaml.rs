//! Replacing or adding the value at a path.

use vstd::prelude::*;

use crate::assemble::{Attach, SET_ROOT_FAILED};
use crate::call::{Call, Reply, Session, Step};
use crate::error::Error;
use crate::find::{FindNode, PARENT_NOT_FOUND};
use crate::handle::RawNodeHandle;
use crate::node::{FYNT_MAPPING, FYNT_SEQUENCE};
use crate::path::{
    characters, is_index, is_root_path, key_part, parent_part, parse_index, signed_value,
    split_path,
};
use crate::snippet::BuildFromYaml;

verus! {

/// What a path points at: the root, or a key under a parent.
pub enum Target<'a> {
    Root,
    Child { parent: &'a str, key: &'a str },
}

impl<'a> Target<'a> {
    /// Whether this is what `path` points at.
    pub open spec fn denotes(self, path: Seq<char>) -> bool {
        match self {
            Target::Root => is_root_path(path),
            Target::Child { parent, key } => {
                &&& !is_root_path(path)
                &&& parent@ == parent_part(path)
                &&& key@ == key_part(path)
            },
        }
    }

    /// Works out what `path` points at.
    pub fn of(path: &'a str) -> (r: Self)
        ensures
            r.denotes(path@),
    {
        let chars = characters(path);
        if chars.len() == 0 || (chars.len() == 1 && chars[0] == '/') {
            assert(path@.len() == 1 ==> path@ == seq!['/']);
            Target::Root
        } else {
            let (parent, key) = split_path(path);
            Target::Child { parent, key }
        }
    }
}

/// Where `index` lands in a sequence of `count` items: counted from the end when negative.
/// Nothing when it lands outside.
pub open spec fn resolve_index_spec(index: i32, count: i32) -> Option<i32> {
    let at = if index < 0 {
        count + index
    } else {
        index as int
    };
    if 0 <= at < count {
        Some(at as i32)
    } else {
        None
    }
}

/// Resolves an index, counting from the end when it is negative.
pub fn resolve_index(index: i32, count: i32) -> (r: Option<i32>)
    ensures
        r == resolve_index_spec(index, count),
{
    let at: i64 = if index < 0 {
        count as i64 + index as i64
    } else {
        index as i64
    };
    if at < 0 || at >= count as i64 {
        None
    } else {
        Some(at as i32)
    }
}

/// Sets the value at a path from a YAML snippet.
///
/// The snippet is built first. Under a mapping the key's value is replaced, or the key is added at
/// the end. Under a sequence the item at the index is taken out and the new node is put in its
/// place. A session that fails frees the node it built.
pub enum SetYamlAt<'a> {
    Building { doc: usize, target: Target<'a>, build: BuildFromYaml<'a> },
    Rooting { set: Attach },
    Finding { doc: usize, key: &'a str, node: RawNodeHandle, find: FindNode<'a> },
    Typing { doc: usize, key: &'a str, node: RawNodeHandle, parent: usize },
    Looking { doc: usize, key: &'a str, node: RawNodeHandle, parent: usize },
    Replacing { node: RawNodeHandle },
    Keying { node: RawNodeHandle, parent: usize },
    Appending { node: RawNodeHandle, key_node: usize },
    FreeingKey { node: RawNodeHandle },
    Counting { node: RawNodeHandle, parent: usize, index: i32 },
    Getting { node: RawNodeHandle, parent: usize, after: i32 },
    Peeking { node: RawNodeHandle, parent: usize, item: usize },
    Removing { node: RawNodeHandle, parent: usize, next: usize },
    Freeing { node: RawNodeHandle, parent: usize, next: usize },
    Adding { node: RawNodeHandle },
    Inserting { node: RawNodeHandle },
    Failing { error: Error },
}

/// Gives up on an operation: the node it built is freed unless the tree owns it.
pub open spec fn failed<'a>(node: RawNodeHandle, error: Error) -> Step<
    'a,
    SetYamlAt<'a>,
    Result<(), Error>,
> {
    match node.release_spec() {
        Some(call) => Step::Ask(SetYamlAt::Failing { error }, call),
        None => Step::Done(Err(error)),
    }
}

/// Gives up on an operation.
fn fail<'a>(node: RawNodeHandle, error: Error) -> (r: Step<'a, SetYamlAt<'a>, Result<(), Error>>)
    ensures
        r == failed(node, error),
{
    match node.release() {
        Some(call) => Step::Ask(SetYamlAt::Failing { error }, call),
        None => Step::Done(Err(error)),
    }
}

/// Ends an operation whose last call put the node into the tree, if its status says so.
pub open spec fn finished<'a>(
    node: RawNodeHandle,
    status: i32,
    message: &'static str,
) -> Step<'a, SetYamlAt<'a>, Result<(), Error>> {
    if status == 0 {
        Step::Done(Ok(()))
    } else {
        failed(node, Error::Ffi(message))
    }
}

/// Ends an operation whose last call put the node into the tree.
fn finish<'a>(node: RawNodeHandle, status: i32, message: &'static str) -> (r: Step<
    'a,
    SetYamlAt<'a>,
    Result<(), Error>,
>)
    ensures
        r == finished(node, status, message),
{
    let mut node = node;
    if status == 0 {
        node.mark_inserted();
        Step::Done(Ok(()))
    } else {
        fail(node, Error::Ffi(message))
    }
}

/// What follows the snippet: nothing if it did not parse, else the way to the target.
pub open spec fn built<'a>(
    doc: usize,
    target: Target<'a>,
    outcome: Result<RawNodeHandle, Error>,
) -> Step<'a, SetYamlAt<'a>, Result<(), Error>> {
    match outcome {
        Err(e) => Step::Done(Err(e)),
        Ok(node) => match target {
            Target::Root => Step::Ask(
                SetYamlAt::Rooting { set: Attach::Asking { node, message: SET_ROOT_FAILED } },
                Call::DocumentSetRoot { doc, node: node.node },
            ),
            Target::Child { parent, key } => Step::Ask(
                SetYamlAt::Finding {
                    doc,
                    key,
                    node,
                    find: FindNode::Rooting { path: parent, missing: PARENT_NOT_FOUND },
                },
                Call::DocumentRoot { doc },
            ),
        },
    }
}

/// Goes on once the snippet has been built.
fn after_build<'a>(doc: usize, target: Target<'a>, outcome: Result<RawNodeHandle, Error>) -> (r:
    Step<'a, SetYamlAt<'a>, Result<(), Error>>)
    ensures
        r == built(doc, target, outcome),
{
    match outcome {
        Err(e) => Step::Done(Err(e)),
        Ok(node) => match target {
            Target::Root => {
                let address = node.node;
                Step::Ask(
                    SetYamlAt::Rooting { set: Attach::Asking { node, message: SET_ROOT_FAILED } },
                    Call::DocumentSetRoot { doc, node: address },
                )
            },
            Target::Child { parent, key } => Step::Ask(
                SetYamlAt::Finding {
                    doc,
                    key,
                    node,
                    find: FindNode::Rooting { path: parent, missing: PARENT_NOT_FOUND },
                },
                Call::DocumentRoot { doc },
            ),
        },
    }
}

impl<'a> SetYamlAt<'a> {
    /// The first call of the session.
    pub open spec fn started(doc: usize, target: Target<'a>, yaml: &'a str) -> Step<
        'a,
        Self,
        Result<(), Error>,
    > {
        Step::Ask(
            SetYamlAt::Building { doc, target, build: BuildFromYaml::Copying { doc, yaml } },
            Call::MallocCopy { text: yaml },
        )
    }

    /// Starts the session.
    pub fn start(doc: usize, path: &'a str, yaml: &'a str) -> (r: Step<
        'a,
        Self,
        Result<(), Error>,
    >)
        ensures
            exists|target: Target<'a>| #[trigger]
                target.denotes(path@) && r == Self::started(doc, target, yaml),
    {
        let target = Target::of(path);
        assert(target.denotes(path@));
        Step::Ask(
            SetYamlAt::Building { doc, target, build: BuildFromYaml::Copying { doc, yaml } },
            Call::MallocCopy { text: yaml },
        )
    }
}

impl<'a> Session<'a> for SetYamlAt<'a> {
    type Output = Result<(), Error>;

    open spec fn resumed(self, reply: Reply) -> Step<'a, Self, Self::Output> {
        match self {
            SetYamlAt::Building { doc, target, build } => match build.resumed(reply) {
                Step::Ask(build, call) => Step::Ask(
                    SetYamlAt::Building { doc, target, build },
                    call,
                ),
                Step::Done(outcome) => built(doc, target, outcome),
            },
            SetYamlAt::Rooting { set } => match set.resumed(reply) {
                Step::Ask(set, call) => Step::Ask(SetYamlAt::Rooting { set }, call),
                Step::Done(outcome) => Step::Done(outcome),
            },
            SetYamlAt::Finding { doc, key, node, find } => match find.resumed(reply) {
                Step::Ask(find, call) => Step::Ask(
                    SetYamlAt::Finding { doc, key, node, find },
                    call,
                ),
                Step::Done(Ok(parent)) => Step::Ask(
                    SetYamlAt::Typing { doc, key, node, parent },
                    Call::NodeGetType { node: parent },
                ),
                Step::Done(Err(e)) => failed(node, e),
            },
            SetYamlAt::Typing { doc, key, node, parent } => if reply.word_spec() == FYNT_MAPPING {
                Step::Ask(
                    SetYamlAt::Looking { doc, key, node, parent },
                    Call::MappingLookupPairByString { map: parent, name: key },
                )
            } else if reply.word_spec() == FYNT_SEQUENCE {
                if is_index(key@) {
                    Step::Ask(
                        SetYamlAt::Counting { node, parent, index: signed_value(key@) as i32 },
                        Call::SequenceItemCount { seq: parent },
                    )
                } else {
                    failed(node, Error::Ffi("invalid sequence index"))
                }
            } else {
                failed(
                    node,
                    Error::TypeMismatch { expected: "mapping or sequence", got: "scalar" },
                )
            },
            SetYamlAt::Looking { doc, key, node, parent } => if reply.pointer_spec() != 0 {
                Step::Ask(
                    SetYamlAt::Replacing { node },
                    Call::PairSetValue { pair: reply.pointer_spec(), value: node.node },
                )
            } else {
                Step::Ask(
                    SetYamlAt::Keying { node, parent },
                    Call::NodeCreateScalarCopy { doc, text: key },
                )
            },
            SetYamlAt::Replacing { node } => finished(
                node,
                reply.status_spec(),
                "fy_node_pair_set_value failed",
            ),
            SetYamlAt::Keying { node, parent } => if reply.pointer_spec() == 0 {
                failed(node, Error::Ffi("fy_node_create_scalar_copy failed"))
            } else {
                Step::Ask(
                    SetYamlAt::Appending { node, key_node: reply.pointer_spec() },
                    Call::MappingAppend {
                        map: parent,
                        key: reply.pointer_spec(),
                        value: node.node,
                    },
                )
            },
            SetYamlAt::Appending { node, key_node } => if reply.status_spec() == 0 {
                Step::Done(Ok(()))
            } else {
                Step::Ask(SetYamlAt::FreeingKey { node }, Call::NodeFree { node: key_node })
            },
            SetYamlAt::FreeingKey { node } => failed(
                node,
                Error::Ffi("fy_node_mapping_append failed"),
            ),
            SetYamlAt::Counting { node, parent, index } => match resolve_index_spec(
                index,
                reply.status_spec(),
            ) {
                Some(at) => Step::Ask(
                    SetYamlAt::Getting { node, parent, after: (at + 1) as i32 },
                    Call::SequenceGetByIndex { seq: parent, index: at },
                ),
                None => failed(node, Error::Ffi("sequence index out of bounds")),
            },
            SetYamlAt::Getting { node, parent, after } => if reply.pointer_spec() == 0 {
                failed(node, Error::Ffi("sequence element not found"))
            } else {
                Step::Ask(
                    SetYamlAt::Peeking { node, parent, item: reply.pointer_spec() },
                    Call::SequenceGetByIndex { seq: parent, index: after },
                )
            },
            SetYamlAt::Peeking { node, parent, item } => Step::Ask(
                SetYamlAt::Removing { node, parent, next: reply.pointer_spec() },
                Call::SequenceRemove { seq: parent, item },
            ),
            SetYamlAt::Removing { node, parent, next } => if reply.pointer_spec() == 0 {
                failed(node, Error::Ffi("fy_node_sequence_remove failed"))
            } else {
                Step::Ask(
                    SetYamlAt::Freeing { node, parent, next },
                    Call::NodeFree { node: reply.pointer_spec() },
                )
            },
            SetYamlAt::Freeing { node, parent, next } => if next == 0 {
                Step::Ask(
                    SetYamlAt::Adding { node },
                    Call::SequenceAppend { seq: parent, item: node.node },
                )
            } else {
                Step::Ask(
                    SetYamlAt::Inserting { node },
                    Call::SequenceInsertBefore { seq: parent, mark: next, item: node.node },
                )
            },
            SetYamlAt::Adding { node } => finished(
                node,
                reply.status_spec(),
                "fy_node_sequence_append failed",
            ),
            SetYamlAt::Inserting { node } => finished(
                node,
                reply.status_spec(),
                "fy_node_sequence_insert_before failed",
            ),
            SetYamlAt::Failing { error } => Step::Done(Err(error)),
        }
    }

    fn resume(self, reply: Reply) -> (next: Step<'a, Self, Self::Output>) {
        match self {
            SetYamlAt::Building { doc, target, build } => match build.resume(reply) {
                Step::Ask(build, call) => Step::Ask(
                    SetYamlAt::Building { doc, target, build },
                    call,
                ),
                Step::Done(outcome) => after_build(doc, target, outcome),
            },
            SetYamlAt::Rooting { set } => match set.resume(reply) {
                Step::Ask(set, call) => Step::Ask(SetYamlAt::Rooting { set }, call),
                Step::Done(outcome) => Step::Done(outcome),
            },
            SetYamlAt::Finding { doc, key, node, find } => match find.resume(reply) {
                Step::Ask(find, call) => Step::Ask(
                    SetYamlAt::Finding { doc, key, node, find },
                    call,
                ),
                Step::Done(Ok(parent)) => Step::Ask(
                    SetYamlAt::Typing { doc, key, node, parent },
                    Call::NodeGetType { node: parent },
                ),
                Step::Done(Err(e)) => fail(node, e),
            },
            SetYamlAt::Typing { doc, key, node, parent } => {
                let kind = reply.word();
                if kind == FYNT_MAPPING {
                    Step::Ask(
                        SetYamlAt::Looking { doc, key, node, parent },
                        Call::MappingLookupPairByString { map: parent, name: key },
                    )
                } else if kind == FYNT_SEQUENCE {
                    match parse_index(key) {
                        Some(index) => Step::Ask(
                            SetYamlAt::Counting { node, parent, index },
                            Call::SequenceItemCount { seq: parent },
                        ),
                        None => fail(node, Error::Ffi("invalid sequence index")),
                    }
                } else {
                    fail(
                        node,
                        Error::TypeMismatch { expected: "mapping or sequence", got: "scalar" },
                    )
                }
            },
            SetYamlAt::Looking { doc, key, node, parent } => {
                let pair = reply.pointer();
                if pair != 0 {
                    let value = node.node;
                    Step::Ask(
                        SetYamlAt::Replacing { node },
                        Call::PairSetValue { pair, value },
                    )
                } else {
                    Step::Ask(
                        SetYamlAt::Keying { node, parent },
                        Call::NodeCreateScalarCopy { doc, text: key },
                    )
                }
            },
            SetYamlAt::Replacing { node } => finish(
                node,
                reply.status(),
                "fy_node_pair_set_value failed",
            ),
            SetYamlAt::Keying { node, parent } => {
                let key = reply.pointer();
                if key == 0 {
                    fail(node, Error::Ffi("fy_node_create_scalar_copy failed"))
                } else {
                    let value = node.node;
                    Step::Ask(
                        SetYamlAt::Appending { node, key_node: key },
                        Call::MappingAppend { map: parent, key, value },
                    )
                }
            },
            SetYamlAt::Appending { mut node, key_node } => if reply.status() == 0 {
                node.mark_inserted();
                Step::Done(Ok(()))
            } else {
                Step::Ask(SetYamlAt::FreeingKey { node }, Call::NodeFree { node: key_node })
            },
            SetYamlAt::FreeingKey { node } => fail(
                node,
                Error::Ffi("fy_node_mapping_append failed"),
            ),
            SetYamlAt::Counting { node, parent, index } => match resolve_index(
                index,
                reply.status(),
            ) {
                Some(at) => Step::Ask(
                    SetYamlAt::Getting { node, parent, after: at + 1 },
                    Call::SequenceGetByIndex { seq: parent, index: at },
                ),
                None => fail(node, Error::Ffi("sequence index out of bounds")),
            },
            SetYamlAt::Getting { node, parent, after } => {
                let item = reply.pointer();
                if item == 0 {
                    fail(node, Error::Ffi("sequence element not found"))
                } else {
                    Step::Ask(
                        SetYamlAt::Peeking { node, parent, item },
                        Call::SequenceGetByIndex { seq: parent, index: after },
                    )
                }
            },
            SetYamlAt::Peeking { node, parent, item } => Step::Ask(
                SetYamlAt::Removing { node, parent, next: reply.pointer() },
                Call::SequenceRemove { seq: parent, item },
            ),
            SetYamlAt::Removing { node, parent, next } => {
                let removed = reply.pointer();
                if removed == 0 {
                    fail(node, Error::Ffi("fy_node_sequence_remove failed"))
                } else {
                    Step::Ask(
                        SetYamlAt::Freeing { node, parent, next },
                        Call::NodeFree { node: removed },
                    )
                }
            },
            SetYamlAt::Freeing { node, parent, next } => {
                let item = node.node;
                if next == 0 {
                    Step::Ask(
                        SetYamlAt::Adding { node },
                        Call::SequenceAppend { seq: parent, item },
                    )
                } else {
                    Step::Ask(
                        SetYamlAt::Inserting { node },
                        Call::SequenceInsertBefore { seq: parent, mark: next, item },
                    )
                }
            },
            SetYamlAt::Adding { node } => finish(
                node,
                reply.status(),
                "fy_node_sequence_append failed",
            ),
            SetYamlAt::Inserting { node } => finish(
                node,
                reply.status(),
                "fy_node_sequence_insert_before failed",
            ),
            SetYamlAt::Failing { error } => Step::Done(Err(error)),
        }
    }
}

} // verus!
