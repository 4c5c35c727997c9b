//! Sorting mappings and sequences.

use std::cmp::Ordering;

use vstd::prelude::*;

use crate::call::{Call, Reply, Session, Step};
use crate::error::Error;
use crate::find::{FindNode, PATH_NOT_FOUND};
use crate::node::{FYNT_MAPPING, FYNT_SEQUENCE};

verus! {

/// What is sorted.
#[derive(Debug, Clone, Copy, PartialEq, Eq, Structural)]
pub enum SortKind {
    /// The pairs of one mapping.
    Mapping,
    /// The pairs of every mapping in a tree.
    Tree,
    /// The items of one sequence.
    Sequence,
}

/// The number by which a C comparator reports an ordering.
pub fn comparator_code(order: Ordering) -> (r: i32)
    ensures
        r == match order {
            Ordering::Less => -1i32,
            Ordering::Equal => 0i32,
            Ordering::Greater => 1i32,
        },
{
    match order {
        Ordering::Less => -1,
        Ordering::Equal => 0,
        Ordering::Greater => 1,
    }
}

/// Sorts what a path points at, with the comparator of the operation. The style of a sequence, which
/// sorting may lose, is put back afterwards.
pub enum SortAt<'a> {
    Finding { kind: SortKind, find: FindNode<'a> },
    Typing { kind: SortKind, node: usize },
    Styling { node: usize },
    Sorting { kind: SortKind, node: usize, style: i32 },
    Restyling,
}

impl<'a> SortAt<'a> {
    /// The first call of the session.
    pub open spec fn started(doc: usize, path: &'a str, kind: SortKind) -> Step<
        'a,
        Self,
        Result<(), Error>,
    > {
        Step::Ask(
            SortAt::Finding { kind, find: FindNode::Rooting { path, missing: PATH_NOT_FOUND } },
            Call::DocumentRoot { doc },
        )
    }

    /// Starts the session.
    pub fn start(doc: usize, path: &'a str, kind: SortKind) -> (r: Step<
        'a,
        Self,
        Result<(), Error>,
    >)
        ensures
            r == Self::started(doc, path, kind),
    {
        Step::Ask(
            SortAt::Finding { kind, find: FindNode::Rooting { path, missing: PATH_NOT_FOUND } },
            Call::DocumentRoot { doc },
        )
    }
}

/// The message of the error for a sort that libfyaml could not do.
pub open spec fn sort_message_spec(kind: SortKind) -> &'static str {
    match kind {
        SortKind::Mapping => "fy_node_mapping_sort failed",
        SortKind::Tree => "fy_node_sort failed",
        SortKind::Sequence => "fy_node_sequence_sort failed",
    }
}

/// The message of the error for a sort that libfyaml could not do.
fn sort_message(kind: SortKind) -> (r: &'static str)
    ensures
        r == sort_message_spec(kind),
{
    match kind {
        SortKind::Mapping => "fy_node_mapping_sort failed",
        SortKind::Tree => "fy_node_sort failed",
        SortKind::Sequence => "fy_node_sequence_sort failed",
    }
}

impl<'a> Session<'a> for SortAt<'a> {
    type Output = Result<(), Error>;

    open spec fn resumed(self, reply: Reply) -> Step<'a, Self, Self::Output> {
        match self {
            SortAt::Finding { kind, find } => match find.resumed(reply) {
                Step::Ask(find, call) => Step::Ask(SortAt::Finding { kind, find }, call),
                Step::Done(Err(e)) => Step::Done(Err(e)),
                Step::Done(Ok(node)) => match kind {
                    SortKind::Tree => Step::Ask(
                        SortAt::Sorting { kind, node, style: 0 },
                        Call::NodeSort { node },
                    ),
                    _ => Step::Ask(SortAt::Typing { kind, node }, Call::NodeGetType { node }),
                },
            },
            SortAt::Typing { kind, node } => match kind {
                SortKind::Sequence => if reply.word_spec() == FYNT_SEQUENCE {
                    Step::Ask(SortAt::Styling { node }, Call::NodeGetStyle { node })
                } else {
                    Step::Done(
                        Err(Error::TypeMismatch { expected: "sequence", got: "non-sequence" }),
                    )
                },
                _ => if reply.word_spec() == FYNT_MAPPING {
                    Step::Ask(
                        SortAt::Sorting { kind, node, style: 0 },
                        Call::MappingSort { map: node },
                    )
                } else {
                    Step::Done(
                        Err(Error::TypeMismatch { expected: "mapping", got: "non-mapping" }),
                    )
                },
            },
            SortAt::Styling { node } => Step::Ask(
                SortAt::Sorting { kind: SortKind::Sequence, node, style: reply.status_spec() },
                Call::SequenceSort { seq: node },
            ),
            SortAt::Sorting { kind, node, style } => if reply.status_spec() != 0 {
                Step::Done(Err(Error::Ffi(sort_message_spec(kind))))
            } else if kind == SortKind::Sequence {
                Step::Ask(SortAt::Restyling, Call::NodeSetStyle { node, style })
            } else {
                Step::Done(Ok(()))
            },
            SortAt::Restyling => Step::Done(Ok(())),
        }
    }

    fn resume(self, reply: Reply) -> (next: Step<'a, Self, Self::Output>) {
        match self {
            SortAt::Finding { kind, find } => match find.resume(reply) {
                Step::Ask(find, call) => Step::Ask(SortAt::Finding { kind, find }, call),
                Step::Done(Err(e)) => Step::Done(Err(e)),
                Step::Done(Ok(node)) => match kind {
                    SortKind::Tree => Step::Ask(
                        SortAt::Sorting { kind, node, style: 0 },
                        Call::NodeSort { node },
                    ),
                    _ => Step::Ask(SortAt::Typing { kind, node }, Call::NodeGetType { node }),
                },
            },
            SortAt::Typing { kind, node } => match kind {
                SortKind::Sequence => if reply.word() == FYNT_SEQUENCE {
                    Step::Ask(SortAt::Styling { node }, Call::NodeGetStyle { node })
                } else {
                    Step::Done(
                        Err(Error::TypeMismatch { expected: "sequence", got: "non-sequence" }),
                    )
                },
                _ => if reply.word() == FYNT_MAPPING {
                    Step::Ask(
                        SortAt::Sorting { kind, node, style: 0 },
                        Call::MappingSort { map: node },
                    )
                } else {
                    Step::Done(
                        Err(Error::TypeMismatch { expected: "mapping", got: "non-mapping" }),
                    )
                },
            },
            SortAt::Styling { node } => Step::Ask(
                SortAt::Sorting { kind: SortKind::Sequence, node, style: reply.status() },
                Call::SequenceSort { seq: node },
            ),
            SortAt::Sorting { kind, node, style } => if reply.status() != 0 {
                Step::Done(Err(Error::Ffi(sort_message(kind))))
            } else if kind == SortKind::Sequence {
                Step::Ask(SortAt::Restyling, Call::NodeSetStyle { node, style })
            } else {
                Step::Done(Ok(()))
            },
            SortAt::Restyling => Step::Done(Ok(())),
        }
    }
}

} // verus!
