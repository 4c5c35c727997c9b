//! Finding a node by its path from the document root.

use vstd::prelude::*;

use crate::call::{Call, Reply, Session, Step};
use crate::error::Error;

verus! {

/// Message of the error for a parent path that leads nowhere.
pub const PARENT_NOT_FOUND: &'static str = "parent path not found";

/// Message of the error for a path that leads nowhere.
pub const PATH_NOT_FOUND: &'static str = "path not found";

/// Resolves a path to the address of a node. The empty path denotes the root; any other path is
/// walked from the root by libfyaml.
pub enum FindNode<'a> {
    Rooting { path: &'a str, missing: &'static str },
    Walking { missing: &'static str },
}

impl<'a> FindNode<'a> {
    /// The first call of the session; `missing` is the message for a path that leads nowhere.
    pub open spec fn started(doc: usize, path: &'a str, missing: &'static str) -> Step<
        'a,
        Self,
        Result<usize, Error>,
    > {
        Step::Ask(FindNode::Rooting { path, missing }, Call::DocumentRoot { doc })
    }

    /// Starts the session.
    pub fn start(doc: usize, path: &'a str, missing: &'static str) -> (r: Step<
        'a,
        Self,
        Result<usize, Error>,
    >)
        ensures
            r == Self::started(doc, path, missing),
    {
        Step::Ask(FindNode::Rooting { path, missing }, Call::DocumentRoot { doc })
    }
}

impl<'a> Session<'a> for FindNode<'a> {
    type Output = Result<usize, Error>;

    open spec fn resumed(self, reply: Reply) -> Step<'a, Self, Self::Output> {
        let node = reply.pointer_spec();
        match self {
            FindNode::Rooting { path, missing } => if node == 0 {
                Step::Done(Err(Error::Ffi("document has no root")))
            } else if path@.len() == 0 {
                Step::Done(Ok(node))
            } else {
                Step::Ask(FindNode::Walking { missing }, Call::NodeByPath { node, path })
            },
            FindNode::Walking { missing } => if node == 0 {
                Step::Done(Err(Error::Ffi(missing)))
            } else {
                Step::Done(Ok(node))
            },
        }
    }

    fn resume(self, reply: Reply) -> (next: Step<'a, Self, Self::Output>) {
        let node = reply.pointer();
        match self {
            FindNode::Rooting { path, missing } => if node == 0 {
                Step::Done(Err(Error::Ffi("document has no root")))
            } else if path.is_empty() {
                Step::Done(Ok(node))
            } else {
                Step::Ask(FindNode::Walking { missing }, Call::NodeByPath { node, path })
            },
            FindNode::Walking { missing } => if node == 0 {
                Step::Done(Err(Error::Ffi(missing)))
            } else {
                Step::Done(Ok(node))
            },
        }
    }
}

} // verus!
