//! Making detached nodes, and dressing them.

use vstd::prelude::*;

use crate::call::{Reply, Session, Step};
use crate::error::Error;
use crate::handle::RawNodeHandle;
use crate::node::{node_style, NodeStyle};

verus! {

/// Asks libfyaml for a new node; `message` is what a null answer is reported as.
pub struct MakeNode {
    pub message: &'static str,
}

impl<'a> Session<'a> for MakeNode {
    type Output = Result<RawNodeHandle, Error>;

    open spec fn resumed(self, reply: Reply) -> Step<'a, Self, Self::Output> {
        Step::Done(RawNodeHandle::try_from_ptr_spec(reply.pointer_spec(), self.message))
    }

    fn resume(self, reply: Reply) -> (next: Step<'a, Self, Self::Output>) {
        Step::Done(RawNodeHandle::try_from_ptr(reply.pointer(), self.message))
    }
}

/// Sets the style of a detached node; the result is the style that libfyaml settled on.
pub struct SetStyle;

impl<'a> Session<'a> for SetStyle {
    type Output = NodeStyle;

    open spec fn resumed(self, reply: Reply) -> Step<'a, Self, Self::Output> {
        Step::Done(node_style(reply.status_spec()))
    }

    fn resume(self, reply: Reply) -> (next: Step<'a, Self, Self::Output>) {
        Step::Done(NodeStyle::from(reply.status()))
    }
}

/// Sets the tag of a detached node.
pub struct SetTag;

impl<'a> Session<'a> for SetTag {
    type Output = Result<(), Error>;

    open spec fn resumed(self, reply: Reply) -> Step<'a, Self, Self::Output> {
        Step::Done(
            if reply.status_spec() == 0 {
                Ok(())
            } else {
                Err(Error::Ffi("fy_node_set_tag failed"))
            },
        )
    }

    fn resume(self, reply: Reply) -> (next: Step<'a, Self, Self::Output>) {
        if reply.status() == 0 {
            Step::Done(Ok(()))
        } else {
            Step::Done(Err(Error::Ffi("fy_node_set_tag failed")))
        }
    }
}

} // verus!
