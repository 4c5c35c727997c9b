//! Nodes that are not in a document tree yet.

use vstd::prelude::*;

use crate::call::Call;
use crate::error::Error;

verus! {

/// A freshly built node that has not been put into the document tree.
///
/// Whoever holds the handle owns the node until it is inserted. A handle that is given up without
/// having been inserted must have its node freed; [`release`](RawNodeHandle::release) says how.
#[derive(Debug)]
pub struct RawNodeHandle {
    /// Address of the node; never null.
    pub node: usize,
    /// Whether the document tree has taken the node over.
    pub inserted: bool,
}

impl RawNodeHandle {
    /// A handle points at a node.
    pub open spec fn valid(self) -> bool {
        self.node != 0
    }

    /// The detached handle for `node`, or the error `err` when `node` is null.
    pub open spec fn try_from_ptr_spec(node: usize, err: &'static str) -> Result<Self, Error> {
        if node == 0 {
            Err(Error::Ffi(err))
        } else {
            Ok(RawNodeHandle { node, inserted: false })
        }
    }

    /// Makes a detached handle, or fails with `err` when `node` is null.
    pub fn try_from_ptr(node: usize, err: &'static str) -> (r: Result<Self, Error>)
        ensures
            r == Self::try_from_ptr_spec(node, err),
            r matches Ok(h) ==> h.valid(),
    {
        if node == 0 {
            Err(Error::Ffi(err))
        } else {
            Ok(RawNodeHandle { node, inserted: false })
        }
    }

    /// Notes that the document tree has taken the node over.
    pub fn mark_inserted(&mut self)
        ensures
            *final(self) == (RawNodeHandle { node: old(self).node, inserted: true }),
    {
        self.inserted = true;
    }

    /// What is left to do for a handle that is given up.
    pub open spec fn release_spec<'a>(self) -> Option<Call<'a>> {
        if self.inserted {
            None
        } else {
            Some(Call::NodeFree { node: self.node })
        }
    }

    /// The call that frees the node of a handle that is given up; none once the tree owns it.
    pub fn release<'a>(&self) -> (r: Option<Call<'a>>)
        ensures
            r == self.release_spec(),
    {
        if self.inserted {
            None
        } else {
            Some(Call::NodeFree { node: self.node })
        }
    }
}

} // verus!
