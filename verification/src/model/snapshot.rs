//! A document that is only read, together with the memory that its texts stand in.

use vstd::prelude::*;
use vstd::utf8::encode_utf8;

use crate::call::{Call, Reply};
use crate::model::heap::{Body, Heap};
use crate::model::world::World;

verus! {

/// The nodes of a document, and the bytes that stand at an address, so many of them. The texts that
/// tags were set from are still where they were: libfyaml does not copy them. An empty text may stand
/// nowhere: `scalars` and `tags` say of which nodes it stands somewhere.
pub struct Snapshot {
    pub heap: Heap,
    pub memory: spec_fn(usize, usize) -> Seq<u8>,
    pub scalars: spec_fn(usize) -> bool,
    pub tags: spec_fn(usize) -> bool,
}

impl Snapshot {
    /// The text of the node at `n`, if it is a scalar.
    pub open spec fn text(self, n: usize) -> Option<Seq<char>> {
        match self.heap.body(n) {
            Body::Scalar(text) => Some(text),
            _ => None,
        }
    }

    /// Whether a reply points at a text: at none when there is none; otherwise at its bytes, unless
    /// the text is empty and stands nowhere. Where memory is scarce, a text may not be handed out.
    pub open spec fn shows(self, text: Option<Seq<char>>, placed: bool, reply: Reply) -> bool {
        &&& reply matches Reply::Slice { address, len }
        &&& match text {
            None => address == 0,
            Some(t) => !self.heap.scarce ==> {
                &&& address != 0 <==> t.len() > 0 || placed
                &&& address != 0 ==> len == encode_utf8(t).len() && (self.memory)(address, len)
                    == encode_utf8(t)
            },
        }
    }
}

impl World for Snapshot {
    /// Only texts are asked for here, and nothing changes. A call on a node that is not there may do
    /// anything.
    open spec fn performs(self, call: Call, reply: Reply, after: Snapshot) -> bool {
        match call {
            Call::NodeGetScalar { node } => self.heap.has(node) ==> after == self && self.shows(
                self.text(node),
                (self.scalars)(node),
                reply,
            ),
            Call::NodeGetTag { node } => self.heap.has(node) ==> after == self && self.shows(
                self.heap.nodes[node].tag,
                (self.tags)(node),
                reply,
            ),
            _ => false,
        }
    }
}

} // verus!
