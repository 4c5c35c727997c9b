//! Input on its way to becoming a document.

use vstd::prelude::*;
use vstd::utf8::encode_utf8;

use crate::call::{Call, Reply};
use crate::emitter::Extended;
use crate::model::heap::{look_alike, Cell, Heap};
use crate::model::press::Press;
use crate::model::world::World;

verus! {

/// The bytes that the asking session owns, those in buffers that were allocated, and those that each
/// document was built from; which bytes libfyaml accepts as YAML, the nodes and the root that it
/// makes of them, `0` for no root, and the pieces that it writes for them; and whether memory may run
/// out.
pub struct Reader {
    pub owned: Seq<u8>,
    pub buffers: Map<usize, Seq<u8>>,
    pub documents: Map<usize, Seq<u8>>,
    pub accepts: spec_fn(Seq<u8>) -> bool,
    pub trees: spec_fn(Seq<u8>) -> (Map<usize, Cell>, usize),
    pub layouts: spec_fn(Seq<u8>, u32, Option<Extended>) -> Option<Seq<(u32, Seq<u8>)>>,
    pub scarce: bool,
}

impl Reader {
    /// The same with one more buffer.
    pub open spec fn with_buffer(self, buffer: usize, bytes: Seq<u8>) -> Reader {
        Reader { buffers: self.buffers.insert(buffer, bytes), ..self }
    }

    /// The same without a buffer.
    pub open spec fn without_buffer(self, buffer: usize) -> Reader {
        Reader { buffers: self.buffers.remove(buffer), ..self }
    }

    /// The same with one more document.
    pub open spec fn with_document(self, doc: usize, bytes: Seq<u8>) -> Reader {
        Reader { documents: self.documents.insert(doc, bytes), ..self }
    }

    /// Whether building a document from `bytes` may give the one at `doc`, or none for null. Unless
    /// memory runs out there is one exactly for bytes that libfyaml accepts.
    pub open spec fn builds(self, bytes: Seq<u8>, doc: usize) -> bool {
        if doc == 0 {
            self.scarce || !(self.accepts)(bytes)
        } else {
            (self.accepts)(bytes) && !self.documents.contains_key(doc)
        }
    }

    /// Whether `h` holds the document at `doc` as it was parsed: its tree looks like the one that
    /// libfyaml makes of the bytes.
    pub open spec fn parsed_into(self, doc: usize, h: Heap) -> bool {
        let (nodes, root) = (self.trees)(self.documents[doc]);
        &&& self.documents.contains_key(doc)
        &&& h.root == 0 <==> root == 0
        &&& root != 0 ==> look_alike(nodes, root, h.nodes, h.root)
    }

    /// Whether the document at `doc` is emitted as it was parsed: libfyaml writes what it writes for
    /// the bytes.
    pub open spec fn printed_by(self, doc: usize, w: Press) -> bool {
        &&& self.documents.contains_key(doc)
        &&& forall|flags: u32, extended: Option<Extended>| #[trigger]
            (w.prints)(doc, flags, extended) == (self.layouts)(
                self.documents[doc],
                flags,
                extended,
            )
    }

    /// Whether libfyaml treats the same bytes alike in another reader.
    pub open spec fn agrees(self, other: Reader) -> bool {
        &&& self.accepts == other.accepts
        &&& self.trees == other.trees
        &&& self.layouts == other.layouts
    }

    /// Whether the buffer that a call works with exists.
    pub open spec fn covers(self, call: Call) -> bool {
        match call {
            Call::Free { buffer } | Call::DocumentBuildFromMallocString { buffer, .. } =>
                self.buffers.contains_key(buffer),
            _ => true,
        }
    }

    /// Whether `call` may answer `reply` and leave things as in `after`. A document takes over the
    /// buffer it is built from.
    pub open spec fn answers(self, call: Call, reply: Reply, after: Reader) -> bool {
        let p = reply.pointer_spec();
        match call {
            Call::MallocCopy { text } => match reply.buffer_spec() {
                Ok(buffer) => !self.buffers.contains_key(buffer) && after == self.with_buffer(
                    buffer,
                    encode_utf8(text@),
                ),
                Err(_) => self.scarce && after == self,
            },
            Call::Free { buffer } => after == self.without_buffer(buffer),
            Call::DiagCreate | Call::DiagTakeFirst { .. } | Call::DiagDestroy { .. } => after
                == self,
            Call::DocumentBuildFromMallocString { buffer, len, .. } => {
                let bytes = self.buffers[buffer].take(len as int);
                &&& self.builds(bytes, p)
                &&& after == if p == 0 {
                    self
                } else {
                    self.without_buffer(buffer).with_document(p, bytes)
                }
            },
            Call::DocumentBuildFromOwned { len, .. } => {
                let bytes = self.owned.take(len as int);
                &&& self.builds(bytes, p)
                &&& after == if p == 0 {
                    self
                } else {
                    self.with_document(p, bytes)
                }
            },
            _ => false,
        }
    }
}

impl World for Reader {
    /// A call on a buffer that does not exist may do anything.
    open spec fn performs(self, call: Call, reply: Reply, after: Reader) -> bool {
        self.covers(call) ==> self.answers(call, reply, after)
    }
}

} // verus!
