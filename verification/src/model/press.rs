//! A document that is emitted, and the emitters at work on it.

use vstd::prelude::*;
use vstd::utf8::valid_utf8;

use crate::call::{Call, Reply};
use crate::emitter::Extended;
use crate::model::world::World;

verus! {

/// The emitters that exist, with what each was made with; the pieces that libfyaml writes for a
/// document under given settings, nothing for one that it cannot emit; whether all that a document
/// holds is text: valid UTF-8 without zero characters; and the string that it writes for a node.
/// Whether memory may run out is said by `scarce`.
pub struct Press {
    pub emitters: Map<usize, (u32, Option<Extended>)>,
    pub prints: spec_fn(usize, u32, Option<Extended>) -> Option<Seq<(u32, Seq<u8>)>>,
    pub textual: spec_fn(usize) -> bool,
    pub excerpts: spec_fn(usize, u32) -> Option<Seq<u8>>,
    pub scarce: bool,
}

/// The pieces of an emission: the number and the bytes of each.
pub open spec fn seen(pieces: Seq<(u32, Vec<u8>)>) -> Seq<(u32, Seq<u8>)> {
    pieces.map_values(|piece: (u32, Vec<u8>)| (piece.0, piece.1@))
}

/// The bytes of the pieces, one piece after the other.
pub open spec fn joined(pieces: Seq<(u32, Seq<u8>)>) -> Seq<u8>
    decreases pieces.len(),
{
    if pieces.len() == 0 {
        Seq::empty()
    } else {
        pieces[0].1 + joined(pieces.drop_first())
    }
}

/// The bytes up to the first zero, which ends a C string.
pub open spec fn before_zero(bytes: Seq<u8>) -> Seq<u8>
    decreases bytes.len(),
{
    if bytes.len() == 0 || bytes[0] == 0 {
        Seq::empty()
    } else {
        seq![bytes[0]] + before_zero(bytes.drop_first())
    }
}

/// Without a zero, nothing is cut off.
pub proof fn lemma_before_zero(bytes: Seq<u8>)
    requires
        !bytes.contains(0),
    ensures
        before_zero(bytes) == bytes,
    decreases bytes.len(),
{
    if bytes.len() > 0 {
        assert(bytes.contains(bytes[0]));
        assert forall|i: int| 0 <= i < bytes.drop_first().len() implies bytes.drop_first()[i]
            != 0 by {
            assert(bytes.contains(bytes[i + 1]));
        }
        lemma_before_zero(bytes.drop_first());
        assert(seq![bytes[0]] + bytes.drop_first() =~= bytes);
    }
}

/// Whether pieces are text: each is valid UTF-8, and there is no zero byte among them.
pub open spec fn is_text(pieces: Seq<(u32, Seq<u8>)>) -> bool {
    &&& forall|i: int| 0 <= i < pieces.len() ==> valid_utf8((#[trigger] pieces[i]).1)
    &&& !joined(pieces).contains(0)
}

impl Press {
    /// What may be written for a document under given settings. Of a document that holds nothing but
    /// text libfyaml writes text, whole characters at a time.
    pub open spec fn writes(
        self,
        doc: usize,
        flags: u32,
        extended: Option<Extended>,
        pieces: Seq<(u32, Seq<u8>)>,
    ) -> bool {
        &&& (self.prints)(doc, flags, extended) == Some(pieces)
        &&& (self.textual)(doc) ==> is_text(pieces)
    }

    /// Whether the emitter that a call works with exists.
    pub open spec fn covers(self, call: Call) -> bool {
        match call {
            Call::EmitDocument { emitter, .. } | Call::EmitterDestroy { emitter } =>
                self.emitters.contains_key(emitter),
            _ => true,
        }
    }

    /// Whether `call` may answer `reply` and leave the emitters as in `after`.
    ///
    /// Emitting leaves the document as it was. A string holds what an emitter with the same flags
    /// would write, up to the first zero byte. Where memory is scarce, emitting may fail.
    pub open spec fn answers(self, call: Call, reply: Reply, after: Press) -> bool {
        match call {
            Call::EmitterCreate { flags, extended } => {
                let emitter = reply.pointer_spec();
                if emitter == 0 {
                    after == self && self.scarce
                } else {
                    !self.emitters.contains_key(emitter) && after == (Press {
                        emitters: self.emitters.insert(emitter, (flags, extended)),
                        ..self
                    })
                }
            },
            Call::EmitDocument { emitter, doc } => {
                let (flags, extended) = self.emitters[emitter];
                &&& after == self
                &&& !self.scarce ==> match reply.emitted_spec() {
                    Some(written) => self.writes(doc, flags, extended, seen(written@)),
                    None => (self.prints)(doc, flags, extended) is None,
                }
            },
            Call::EmitterDestroy { emitter } => after == (Press {
                emitters: self.emitters.remove(emitter),
                ..self
            }),
            Call::EmitDocumentToString { doc, flags } => {
                &&& after == self
                &&& !self.scarce ==> match (self.prints)(doc, flags, None) {
                    Some(pieces) => {
                        &&& self.writes(doc, flags, None, pieces)
                        &&& reply.text_spec() matches Some(bytes)
                        &&& bytes@ == before_zero(joined(pieces))
                    },
                    None => reply.text_spec() is None,
                }
            },
            Call::EmitNodeToString { node, flags } => {
                &&& after == self
                &&& !self.scarce ==> match (self.excerpts)(node, flags) {
                    Some(excerpt) => reply.text_spec() matches Some(bytes) && bytes@ == excerpt,
                    None => reply.text_spec() is None,
                }
            },
            _ => false,
        }
    }
}

impl World for Press {
    /// A call on an emitter that does not exist may do anything.
    open spec fn performs(self, call: Call, reply: Reply, after: Press) -> bool {
        self.covers(call) ==> self.answers(call, reply, after)
    }
}

} // verus!
