//! A stream of documents, and the parsers that read it.

use vstd::prelude::*;
use vstd::utf8::encode_utf8;

use crate::call::{Call, Reply};
use crate::model::heap::{whole_look, Heap, Look};
use crate::model::world::World;

verus! {

/// What a parser reads, nothing before it was given an input; how many documents it has handed out;
/// and whether it has come to the end.
pub struct Feed {
    pub bytes: Option<Seq<u8>>,
    pub at: nat,
    pub ended: bool,
}

/// A parser that stands at the beginning of its input.
pub open spec fn at_start(bytes: Seq<u8>) -> Feed {
    Feed { bytes: Some(bytes), at: 0, ended: false }
}

/// The bytes in buffers that were allocated, the parsers, and what the documents look like that they
/// handed out, nothing for one without a root. `input` is what the standard input holds.
///
/// What libfyaml makes of a stream of bytes is given by `pages`: what its documents look like, one
/// after the other, as far as it can read them; and by `breaks`: whether it reports an error after
/// them. Whether memory may run out is said by `scarce`.
pub struct Stream {
    pub buffers: Map<usize, Seq<u8>>,
    pub parsers: Map<usize, Feed>,
    pub documents: Map<usize, Option<spec_fn(nat) -> Look>>,
    pub input: Seq<u8>,
    pub pages: spec_fn(Seq<u8>) -> Seq<Option<spec_fn(nat) -> Look>>,
    pub breaks: spec_fn(Seq<u8>) -> bool,
    pub scarce: bool,
}

impl Stream {
    /// The same with one more buffer.
    pub open spec fn with_buffer(self, buffer: usize, bytes: Seq<u8>) -> Stream {
        Stream { buffers: self.buffers.insert(buffer, bytes), ..self }
    }

    /// The same without a buffer.
    pub open spec fn without_buffer(self, buffer: usize) -> Stream {
        Stream { buffers: self.buffers.remove(buffer), ..self }
    }

    /// The same with a parser in a given state.
    pub open spec fn with_parser(self, parser: usize, feed: Feed) -> Stream {
        Stream { parsers: self.parsers.insert(parser, feed), ..self }
    }

    /// The same without a parser.
    pub open spec fn without_parser(self, parser: usize) -> Stream {
        Stream { parsers: self.parsers.remove(parser), ..self }
    }

    /// The same with one more document.
    pub open spec fn with_document(
        self,
        doc: usize,
        page: Option<spec_fn(nat) -> Look>,
    ) -> Stream {
        Stream { documents: self.documents.insert(doc, page), ..self }
    }

    /// Whether the parser reads `bytes`.
    pub open spec fn reads(self, parser: usize, bytes: Seq<u8>) -> bool {
        self.parsers.contains_key(parser) && self.parsers[parser].bytes == Some(bytes)
    }

    /// Whether `h` holds the document at `doc` as it was read.
    pub open spec fn read_into(self, doc: usize, h: Heap) -> bool {
        &&& self.documents.contains_key(doc)
        &&& self.documents[doc] == if h.root == 0 {
            None
        } else {
            Some(whole_look(h.nodes, h.root))
        }
    }

    /// Whether what a call works with exists, and is ready for it.
    pub open spec fn covers(self, call: Call) -> bool {
        match call {
            Call::Free { buffer } => self.buffers.contains_key(buffer),
            Call::ParserSetMallocString { parser, buffer, .. } => self.buffers.contains_key(buffer)
                && self.parsers.contains_key(parser) && self.parsers[parser].bytes is None,
            Call::ParserSetInputFp { parser, .. } => self.parsers.contains_key(parser)
                && self.parsers[parser].bytes is None,
            Call::ParseLoadDocument { parser } | Call::ParserGetStreamError { parser } =>
                self.parsers.contains_key(parser) && self.parsers[parser].bytes is Some,
            Call::ParserDestroy { parser } => self.parsers.contains_key(parser),
            _ => true,
        }
    }

    /// Whether a parser may hand out the document at `doc`, or none for null.
    pub open spec fn loads(self, parser: usize, doc: usize, after: Stream) -> bool {
        let feed = self.parsers[parser];
        let pages = (self.pages)(feed.bytes->Some_0);
        if doc != 0 {
            &&& !feed.ended
            &&& feed.at < pages.len()
            &&& !self.documents.contains_key(doc)
            &&& after == self.with_document(doc, pages[feed.at as int]).with_parser(
                parser,
                Feed { at: feed.at + 1, ..feed },
            )
        } else {
            &&& self.scarce || feed.ended || feed.at >= pages.len()
            &&& after == self.with_parser(parser, Feed { ended: true, ..feed })
        }
    }

    /// Whether `call` may answer `reply` and leave things as in `after`. A parser takes over the
    /// buffer it is given. It hands out the documents of its input in their order, and then no more;
    /// whether there was an error is known then.
    pub open spec fn answers(self, call: Call, reply: Reply, after: Stream) -> bool {
        let p = reply.pointer_spec();
        match call {
            Call::MallocCopy { text } => match reply.buffer_spec() {
                Ok(buffer) => !self.buffers.contains_key(buffer) && after == self.with_buffer(
                    buffer,
                    encode_utf8(text@),
                ),
                Err(_) => self.scarce && after == self,
            },
            Call::Free { buffer } => after == self.without_buffer(buffer),
            Call::ParserCreate { .. } => if p == 0 {
                self.scarce && after == self
            } else {
                !self.parsers.contains_key(p) && after == self.with_parser(
                    p,
                    Feed { bytes: None, at: 0, ended: false },
                )
            },
            Call::ParserSetMallocString { parser, buffer, len } => if reply.status_spec() == 0 {
                after == self.without_buffer(buffer).with_parser(
                    parser,
                    at_start(self.buffers[buffer].take(len as int)),
                )
            } else {
                self.scarce && after == self
            },
            Call::ParserSetInputFp { parser, .. } => if reply.status_spec() == 0 {
                after == self.with_parser(parser, at_start(self.input))
            } else {
                after == self
            },
            Call::ParseLoadDocument { parser } => self.loads(parser, p, after),
            Call::ParserGetStreamError { parser } => {
                let feed = self.parsers[parser];
                &&& after == self
                &&& !self.scarce && feed.ended ==> reply.flag_spec() == (self.breaks)(
                    feed.bytes->Some_0,
                )
            },
            Call::ParserDestroy { parser } => after == self.without_parser(parser),
            Call::DiagCreate
            | Call::DiagPeekFirst { .. }
            | Call::DiagDestroy { .. }
            | Call::DupStdin
            | Call::FdOpen { .. }
            | Call::FdClose { .. }
            | Call::SetLineBuffered { .. }
            | Call::FileClose { .. } => after == self,
            _ => false,
        }
    }
}

impl World for Stream {
    /// A call on something that does not exist, or is not ready for it, may do anything.
    open spec fn performs(self, call: Call, reply: Reply, after: Stream) -> bool {
        self.covers(call) ==> self.answers(call, reply, after)
    }
}

} // verus!
