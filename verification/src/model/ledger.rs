//! A ledger of what has been acquired and not yet given back.

use vstd::prelude::*;

use crate::call::{Call, Reply};
use crate::model::world::World;

verus! {

/// Something that has to be given back.
pub enum Resource {
    Buffer(usize),
    Diag(usize),
    Document(usize),
    Parser(usize),
    Emitter(usize),
    Fd(i32),
    File(usize),
}

/// What is held at the moment.
#[verifier::ext_equal]
pub struct Ledger {
    pub held: Set<Resource>,
}

impl Ledger {
    /// Whether something is held.
    pub open spec fn has(self, r: Resource) -> bool {
        self.held.contains(r)
    }

    /// The ledger with one thing more.
    pub open spec fn with(self, r: Resource) -> Ledger {
        Ledger { held: self.held.insert(r) }
    }

    /// The ledger with one thing less.
    pub open spec fn without(self, r: Resource) -> Ledger {
        Ledger { held: self.held.remove(r) }
    }

    /// Whether `after` is this ledger with one thing more, which was not held before.
    pub open spec fn gains(self, r: Resource, after: Ledger) -> bool {
        !self.has(r) && after == self.with(r)
    }

    /// The ledger with a collector more, if there is one.
    pub open spec fn with_diag(self, diag: usize) -> Ledger {
        if diag == 0 {
            self
        } else {
            self.with(Resource::Diag(diag))
        }
    }

    /// Whether a collector, if there is one, is held.
    pub open spec fn holds_diag(self, diag: usize) -> bool {
        diag == 0 || self.has(Resource::Diag(diag))
    }

    /// Whether a collector, if there is one, is not held.
    pub open spec fn lacks_diag(self, diag: usize) -> bool {
        diag == 0 || !self.has(Resource::Diag(diag))
    }
}

impl Ledger {
    /// Whether everything that a call uses up or works with is held.
    pub open spec fn covers(self, call: Call) -> bool {
        match call {
            Call::Free { buffer } | Call::NodeBuildFromMallocString { buffer, .. } => self.has(
                Resource::Buffer(buffer),
            ),
            Call::DiagTakeFirst { diag } | Call::DiagPeekFirst { diag } | Call::DiagDestroy {
                diag,
            } => self.has(Resource::Diag(diag)),
            Call::DocumentBuildFromMallocString { diag, buffer, .. } => self.holds_diag(diag)
                && self.has(Resource::Buffer(buffer)),
            Call::DocumentBuildFromOwned { diag, .. } | Call::ParserCreate { diag } =>
                self.holds_diag(diag),
            Call::DocumentDestroy { doc } => self.has(Resource::Document(doc)),
            Call::ParseDocumentDestroy { parser, doc } => self.has(Resource::Document(doc))
                && self.has(Resource::Parser(parser)),
            Call::ParserDestroy { parser } | Call::ParseLoadDocument { parser }
            | Call::ParserGetStreamError { parser } => self.has(Resource::Parser(parser)),
            Call::ParserSetMallocString { parser, buffer, .. } => self.has(Resource::Parser(parser))
                && self.has(Resource::Buffer(buffer)),
            Call::ParserSetInputFp { parser, file } => self.has(Resource::Parser(parser))
                && self.has(Resource::File(file)),
            Call::FdOpen { fd } | Call::FdClose { fd } => self.has(Resource::Fd(fd)),
            Call::SetLineBuffered { file } | Call::FileClose { file } => self.has(
                Resource::File(file),
            ),
            Call::EmitDocument { emitter, .. } | Call::EmitterDestroy { emitter } => self.has(
                Resource::Emitter(emitter),
            ),
            _ => true,
        }
    }

    /// What a call acquires and gives back.
    ///
    /// A buffer that libfyaml accepts is libfyaml's to free; for a node built from a buffer that is
    /// so whether or not it parses. A stream that a parser accepts is closed with the parser. Nothing
    /// is handed out twice before it was given back.
    pub open spec fn settles(self, call: Call, reply: Reply, after: Self) -> bool {
        let p = reply.pointer_spec();
        match call {
            Call::MallocCopy { .. } => match reply.buffer_spec() {
                Ok(buffer) => self.gains(Resource::Buffer(buffer), after),
                Err(_) => after == self,
            },
            Call::Free { buffer } => after == self.without(Resource::Buffer(buffer)),
            Call::DiagCreate => if p == 0 {
                after == self
            } else {
                self.gains(Resource::Diag(p), after)
            },
            Call::DiagTakeFirst { diag } | Call::DiagDestroy { diag } => after == self.without(
                Resource::Diag(diag),
            ),
            Call::DocumentCreate | Call::DocumentBuildFromOwned { .. } | Call::ParseLoadDocument {
                ..
            } => if p == 0 {
                after == self
            } else {
                self.gains(Resource::Document(p), after)
            },
            Call::DocumentBuildFromMallocString { buffer, .. } => if p == 0 {
                after == self
            } else {
                self.without(Resource::Buffer(buffer)).gains(Resource::Document(p), after)
            },
            Call::DocumentDestroy { doc } | Call::ParseDocumentDestroy { doc, .. } => after
                == self.without(Resource::Document(doc)),
            Call::NodeBuildFromMallocString { buffer, .. } => after == self.without(
                Resource::Buffer(buffer),
            ),
            Call::ParserCreate { .. } => if p == 0 {
                after == self
            } else {
                self.gains(Resource::Parser(p), after)
            },
            Call::ParserDestroy { parser } => after == self.without(Resource::Parser(parser)),
            Call::ParserSetMallocString { buffer, .. } => after == if reply.status_spec() == 0 {
                self.without(Resource::Buffer(buffer))
            } else {
                self
            },
            Call::ParserSetInputFp { file, .. } => after == if reply.status_spec() == 0 {
                self.without(Resource::File(file))
            } else {
                self
            },
            Call::DupStdin => if reply.status_spec() < 0 {
                after == self
            } else {
                self.gains(Resource::Fd(reply.status_spec()), after)
            },
            Call::FdOpen { fd } => if p == 0 {
                after == self
            } else {
                self.without(Resource::Fd(fd)).gains(Resource::File(p), after)
            },
            Call::FdClose { fd } => after == self.without(Resource::Fd(fd)),
            Call::FileClose { file } => after == self.without(Resource::File(file)),
            Call::EmitterCreate { .. } => if p == 0 {
                after == self
            } else {
                self.gains(Resource::Emitter(p), after)
            },
            Call::EmitterDestroy { emitter } => after == self.without(Resource::Emitter(emitter)),
            _ => after == self,
        }
    }
}

impl World for Ledger {
    /// A call on something that is not held, such as a second free, may do anything.
    open spec fn performs(self, call: Call, reply: Reply, after: Self) -> bool {
        self.covers(call) ==> self.settles(call, reply, after)
    }
}

} // verus!
