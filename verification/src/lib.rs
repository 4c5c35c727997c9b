//! YAML documents: parsing, reading, editing and emitting, with libfyaml doing the work.
//!
//! The library decides and libfyaml acts. Every operation is a [`Session`]: it asks for one
//! [`Call`] at a time, is handed the [`Reply`], and ends with its result. Whoever runs a session
//! makes the calls. What the sessions ask for, and in which order, is stated in their contracts;
//! what comes of it is stated in [`laws`], over the models of libfyaml in [`model`].

pub mod assemble;
pub mod call;
pub mod delete;
pub mod document;
pub mod editor;
pub mod emitter;
pub mod error;
pub mod find;
pub mod handle;
pub mod laws;
pub mod make;
pub mod model;
pub mod node;
pub mod node_ref;
pub mod parser;
pub mod path;
pub mod set_yaml;
pub mod snippet;
pub mod sort;
pub mod text;
pub mod write_type;

use vstd::prelude::*;

pub use crate::call::{Call, Reply, Session, Step};
pub use crate::document::{Document, InputOwnership};
pub use crate::editor::Editor;
pub use crate::emitter::{EmitEvent, EmitMode, Emitter, Toggle};
pub use crate::error::{Error, ParseError};
pub use crate::handle::RawNodeHandle;
pub use crate::node::{NodeStyle, NodeType};
pub use crate::node_ref::{MapIter, NodeRef, SeqIter, ValueRef};
pub use crate::parser::{DocumentIterator, FyParser};
pub use crate::write_type::WriteType;

use crate::node_ref::AskText;

verus! {

/// Asks for the version of libfyaml.
pub fn get_c_version<'a>() -> (r: Step<'a, AskText, Result<Vec<u8>, Error>>)
    ensures
        r == Step::<'a, AskText, Result<Vec<u8>, Error>>::Ask(
            AskText { message: "fy_library_version returned null" },
            Call::LibraryVersion,
        ),
{
    Step::Ask(AskText { message: "fy_library_version returned null" }, Call::LibraryVersion)
}

} // verus!
