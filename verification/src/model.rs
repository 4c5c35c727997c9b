//! Ghost models of what libfyaml keeps, and of what its calls do to it.

pub mod heap;
pub mod lead;
pub mod ledger;
pub mod look;
pub mod order;
pub mod press;
pub mod rack;
pub mod reader;
pub mod record;
pub mod shape;
pub mod snapshot;
pub mod stream;
pub mod tree;
pub mod walk;
pub mod world;
