//! What the sessions achieve on the models, whatever libfyaml answers.
//!
//! In the models a call on something that is not there, or not held, may do anything. So a law that
//! holds on a model also says that its session makes no such call: nothing is freed twice, and
//! nothing is used once it was freed.

pub mod asking;
pub mod assemble;
pub mod delete;
pub mod editing;
pub mod emit;
pub mod failure;
pub mod loading;
pub mod make;
pub mod notation;
pub mod numbers;
pub mod parse;
pub mod read;
pub mod resources;
pub mod set_yaml;
pub mod snippet;
pub mod sort;
pub mod stream;
pub mod text;
pub mod undo;
