//! Errors that the library reports.

use vstd::prelude::*;

verus! {

/// A diagnostic that the YAML parser recorded, with the place it points at.
#[derive(Debug)]
pub struct ParseError {
    pub message: String,
    pub line: u32,
    pub column: u32,
}

/// Everything that can go wrong while loading, reading, editing or emitting a document.
#[derive(Debug)]
pub enum Error {
    /// A libfyaml call failed, or was handed something it cannot work on.
    Ffi(&'static str),
    /// The input could not be parsed, and no diagnostic says where.
    Parse(&'static str),
    /// The input could not be parsed; the diagnostic says where.
    ParseError(ParseError),
    /// An operation on the standard input stream failed.
    Io(&'static str),
    /// A node is not of the type that the operation needs.
    TypeMismatch { expected: &'static str, got: &'static str },
    /// A scalar or a tag claims more bytes than a slice can hold.
    ScalarTooLarge(usize),
    /// Bytes that should be text are not valid UTF-8.
    Utf8,
}

/// What a failed parse is reported as: the first diagnostic if one was recorded, the fallback
/// message otherwise.
pub open spec fn diagnosis(first: Option<ParseError>, fallback: &'static str) -> Error {
    match first {
        Some(e) => Error::ParseError(e),
        None => Error::Parse(fallback),
    }
}

/// Turns the first recorded diagnostic into an error, or falls back to a fixed message.
pub fn first_error_or(first: Option<ParseError>, fallback: &'static str) -> (e: Error)
    ensures
        e == diagnosis(first, fallback),
{
    match first {
        Some(e) => Error::ParseError(e),
        None => Error::Parse(fallback),
    }
}

} // verus!
