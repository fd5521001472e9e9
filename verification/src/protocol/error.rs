//! Errors of the protocol layer.

use vstd::prelude::*;
use crate::text::{string_of, concat};

verus! {

/// Result type of the protocol layer.
pub type Result<T> = core::result::Result<T, Error>;

/// Error kinds that the protocol layer reports.
#[derive(Debug, Clone, Copy, PartialEq, Eq)]
pub enum Error {
    /// Invalid packet format or unexpected content.
    Protocol(&'static str),
    /// A parameter that the operation cannot take.
    InvalidParameter(&'static str),
    /// A caller-provided buffer is too small.
    BufferTooSmall,
}

/// The text that describes an error.
pub open spec fn describe_spec(e: Error) -> Seq<char> {
    match e {
        Error::Protocol(msg) => "Protocol error: "@ + msg@,
        Error::InvalidParameter(msg) => "Invalid parameter: "@ + msg@,
        Error::BufferTooSmall => "Buffer too small"@,
    }
}

impl Error {
    /// A human-readable description of the error.
    pub fn describe(&self) -> (s: String)
        ensures
            s@ == describe_spec(*self),
    {
        match self {
            Error::Protocol(msg) => concat(string_of("Protocol error: "), msg),
            Error::InvalidParameter(msg) => concat(string_of("Invalid parameter: "), msg),
            Error::BufferTooSmall => string_of("Buffer too small"),
        }
    }
}

} // verus!
