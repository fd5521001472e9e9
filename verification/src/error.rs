//! Errors of the device library.

use vstd::prelude::*;
use crate::protocol::error::Error as CoreError;
use crate::text::string_of;

verus! {

#[verifier::external_type_specification]
#[verifier::external_body]
pub struct ExIoError(std::io::Error);

/// Result type of the library.
pub type Result<T> = core::result::Result<T, Error>;

/// Errors that the library reports.
#[derive(Debug)]
pub enum Error {
    /// IO errors (network and similar).
    Io(std::io::Error),
    /// Network connection errors.
    Connection(String),
    /// Protocol errors (invalid packet format, unexpected response, etc.).
    Protocol(String),
    /// Timeout errors.
    Timeout(String),
    /// Invalid parameter errors.
    InvalidParameter(String),
    /// Image processing errors.
    Image(String),
    /// Device not found or unavailable.
    Device(String),
}

/// The library error that a protocol-layer error becomes, described by its kind and text.
pub open spec fn from_core_spec(err: CoreError, e: Error) -> bool {
    match err {
        CoreError::Protocol(msg) => e matches Error::Protocol(s) && s@ == msg@,
        CoreError::InvalidParameter(msg) => e matches Error::InvalidParameter(s) && s@ == msg@,
        CoreError::BufferTooSmall => e matches Error::Protocol(s) && s@ == "Buffer too small"@,
    }
}

impl Error {
    /// The library error for a protocol-layer error; the text is kept, and a
    /// too-small buffer becomes a protocol error.
    pub fn from_core(err: CoreError) -> (e: Error)
        ensures
            from_core_spec(err, e),
    {
        match err {
            CoreError::Protocol(msg) => Error::Protocol(string_of(msg)),
            CoreError::InvalidParameter(msg) => Error::InvalidParameter(string_of(msg)),
            CoreError::BufferTooSmall => Error::Protocol(string_of("Buffer too small")),
        }
    }
}

impl From<CoreError> for Error {
    /// The library error for a protocol-layer error, as `Error::from_core` makes it.
    fn from(err: CoreError) -> (e: Self)
        ensures
            from_core_spec(err, e),
    {
        Error::from_core(err)
    }
}

/// What `from` gives is stated on `from` itself, by kind and text
/// (`from_core_spec`): errors with equal texts are not known to be equal
/// values, so no single value is named here.
impl vstd::std_specs::convert::FromSpecImpl<CoreError> for Error {
    open spec fn obeys_from_spec() -> bool {
        false
    }

    open spec fn from_spec(v: CoreError) -> Self {
        choose|e: Error| from_core_spec(v, e)
    }
}

} // verus!
