//! How a session fails.

use vstd::prelude::*;
use vstd::std_specs::convert::FromSpecImpl;
use crate::parse::ParseError;

verus! {

/// `std::io::Error`, carried through as it comes from the transport.
#[verifier::external_type_specification]
#[verifier::external_body]
pub struct ExIoError(std::io::Error);

/// Why a session ended in failure. None of them can be recovered from.
#[derive(Debug)]
pub enum LpdError {
    /// The transport failed, or the stream ended inside a file.
    Io(std::io::Error),
    /// A line that the grammar does not accept.
    Parse(ParseError),
    /// The byte behind a file was not 0.
    BadAck,
}

/// The kind of an [`LpdError`]: all of it but the transport's own error.
#[derive(Debug, Clone, Copy, PartialEq, Eq, Structural)]
pub enum Failure {
    Transport,
    Grammar,
    Acknowledgement,
}

impl View for LpdError {
    type V = Failure;

    open spec fn view(&self) -> Failure {
        match *self {
            LpdError::Io(_) => Failure::Transport,
            LpdError::Parse(_) => Failure::Grammar,
            LpdError::BadAck => Failure::Acknowledgement,
        }
    }
}

impl From<std::io::Error> for LpdError {
    fn from(error: std::io::Error) -> (r: LpdError) {
        LpdError::Io(error)
    }
}

impl FromSpecImpl<std::io::Error> for LpdError {
    open spec fn obeys_from_spec() -> bool {
        true
    }

    open spec fn from_spec(error: std::io::Error) -> LpdError {
        LpdError::Io(error)
    }
}

impl From<ParseError> for LpdError {
    fn from(error: ParseError) -> (r: LpdError) {
        LpdError::Parse(error)
    }
}

impl FromSpecImpl<ParseError> for LpdError {
    open spec fn obeys_from_spec() -> bool {
        true
    }

    open spec fn from_spec(error: ParseError) -> LpdError {
        LpdError::Parse(error)
    }
}

/// `std::io::Error::from` on `std::io::ErrorKind::UnexpectedEof`: the error
/// that std's own `read_exact` gives when the stream ends early. Nothing is
/// claimed of the value.
#[verifier::external_body]
pub(crate) fn unexpected_eof() -> std::io::Error {
    std::io::Error::from(std::io::ErrorKind::UnexpectedEof)
}

} // verus!
