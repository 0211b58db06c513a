//! The errors that the fabric reports.

use crate::text::join;
use vstd::prelude::*;

verus! {

/// An error of the fabric. Each variant carries the detail that its message
/// shows.
#[derive(Debug)]
pub enum WindError {
    /// A socket or stream failed.
    Io(String),
    /// A frame could not be decoded.
    Serialization(String),
    /// Discovery found no service of that name.
    ServiceNotFound(String),
    /// A value has another shape than the one asked for.
    TypeMismatch { expected: String, actual: String },
    /// The reconnect budget is used up.
    Connection(String),
    /// The registry refused a request.
    Registry(String),
    /// A message of another kind than the one required arrived.
    Protocol(String),
    /// A required field is missing, or a schema is unknown.
    Schema(String),
    /// A deadline passed.
    Timeout(String),
}

/// The model of a [`WindError`].
pub enum ErrorView {
    Io(Seq<char>),
    Serialization(Seq<char>),
    ServiceNotFound(Seq<char>),
    TypeMismatch { expected: Seq<char>, actual: Seq<char> },
    Connection(Seq<char>),
    Registry(Seq<char>),
    Protocol(Seq<char>),
    Schema(Seq<char>),
    Timeout(Seq<char>),
}

impl View for WindError {
    type V = ErrorView;

    open spec fn view(&self) -> ErrorView {
        match self {
            WindError::Io(s) => ErrorView::Io(s@),
            WindError::Serialization(s) => ErrorView::Serialization(s@),
            WindError::ServiceNotFound(s) => ErrorView::ServiceNotFound(s@),
            WindError::TypeMismatch { expected, actual } => ErrorView::TypeMismatch {
                expected: expected@,
                actual: actual@,
            },
            WindError::Connection(s) => ErrorView::Connection(s@),
            WindError::Registry(s) => ErrorView::Registry(s@),
            WindError::Protocol(s) => ErrorView::Protocol(s@),
            WindError::Schema(s) => ErrorView::Schema(s@),
            WindError::Timeout(s) => ErrorView::Timeout(s@),
        }
    }
}

/// The message that an error shows: a fixed prefix for its kind, then its
/// detail.
pub open spec fn message_of(e: ErrorView) -> Seq<char> {
    match e {
        ErrorView::Io(s) => "IO error: "@ + s,
        ErrorView::Serialization(s) => "Serialization error: "@ + s,
        ErrorView::ServiceNotFound(s) => "Service not found: "@ + s,
        ErrorView::TypeMismatch { expected, actual } => "Type mismatch: expected "@ + expected
            + ", got "@ + actual,
        ErrorView::Connection(s) => "Connection error: "@ + s,
        ErrorView::Registry(s) => "Registry error: "@ + s,
        ErrorView::Protocol(s) => "Protocol error: "@ + s,
        ErrorView::Schema(s) => "Schema error: "@ + s,
        ErrorView::Timeout(s) => "Timeout: "@ + s,
    }
}

impl WindError {
    /// The text of the error, as it is shown to a user and sent to a peer.
    pub fn message(&self) -> (r: String)
        ensures
            r@ == message_of(self@),
    {
        match self {
            WindError::Io(s) => join("IO error: ", s.as_str()),
            WindError::Serialization(s) => join("Serialization error: ", s.as_str()),
            WindError::ServiceNotFound(s) => join("Service not found: ", s.as_str()),
            WindError::TypeMismatch { expected, actual } => {
                let head = join("Type mismatch: expected ", expected.as_str());
                let mid = join(head.as_str(), ", got ");
                join(mid.as_str(), actual.as_str())
            },
            WindError::Connection(s) => join("Connection error: ", s.as_str()),
            WindError::Registry(s) => join("Registry error: ", s.as_str()),
            WindError::Protocol(s) => join("Protocol error: ", s.as_str()),
            WindError::Schema(s) => join("Schema error: ", s.as_str()),
            WindError::Timeout(s) => join("Timeout: ", s.as_str()),
        }
    }
}

} // verus!
