//! The error taxonomy shared by every component of the dispatch layer.

use vstd::prelude::*;
use vstd::string::*;

verus! {

/// Why a request could not be answered.
#[derive(Clone, Copy, Debug, PartialEq, Eq, Structural)]
pub enum ErrorKind {
    /// The language code is absent from the routing table.
    UnsupportedLanguage,
    /// The worker process is gone: its pipe closed or broke.
    WorkerUnavailable,
    /// The worker answered with a line that is not a well-formed payload.
    ProtocolViolation,
}

/// The error handed back to a caller of the dispatch layer.
#[derive(Debug)]
pub struct ApiError {
    pub kind: ErrorKind,
    pub message: String,
}

/// A response line that could not be decoded, with the reason.
#[derive(Debug)]
pub struct DecodeError {
    /// The line exactly as it was read from the worker.
    pub raw_line: String,
    /// A description of what was wrong with it.
    pub cause: String,
}

/// Message of an `UnsupportedLanguage` error.
pub const UNSUPPORTED_MESSAGE: &'static str = "No grammar checker available for that language";

/// Message of a `WorkerUnavailable` error.
pub const UNAVAILABLE_MESSAGE: &'static str = "Something failed in the message delivery process";

/// The text of [`UNSUPPORTED_MESSAGE`].
pub open spec fn unsupported_message() -> Seq<char> {
    UNSUPPORTED_MESSAGE@
}

/// The text of [`UNAVAILABLE_MESSAGE`].
pub open spec fn unavailable_message() -> Seq<char> {
    UNAVAILABLE_MESSAGE@
}

/// Message of a `ProtocolViolation` error: the cause, then the raw line in
/// single quotes.
pub open spec fn violation_message(cause: Seq<char>, raw_line: Seq<char>) -> Seq<char> {
    "error: "@ + cause + ", line: '"@ + raw_line + "'"@
}

impl ApiError {
    /// The error for a language that no worker serves.
    pub fn unsupported_language() -> (e: ApiError)
        ensures
            e.kind == ErrorKind::UnsupportedLanguage,
            e.message@ == unsupported_message(),
    {
        ApiError {
            kind: ErrorKind::UnsupportedLanguage,
            message: String::from_str(UNSUPPORTED_MESSAGE),
        }
    }

    /// The error for a request whose worker has died.
    pub fn worker_unavailable() -> (e: ApiError)
        ensures
            e.kind == ErrorKind::WorkerUnavailable,
            e.message@ == unavailable_message(),
    {
        ApiError {
            kind: ErrorKind::WorkerUnavailable,
            message: String::from_str(UNAVAILABLE_MESSAGE),
        }
    }

    /// The error for an undecodable response line. Both the cause and the raw
    /// line end up in the message, so neither is lost.
    pub fn protocol_violation(error: &DecodeError) -> (e: ApiError)
        ensures
            e.kind == ErrorKind::ProtocolViolation,
            e.message@ == violation_message(error.cause@, error.raw_line@),
    {
        let mut message = String::from_str("error: ");
        message.append(error.cause.as_str());
        message.append(", line: '");
        message.append(error.raw_line.as_str());
        message.append("'");
        ApiError { kind: ErrorKind::ProtocolViolation, message }
    }

    /// The message, for display.
    pub fn to_string(&self) -> (s: String)
        ensures
            s@ == self.message@,
    {
        self.message.clone()
    }
}

} // verus!
