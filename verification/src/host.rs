//! How the failures of tag operations are shown to a host language.
//!
//! A binding layer has its own exceptions. It is told here, for each
//! operation, which failures are the caller's doing and which are the
//! store's, so that every binding draws the line in the same place.

use vstd::prelude::*;
use crate::error::{Error, ErrorKind};

verus! {

/// The tag operations that a host can call.
#[derive(Debug, Clone, Copy, PartialEq, Eq, Structural)]
pub enum Operation {
    List,
    Create,
    Delete,
}

/// The two kinds of exception that a host raises.
#[derive(Debug, Clone, Copy, PartialEq, Eq, Structural)]
pub enum HostErrorKind {
    /// The arguments of the call cannot be served: a value error.
    Value,
    /// Storage failed: an I/O error.
    Io,
}

/// A failure as the host raises it.
#[derive(Debug, Clone, PartialEq, Eq)]
pub struct HostError {
    pub kind: HostErrorKind,
    pub message: String,
}

/// The kind of exception that a failure of kind `kind` becomes when
/// `operation` reports it.
///
/// Every failure of a list is a value error. A create reports a missing
/// resource, a conflict and a missing version as value errors, a delete a
/// missing resource and a missing tag; whatever else they report is an I/O
/// error.
pub open spec fn host_kind(operation: Operation, kind: ErrorKind) -> HostErrorKind {
    match operation {
        Operation::List => HostErrorKind::Value,
        Operation::Create => match kind {
            ErrorKind::NotFound => HostErrorKind::Value,
            ErrorKind::RefConflict => HostErrorKind::Value,
            ErrorKind::VersionNotFound => HostErrorKind::Value,
            _ => HostErrorKind::Io,
        },
        Operation::Delete => match kind {
            ErrorKind::NotFound => HostErrorKind::Value,
            ErrorKind::RefNotFound => HostErrorKind::Value,
            _ => HostErrorKind::Io,
        },
    }
}

/// Turns a failure of `operation` into what the host raises: the kind of
/// exception, with the full text of the failure as its message.
pub fn host_error(operation: Operation, error: &Error) -> (raised: HostError)
    ensures
        raised.kind == host_kind(operation, error.spec_kind()),
        raised.message@ == error.text(),
{
    let kind = match operation {
        Operation::List => HostErrorKind::Value,
        Operation::Create => match error {
            Error::NotFound { .. } => HostErrorKind::Value,
            Error::RefConflict { .. } => HostErrorKind::Value,
            Error::VersionNotFound { .. } => HostErrorKind::Value,
            _ => HostErrorKind::Io,
        },
        Operation::Delete => match error {
            Error::NotFound { .. } => HostErrorKind::Value,
            Error::RefNotFound { .. } => HostErrorKind::Value,
            _ => HostErrorKind::Io,
        },
    };
    HostError { kind, message: error.to_string() }
}

} // verus!
