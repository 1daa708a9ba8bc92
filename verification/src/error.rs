//! The closed set of failures that tag operations report.

use vstd::prelude::*;
use vstd::string::*;

verus! {

/// Everything that can go wrong while validating, reading or changing tags.
#[derive(Debug, Clone, PartialEq, Eq)]
pub enum Error {
    /// The tag name breaks one of the naming rules.
    InvalidRef { message: String },
    /// The version a new tag should point at is not part of the history.
    VersionNotFound { message: String },
    /// The dataset could not find a resource it needed for the lookup.
    NotFound { uri: String },
    /// A tag of that name exists already.
    RefConflict { message: String },
    /// No tag of that name exists.
    RefNotFound { message: String },
    /// The object store failed to carry out a request.
    IOError { message: String },
    /// A stored tag object is not UTF-8 JSON of the expected shape.
    ParseError { message: String },
}

/// The kind of an [`Error`], without its detail.
#[derive(Debug, Clone, Copy, PartialEq, Eq, Structural)]
pub enum ErrorKind {
    InvalidRef,
    VersionNotFound,
    NotFound,
    RefConflict,
    RefNotFound,
    IOError,
    ParseError,
}

impl ErrorKind {
    /// The fixed text that opens every message of this kind.
    pub open spec fn prefix(self) -> Seq<char> {
        match self {
            ErrorKind::InvalidRef => "Ref is invalid. Ref must confirm to git ref formatting rules. "@,
            ErrorKind::VersionNotFound => "Version not found error: "@,
            ErrorKind::NotFound => "Not found: "@,
            ErrorKind::RefConflict => "Ref conflict error: "@,
            ErrorKind::RefNotFound => "Ref not found error: "@,
            ErrorKind::IOError => "IO error: "@,
            ErrorKind::ParseError => "Parse error: "@,
        }
    }
}

/// An error as plain values: its kind and its detail.
pub struct Failure {
    pub kind: ErrorKind,
    pub detail: Seq<char>,
}

impl View for Error {
    type V = Failure;

    open spec fn view(&self) -> Failure {
        Failure { kind: self.spec_kind(), detail: self.detail() }
    }
}

impl Error {
    /// The kind of this error.
    pub open spec fn spec_kind(&self) -> ErrorKind {
        match self {
            Error::InvalidRef { .. } => ErrorKind::InvalidRef,
            Error::VersionNotFound { .. } => ErrorKind::VersionNotFound,
            Error::NotFound { .. } => ErrorKind::NotFound,
            Error::RefConflict { .. } => ErrorKind::RefConflict,
            Error::RefNotFound { .. } => ErrorKind::RefNotFound,
            Error::IOError { .. } => ErrorKind::IOError,
            Error::ParseError { .. } => ErrorKind::ParseError,
        }
    }

    /// The detail carried by this error: the broken rule or the resource.
    pub open spec fn detail(&self) -> Seq<char> {
        match self {
            Error::InvalidRef { message } => message@,
            Error::VersionNotFound { message } => message@,
            Error::NotFound { uri } => uri@,
            Error::RefConflict { message } => message@,
            Error::RefNotFound { message } => message@,
            Error::IOError { message } => message@,
            Error::ParseError { message } => message@,
        }
    }

    /// The full human-readable text: the kind's prefix followed by the detail.
    pub open spec fn text(&self) -> Seq<char> {
        self.spec_kind().prefix() + self.detail()
    }

    /// The kind of this error.
    #[verifier::when_used_as_spec(spec_kind)]
    pub fn kind(&self) -> (k: ErrorKind)
        ensures
            k == self.spec_kind(),
    {
        match self {
            Error::InvalidRef { .. } => ErrorKind::InvalidRef,
            Error::VersionNotFound { .. } => ErrorKind::VersionNotFound,
            Error::NotFound { .. } => ErrorKind::NotFound,
            Error::RefConflict { .. } => ErrorKind::RefConflict,
            Error::RefNotFound { .. } => ErrorKind::RefNotFound,
            Error::IOError { .. } => ErrorKind::IOError,
            Error::ParseError { .. } => ErrorKind::ParseError,
        }
    }

    /// Renders the error for a human reader.
    pub fn to_string(&self) -> (s: String)
        ensures
            s@ == self.text(),
    {
        match self {
            Error::InvalidRef { message } => String::from_str(
                "Ref is invalid. Ref must confirm to git ref formatting rules. ",
            ).concat(message.as_str()),
            Error::VersionNotFound { message } => String::from_str(
                "Version not found error: ",
            ).concat(message.as_str()),
            Error::NotFound { uri } => String::from_str("Not found: ").concat(uri.as_str()),
            Error::RefConflict { message } => String::from_str("Ref conflict error: ").concat(
                message.as_str(),
            ),
            Error::RefNotFound { message } => String::from_str("Ref not found error: ").concat(
                message.as_str(),
            ),
            Error::IOError { message } => String::from_str("IO error: ").concat(message.as_str()),
            Error::ParseError { message } => String::from_str("Parse error: ").concat(
                message.as_str(),
            ),
        }
    }
}

} // verus!
