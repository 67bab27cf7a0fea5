//! The errors that end a command, each with the sentence shown for it.

use vstd::prelude::*;

verus! {

/// Why a command ended without its result.
#[derive(Debug, Clone, PartialEq, Eq)]
pub enum Error {
    /// Something that should not happen did.
    Internal(String),
    /// The request itself was wrong.
    Usage(String),
    /// A provider asked for authentication.
    AuthRequired(String),
    /// A provider could not be reached.
    RemoteUnavailable(String),
    /// The ledger could not be read or written.
    Store(String),
    /// The evidence does not support the result.
    InsufficientEvidence(String),
    /// Ingestion finished with files left over.
    IngestIncomplete(String),
    /// A policy bound was not met.
    ThresholdNotMet(String),
}

/// What an error says.
pub enum ErrorView {
    Internal(Seq<char>),
    Usage(Seq<char>),
    AuthRequired(Seq<char>),
    RemoteUnavailable(Seq<char>),
    Store(Seq<char>),
    InsufficientEvidence(Seq<char>),
    IngestIncomplete(Seq<char>),
    ThresholdNotMet(Seq<char>),
}

impl View for Error {
    type V = ErrorView;

    open spec fn view(&self) -> ErrorView {
        match *self {
            Error::Internal(message) => ErrorView::Internal(message@),
            Error::Usage(message) => ErrorView::Usage(message@),
            Error::AuthRequired(message) => ErrorView::AuthRequired(message@),
            Error::RemoteUnavailable(message) => ErrorView::RemoteUnavailable(message@),
            Error::Store(message) => ErrorView::Store(message@),
            Error::InsufficientEvidence(message) => ErrorView::InsufficientEvidence(message@),
            Error::IngestIncomplete(message) => ErrorView::IngestIncomplete(message@),
            Error::ThresholdNotMet(message) => ErrorView::ThresholdNotMet(message@),
        }
    }
}

impl ErrorView {
    /// The sentence shown for this error.
    pub open spec fn text(self) -> Seq<char> {
        match self {
            ErrorView::Internal(message) => message,
            ErrorView::Usage(message) => message,
            ErrorView::AuthRequired(message) => message,
            ErrorView::RemoteUnavailable(message) => message,
            ErrorView::Store(message) => message,
            ErrorView::InsufficientEvidence(message) => message,
            ErrorView::IngestIncomplete(message) => message,
            ErrorView::ThresholdNotMet(message) => message,
        }
    }
}

impl Error {
    /// The sentence shown for this error.
    pub fn message(&self) -> (message: &str)
        ensures
            message@ == self@.text(),
    {
        match self {
            Error::Internal(message) => message.as_str(),
            Error::Usage(message) => message.as_str(),
            Error::AuthRequired(message) => message.as_str(),
            Error::RemoteUnavailable(message) => message.as_str(),
            Error::Store(message) => message.as_str(),
            Error::InsufficientEvidence(message) => message.as_str(),
            Error::IngestIncomplete(message) => message.as_str(),
            Error::ThresholdNotMet(message) => message.as_str(),
        }
    }
}

} // verus!
