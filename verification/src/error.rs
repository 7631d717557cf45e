//! What can go wrong, as plain values that cross the library's boundary.

use vstd::prelude::*;
use vstd::string::*;

verus! {

/// The kinds of filesystem and process failures that the library tells apart.
#[derive(Clone, Copy, Debug, PartialEq, Eq, Structural)]
pub enum IoKind {
    NotFound,
    PermissionDenied,
    Other,
}

/// A failed filesystem or process operation, as its caller reports it.
#[derive(Clone, Debug, PartialEq, Eq)]
pub struct IoFailure {
    pub kind: IoKind,
    pub message: String,
}

/// What an `IoFailure` holds, as mathematical values.
pub struct IoFailureView {
    pub kind: IoKind,
    pub message: Seq<char>,
}

impl View for IoFailure {
    type V = IoFailureView;

    open spec fn view(&self) -> IoFailureView {
        IoFailureView { kind: self.kind, message: self.message@ }
    }
}

/// A parameter that could not be had from the event.
#[derive(Clone, Debug, PartialEq, Eq)]
pub enum EnvFailure {
    /// A required parameter is absent; the field's name.
    MissingValue(String),
    /// Any other failure to read a parameter, in words.
    Custom(String),
}

/// What an `EnvFailure` holds, as mathematical values.
pub enum EnvFailureView {
    MissingValue(Seq<char>),
    Custom(Seq<char>),
}

impl View for EnvFailure {
    type V = EnvFailureView;

    open spec fn view(&self) -> EnvFailureView {
        match self {
            EnvFailure::MissingValue(field) => EnvFailureView::MissingValue(field@),
            EnvFailure::Custom(text) => EnvFailureView::Custom(text@),
        }
    }
}

/// Any failure of one invocation.
#[derive(Clone, Debug, PartialEq, Eq)]
pub enum Error {
    /// A filesystem or process operation failed.
    Io(IoFailure),
    /// A parameter of the event is missing or malformed.
    Env(EnvFailure),
    /// Any other failure, in words: among them one that the agent reported.
    Anyhow(String),
}

/// What an `Error` holds, as mathematical values.
pub enum ErrorView {
    Io(IoFailureView),
    Env(EnvFailureView),
    Anyhow(Seq<char>),
}

impl View for Error {
    type V = ErrorView;

    open spec fn view(&self) -> ErrorView {
        match self {
            Error::Io(failure) => ErrorView::Io(failure@),
            Error::Env(failure) => ErrorView::Env(failure@),
            Error::Anyhow(text) => ErrorView::Anyhow(text@),
        }
    }
}

/// The words in which a failure is reported.
pub open spec fn message_of(e: ErrorView) -> Seq<char> {
    match e {
        ErrorView::Io(failure) => failure.message,
        ErrorView::Env(EnvFailureView::MissingValue(field)) => "missing value for field "@ + field,
        ErrorView::Env(EnvFailureView::Custom(text)) => text,
        ErrorView::Anyhow(text) => text,
    }
}

impl Error {
    /// The words in which this failure is reported: those of the failure it
    /// wraps, with nothing added.
    pub fn message(&self) -> (text: String)
        ensures
            text@ == message_of(self@),
    {
        match self {
            Error::Io(failure) => failure.message.clone(),
            Error::Env(EnvFailure::MissingValue(field)) => {
                let mut text = String::from_str("missing value for field ");
                text.append(field.as_str());
                text
            },
            Error::Env(EnvFailure::Custom(text)) => text.clone(),
            Error::Anyhow(text) => text.clone(),
        }
    }
}

} // verus!
