//! The failures a job can end with.

use vstd::prelude::*;
use vstd::string::*;

verus! {

/// Why a job did not complete.
#[derive(Clone, Debug, PartialEq, Eq)]
pub enum Error {
    /// A statement against the video store or the job queue failed. The text
    /// is the store's own report, passed on unchanged.
    Store(String),
    /// Transcoding, archiving or a filesystem step failed.
    VideoProcessingError(String),
    /// The driver reported an outcome that the pending action cannot have.
    UnexpectedEvent,
}

/// An [`Error`] as a mathematical value.
pub enum ErrorView {
    Store(Seq<char>),
    VideoProcessingError(Seq<char>),
    UnexpectedEvent,
}

impl View for Error {
    type V = ErrorView;

    open spec fn view(&self) -> ErrorView {
        match self {
            Error::Store(text) => ErrorView::Store(text@),
            Error::VideoProcessingError(text) => ErrorView::VideoProcessingError(text@),
            Error::UnexpectedEvent => ErrorView::UnexpectedEvent,
        }
    }
}

/// The text that a failure is reported with.
pub open spec fn message_of(error: ErrorView) -> Seq<char> {
    match error {
        ErrorView::Store(text) => "store error: "@ + text,
        ErrorView::VideoProcessingError(text) => "video processing error: "@ + text,
        ErrorView::UnexpectedEvent => "unexpected event"@,
    }
}

impl Error {
    /// A second copy of the same failure.
    pub fn duplicate(&self) -> (copy: Error)
        ensures
            copy@ == self@,
    {
        match self {
            Error::Store(text) => Error::Store(text.clone()),
            Error::VideoProcessingError(text) => Error::VideoProcessingError(text.clone()),
            Error::UnexpectedEvent => Error::UnexpectedEvent,
        }
    }

    /// The failure as one line of text, for logs.
    pub fn message(&self) -> (text: String)
        ensures
            text@ == message_of(self@),
    {
        match self {
            Error::Store(detail) => String::from_str("store error: ").concat(detail.as_str()),
            Error::VideoProcessingError(detail) => String::from_str(
                "video processing error: ",
            ).concat(detail.as_str()),
            Error::UnexpectedEvent => String::from_str("unexpected event"),
        }
    }
}

/// The view of an optional failure.
pub open spec fn failure_view(failure: Option<Error>) -> Option<ErrorView> {
    match failure {
        Some(error) => Some(error@),
        None => None,
    }
}

/// The view of a job's outcome.
pub open spec fn outcome_view(outcome: Result<(), Error>) -> Result<(), ErrorView> {
    match outcome {
        Ok(()) => Ok(()),
        Err(error) => Err(error@),
    }
}

} // verus!
