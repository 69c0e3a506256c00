//! The errors that operations on things and events can fail with.

use vstd::prelude::*;
use vstd::string::StringExecFns;

verus! {

/// Why an operation failed.
#[derive(Debug)]
pub enum Error {
    /// A document that must hold at least one entry was empty.
    EmptyData,
    /// The kind supplied for a thing was the empty string.
    EmptyKind,
    /// The status supplied for a thing was the empty string.
    EmptyStatus,
    /// A creation input failed validation.
    InvalidInput,
    /// A mutation named a thing that the store does not hold.
    NotFound,
    /// The storage layer reported a fault; the text is its own description.
    Sql(String),
    /// A thing was written, but the event recording the change could not be
    /// appended. The thing's new state stays in place, so the log lacks one
    /// entry for the thing with this identifier.
    EventAppend { thing_id: u128, reason: String },
    /// A failure of no known kind.
    Unknown,
}

/// An error as a mathematical value: the texts it carries are sequences of
/// characters.
pub enum ErrorView {
    EmptyData,
    EmptyKind,
    EmptyStatus,
    InvalidInput,
    NotFound,
    Sql(Seq<char>),
    EventAppend { thing_id: u128, reason: Seq<char> },
    Unknown,
}

impl View for Error {
    type V = ErrorView;

    open spec fn view(&self) -> ErrorView {
        match self {
            Error::EmptyData => ErrorView::EmptyData,
            Error::EmptyKind => ErrorView::EmptyKind,
            Error::EmptyStatus => ErrorView::EmptyStatus,
            Error::InvalidInput => ErrorView::InvalidInput,
            Error::NotFound => ErrorView::NotFound,
            Error::Sql(reason) => ErrorView::Sql(reason@),
            Error::EventAppend { thing_id, reason } => ErrorView::EventAppend {
                thing_id: *thing_id,
                reason: reason@,
            },
            Error::Unknown => ErrorView::Unknown,
        }
    }
}

impl ErrorView {
    /// True for the errors that a caller can correct by supplying other input.
    pub open spec fn is_validation(self) -> bool {
        self is EmptyData || self is EmptyKind || self is EmptyStatus || self is InvalidInput
    }

    /// The text that describes the error to a reader.
    pub open spec fn message(self) -> Seq<char> {
        match self {
            ErrorView::EmptyData => "empty data"@,
            ErrorView::EmptyKind => "empty kind"@,
            ErrorView::EmptyStatus => "empty status"@,
            ErrorView::InvalidInput => "invalid input"@,
            ErrorView::NotFound => "not found"@,
            ErrorView::Sql(reason) => "sql error: "@ + reason,
            ErrorView::EventAppend { thing_id, reason } => "event append fault: "@ + reason,
            ErrorView::Unknown => "an unknown error occurred"@,
        }
    }
}

impl Error {
    /// Tells whether the caller can correct this error by supplying other
    /// input.
    pub fn is_validation_error(&self) -> (r: bool)
        ensures
            r == self@.is_validation(),
    {
        match self {
            Error::EmptyData | Error::EmptyKind | Error::EmptyStatus | Error::InvalidInput => true,
            _ => false,
        }
    }

    /// The text that describes the error to a reader.
    pub fn message(&self) -> (r: String)
        ensures
            r@ == self@.message(),
    {
        match self {
            Error::EmptyData => String::from_str("empty data"),
            Error::EmptyKind => String::from_str("empty kind"),
            Error::EmptyStatus => String::from_str("empty status"),
            Error::InvalidInput => String::from_str("invalid input"),
            Error::NotFound => String::from_str("not found"),
            Error::Sql(reason) => String::from_str("sql error: ").concat(reason.as_str()),
            Error::EventAppend { thing_id, reason } => String::from_str(
                "event append fault: ",
            ).concat(reason.as_str()),
            Error::Unknown => String::from_str("an unknown error occurred"),
        }
    }
}

impl Clone for Error {
    fn clone(&self) -> (r: Self)
        ensures
            r@ == self@,
    {
        match self {
            Error::EmptyData => Error::EmptyData,
            Error::EmptyKind => Error::EmptyKind,
            Error::EmptyStatus => Error::EmptyStatus,
            Error::InvalidInput => Error::InvalidInput,
            Error::NotFound => Error::NotFound,
            Error::Sql(reason) => Error::Sql(reason.clone()),
            Error::EventAppend { thing_id, reason } => Error::EventAppend {
                thing_id: *thing_id,
                reason: reason.clone(),
            },
            Error::Unknown => Error::Unknown,
        }
    }
}

} // verus!
