//! The error kinds of the library.

use vstd::prelude::*;
use vstd::std_specs::convert::FromSpecImpl;
use vstd::string::StringExecFns;

verus! {

#[verifier::external_type_specification]
#[verifier::external_body]
pub struct ExIoError(std::io::Error);

#[verifier::external_type_specification]
pub struct ExIoErrorKind(std::io::ErrorKind);

#[verifier::external_type_specification]
#[verifier::external_body]
pub struct ExSqliteError(rusqlite::Error);

/// What can go wrong while sending, receiving or storing a message.
#[derive(Debug)]
pub enum TolliverError {
    /// The protocol itself was violated; the text says how.
    TolliverError(String),
    /// The body is longer than the frame's length field can express.
    BodyTooLarge,
    /// The stream failed; the cause is carried unchanged.
    IOError(std::io::Error),
    /// The outbox failed; the cause is carried unchanged.
    SqliteError(rusqlite::Error),
}

impl From<std::io::Error> for TolliverError {
    fn from(value: std::io::Error) -> (ret: Self) {
        TolliverError::IOError(value)
    }
}

impl FromSpecImpl<std::io::Error> for TolliverError {
    open spec fn obeys_from_spec() -> bool {
        true
    }

    open spec fn from_spec(value: std::io::Error) -> Self {
        TolliverError::IOError(value)
    }
}

impl From<rusqlite::Error> for TolliverError {
    fn from(value: rusqlite::Error) -> (ret: Self) {
        TolliverError::SqliteError(value)
    }
}

impl FromSpecImpl<rusqlite::Error> for TolliverError {
    open spec fn obeys_from_spec() -> bool {
        true
    }

    open spec fn from_spec(value: rusqlite::Error) -> Self {
        TolliverError::SqliteError(value)
    }
}

/// The error that `std::io::Error::from` makes of a kind alone.
pub uninterp spec fn io_error_from_kind(kind: std::io::ErrorKind) -> std::io::Error;

/// `std::io::Error::from`: the error that std makes of a kind alone. Such an
/// error holds its kind and nothing else, so the kind decides what it is.
#[verifier::external_body]
pub(crate) fn io_error_of(kind: std::io::ErrorKind) -> (error: std::io::Error)
    ensures
        error == io_error_from_kind(kind),
{
    std::io::Error::from(kind)
}

/// The `Display` of `std::io::Error`: the text that the error shows for
/// itself. Nothing is claimed about it: it comes from the operating system.
#[verifier::external_body]
fn io_error_text(error: &std::io::Error) -> (text: String) {
    format!("{}", error)
}

/// The `Display` of `rusqlite::Error`: the text that the error shows for
/// itself. Nothing is claimed about it.
#[verifier::external_body]
fn sqlite_error_text(error: &rusqlite::Error) -> (text: String) {
    format!("{}", error)
}

impl TolliverError {
    /// What `message` says of a body that is too large.
    pub open spec fn body_too_large_text() -> Seq<char> {
        "Could not encode length into BodyLengthType, most likely object is too large"@
    }

    /// What `message` puts before the cause of a stream failure.
    pub open spec fn io_prefix() -> Seq<char> {
        "IO error: "@
    }

    /// What `message` puts before the cause of an outbox failure.
    pub open spec fn sqlite_prefix() -> Seq<char> {
        "SQLite error: "@
    }

    /// A description of the error for a person to read.
    pub fn message(&self) -> (text: String)
        ensures
            match *self {
                TolliverError::TolliverError(description) => text@ == description@,
                TolliverError::BodyTooLarge => text@ == Self::body_too_large_text(),
                TolliverError::IOError(_) => Self::io_prefix().is_prefix_of(text@),
                TolliverError::SqliteError(_) => Self::sqlite_prefix().is_prefix_of(text@),
            },
    {
        match self {
            TolliverError::TolliverError(description) => description.clone(),
            TolliverError::BodyTooLarge => String::from_str(
                "Could not encode length into BodyLengthType, most likely object is too large",
            ),
            TolliverError::IOError(cause) => {
                let cause_text = io_error_text(cause);
                let text = String::from_str("IO error: ").concat(cause_text.as_str());
                text
            },
            TolliverError::SqliteError(cause) => {
                let cause_text = sqlite_error_text(cause);
                let text = String::from_str("SQLite error: ").concat(cause_text.as_str());
                text
            },
        }
    }
}

} // verus!
