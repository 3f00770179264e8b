//! What can go wrong while a request is served, and the codes under which a
//! client hears of it.

use vstd::prelude::*;
use vstd::string::*;
use vstd::std_specs::convert::{FromSpec, FromSpecImpl};
use crate::mpegts::TsError;

verus! {

/// An error of `serde_json`, carried as it came.
#[verifier::external_type_specification]
#[verifier::external_body]
pub struct ExSerdeJsonError(serde_json::Error);

/// An error of `mp4`, carried as it came.
#[verifier::external_type_specification]
#[verifier::external_body]
pub struct ExMp4Error(mp4::Error);

/// Status that every failed request is answered with.
pub const BAD_REQUEST: u16 = 400;

/// A request that failed, and why.
#[derive(Debug)]
pub struct AppError(pub Box<ErrorKind>);

/// Where a failure came from, with the error of that origin.
#[derive(Debug)]
pub enum ErrorKind {
    SerdeJsonError(serde_json::Error),
    IoError(std::io::Error),
    Mp4Error(mp4::Error),
    TsError(TsError),
}

impl ErrorKind {
    /// The number that tells a client where a failure came from.
    pub open spec fn code(self) -> u16 {
        match self {
            ErrorKind::SerdeJsonError(_) => 40001,
            ErrorKind::IoError(_) => 40002,
            ErrorKind::Mp4Error(_) => 40003,
            ErrorKind::TsError(_) => 40004,
        }
    }
}

impl From<serde_json::Error> for ErrorKind {
    fn from(err: serde_json::Error) -> (r: ErrorKind) {
        ErrorKind::SerdeJsonError(err)
    }
}

impl FromSpecImpl<serde_json::Error> for ErrorKind {
    open spec fn obeys_from_spec() -> bool {
        true
    }

    open spec fn from_spec(err: serde_json::Error) -> ErrorKind {
        ErrorKind::SerdeJsonError(err)
    }
}

impl From<std::io::Error> for ErrorKind {
    fn from(err: std::io::Error) -> (r: ErrorKind) {
        ErrorKind::IoError(err)
    }
}

impl FromSpecImpl<std::io::Error> for ErrorKind {
    open spec fn obeys_from_spec() -> bool {
        true
    }

    open spec fn from_spec(err: std::io::Error) -> ErrorKind {
        ErrorKind::IoError(err)
    }
}

impl From<mp4::Error> for ErrorKind {
    fn from(err: mp4::Error) -> (r: ErrorKind) {
        ErrorKind::Mp4Error(err)
    }
}

impl FromSpecImpl<mp4::Error> for ErrorKind {
    open spec fn obeys_from_spec() -> bool {
        true
    }

    open spec fn from_spec(err: mp4::Error) -> ErrorKind {
        ErrorKind::Mp4Error(err)
    }
}

impl From<TsError> for ErrorKind {
    fn from(err: TsError) -> (r: ErrorKind) {
        ErrorKind::TsError(err)
    }
}

impl FromSpecImpl<TsError> for ErrorKind {
    open spec fn obeys_from_spec() -> bool {
        true
    }

    open spec fn from_spec(err: TsError) -> ErrorKind {
        ErrorKind::TsError(err)
    }
}

impl<E> From<E> for AppError where ErrorKind: From<E> {
    fn from(err: E) -> (r: AppError) {
        AppError(Box::new(ErrorKind::from(err)))
    }
}

impl<E> FromSpecImpl<E> for AppError where ErrorKind: From<E> {
    open spec fn obeys_from_spec() -> bool {
        <ErrorKind as FromSpec<E>>::obeys_from_spec()
    }

    open spec fn from_spec(err: E) -> AppError {
        AppError(Box::new(<ErrorKind as FromSpec<E>>::from_spec(err)))
    }
}

impl ErrorKind {
    /// Whether `text` says what went wrong: the name of the origin, and
    /// behind it the words of the error itself, as it displays them.
    pub open spec fn is_message(self, text: Seq<char>) -> bool {
        match self {
            ErrorKind::SerdeJsonError(e) => exists|inner: String|
                to_string_from_display_ensures::<serde_json::Error>(&e, inner) && text
                    == "SerdeJsonError: "@ + inner@,
            ErrorKind::IoError(e) => exists|inner: String|
                to_string_from_display_ensures::<std::io::Error>(&e, inner) && text == "IoError: "@
                    + inner@,
            ErrorKind::Mp4Error(e) => exists|inner: String|
                to_string_from_display_ensures::<mp4::Error>(&e, inner) && text == "Mp4Error: "@
                    + inner@,
            ErrorKind::TsError(e) => exists|inner: Seq<char>|
                e.is_message(inner) && text == "TsError: "@ + inner,
        }
    }

    /// What went wrong, in words.
    pub fn message(&self) -> (text: String)
        ensures
            self.is_message(text@),
    {
        match self {
            ErrorKind::SerdeJsonError(e) => {
                let mut text = String::from_str("SerdeJsonError: ");
                let inner = e.to_string();
                text.append(inner.as_str());
                text
            },
            ErrorKind::IoError(e) => {
                let mut text = String::from_str("IoError: ");
                let inner = e.to_string();
                text.append(inner.as_str());
                text
            },
            ErrorKind::Mp4Error(e) => {
                let mut text = String::from_str("Mp4Error: ");
                let inner = e.to_string();
                text.append(inner.as_str());
                text
            },
            ErrorKind::TsError(e) => {
                let mut text = String::from_str("TsError: ");
                let inner = e.message();
                text.append(inner.as_str());
                text
            },
        }
    }
}

/// Body of the answer to a failed request.
#[derive(Debug)]
pub struct ErrorCode {
    pub code: u16,
    pub message: String,
}

impl AppError {
    /// Status and sub-code of the answer to the client.
    pub fn get_codes(&self) -> (r: (u16, u16))
        ensures
            r == (BAD_REQUEST, self.0.code()),
    {
        match *self.0 {
            ErrorKind::SerdeJsonError(_) => (BAD_REQUEST, 40001),
            ErrorKind::IoError(_) => (BAD_REQUEST, 40002),
            ErrorKind::Mp4Error(_) => (BAD_REQUEST, 40003),
            ErrorKind::TsError(_) => (BAD_REQUEST, 40004),
        }
    }

    /// What went wrong, in words.
    pub fn message(&self) -> (text: String)
        ensures
            self.0.is_message(text@),
    {
        self.0.message()
    }

    /// The body of the answer to the client: the sub-code and the words.
    pub fn error_code(&self) -> (r: ErrorCode)
        ensures
            r.code == self.0.code(),
            self.0.is_message(r.message@),
    {
        let (_, code) = self.get_codes();
        let message = self.message();
        ErrorCode { code, message }
    }
}

} // verus!
