//! The error taxonomy shared by every fallible operation of the model.

use vstd::prelude::*;
use vstd::string::*;
use crate::text::push_char;

verus! {

/// The ways in which a piece of text can be syntactically wrong.
#[derive(Debug, Clone, PartialEq, Eq)]
pub enum SyntaxErrorKind {
    InvalidCharacter(char),
    InvalidToken(String),
    InvalidNumber(String),
    InvalidString(String),
    InvalidDate(String),
    InvalidTime(String),
    InvalidDateTime(String),
    Error(String),
}

/// Every error the model can report.
#[derive(Debug, Clone, PartialEq, Eq)]
pub enum DicomError {
    InvalidTag(String),
    InvalidVR(String),
    InvalidValue(String),
    InvalidLength(String),
    InvalidFile(String),
    InvalidDataset(String),
    ObsoleteElement(String),
    SyntaxError(SyntaxErrorKind),
    IOError(String),
    Error(String),
}

pub type DicomResult<T> = Result<T, DicomError>;

impl SyntaxErrorKind {
    /// The human-readable message of this syntax error.
    pub open spec fn message(self) -> Seq<char> {
        match self {
            SyntaxErrorKind::InvalidCharacter(c) => "Invalid character: "@.push(c),
            SyntaxErrorKind::InvalidToken(s) => "Invalid token: "@ + s@,
            SyntaxErrorKind::InvalidNumber(s) => "Invalid number: "@ + s@,
            SyntaxErrorKind::InvalidString(s) => "Invalid string: "@ + s@,
            SyntaxErrorKind::InvalidDate(s) => "Invalid date: "@ + s@,
            SyntaxErrorKind::InvalidTime(s) => "Invalid time: "@ + s@,
            SyntaxErrorKind::InvalidDateTime(s) => "Invalid datetime: "@ + s@,
            SyntaxErrorKind::Error(s) => "Unknown syntax error: "@ + s@,
        }
    }

    /// Renders the message of this syntax error.
    pub fn to_string(&self) -> (res: String)
        ensures
            res@ == self.message(),
    {
        match self {
            SyntaxErrorKind::InvalidCharacter(c) => {
                let mut out = String::from_str("Invalid character: ");
                push_char(&mut out, *c);
                out
            },
            SyntaxErrorKind::InvalidToken(s) => String::from_str("Invalid token: ").concat(
                s.as_str(),
            ),
            SyntaxErrorKind::InvalidNumber(s) => String::from_str("Invalid number: ").concat(
                s.as_str(),
            ),
            SyntaxErrorKind::InvalidString(s) => String::from_str("Invalid string: ").concat(
                s.as_str(),
            ),
            SyntaxErrorKind::InvalidDate(s) => String::from_str("Invalid date: ").concat(
                s.as_str(),
            ),
            SyntaxErrorKind::InvalidTime(s) => String::from_str("Invalid time: ").concat(
                s.as_str(),
            ),
            SyntaxErrorKind::InvalidDateTime(s) => String::from_str("Invalid datetime: ").concat(
                s.as_str(),
            ),
            SyntaxErrorKind::Error(s) => String::from_str("Unknown syntax error: ").concat(
                s.as_str(),
            ),
        }
    }
}

impl DicomError {
    /// The human-readable message of this error.
    pub open spec fn message(self) -> Seq<char> {
        match self {
            DicomError::InvalidTag(s) => "Invalid tag: "@ + s@,
            DicomError::InvalidVR(s) => "Invalid value representation: "@ + s@,
            DicomError::InvalidValue(s) => "Invalid value: "@ + s@,
            DicomError::InvalidLength(s) => "Invalid length: "@ + s@,
            DicomError::InvalidFile(s) => "Invalid file: "@ + s@,
            DicomError::InvalidDataset(s) => "Invalid dataset: "@ + s@,
            DicomError::ObsoleteElement(s) => "Obsolete element: "@ + s@
                + ". Use a Force flag to allow legacy properties."@,
            DicomError::SyntaxError(kind) => "Syntax error: "@ + kind.message(),
            DicomError::IOError(s) => "IO error: "@ + s@,
            DicomError::Error(s) => "Unknown error: "@ + s@,
        }
    }

    /// Renders the message of this error.
    pub fn to_string(&self) -> (res: String)
        ensures
            res@ == self.message(),
    {
        match self {
            DicomError::InvalidTag(s) => String::from_str("Invalid tag: ").concat(s.as_str()),
            DicomError::InvalidVR(s) => String::from_str("Invalid value representation: ").concat(
                s.as_str(),
            ),
            DicomError::InvalidValue(s) => String::from_str("Invalid value: ").concat(s.as_str()),
            DicomError::InvalidLength(s) => String::from_str("Invalid length: ").concat(
                s.as_str(),
            ),
            DicomError::InvalidFile(s) => String::from_str("Invalid file: ").concat(s.as_str()),
            DicomError::InvalidDataset(s) => String::from_str("Invalid dataset: ").concat(
                s.as_str(),
            ),
            DicomError::ObsoleteElement(s) => String::from_str("Obsolete element: ").concat(
                s.as_str(),
            ).concat(". Use a Force flag to allow legacy properties."),
            DicomError::SyntaxError(kind) => {
                let inner = kind.to_string();
                String::from_str("Syntax error: ").concat(inner.as_str())
            },
            DicomError::IOError(s) => String::from_str("IO error: ").concat(s.as_str()),
            DicomError::Error(s) => String::from_str("Unknown error: ").concat(s.as_str()),
        }
    }
}

/// Turns an absent value into an error instead of a panic.
pub trait OptionExt<T>: Sized {
    /// The option this value stands for.
    spec fn as_option(self) -> Option<T>;

    /// `Ok` of the value held, or the error "Unwrapped empty value." where none is held.
    fn ok_or_err(self) -> (res: Result<T, DicomError>)
        ensures
            match self.as_option() {
                Some(v) => res == Ok::<T, DicomError>(v),
                None => res matches Err(DicomError::Error(m)) && m@ == "Unwrapped empty value."@,
            },
    ;
}

impl<T> OptionExt<T> for Option<T> {
    open spec fn as_option(self) -> Option<T> {
        self
    }

    fn ok_or_err(self) -> (res: Result<T, DicomError>) {
        match self {
            Some(v) => Ok(v),
            None => Err(DicomError::Error(String::from_str("Unwrapped empty value."))),
        }
    }
}

} // verus!
