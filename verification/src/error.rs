//! The ways in which a document can be rejected.

use vstd::prelude::*;

verus! {

/// Why a document was rejected.
#[derive(Clone, Copy, Debug, PartialEq, Eq, Structural)]
pub enum ErrorKind {
    /// A node is not of the variant that its place asks for.
    InvalidShape,
    /// A mandatory key is absent.
    MissingField,
    /// A value lies outside its vocabulary.
    InvalidEnum,
    /// A port number is below zero.
    InvalidRange,
    /// A key inside a section names no kind of rule.
    UnknownSection,
}

/// A rejection: its kind, and the field or section at fault.
#[derive(Clone, Debug, PartialEq, Eq)]
pub struct Error {
    pub kind: ErrorKind,
    pub subject: String,
}

/// The mathematical content of an [`Error`].
pub struct Failure {
    pub kind: ErrorKind,
    pub subject: Seq<char>,
}

impl View for Error {
    type V = Failure;

    open spec fn view(&self) -> Failure {
        Failure { kind: self.kind, subject: self.subject@ }
    }
}

impl ErrorKind {
    /// The words that open the diagnostic of this kind.
    pub open spec fn label(self) -> Seq<char> {
        match self {
            ErrorKind::InvalidShape => "invalid shape"@,
            ErrorKind::MissingField => "missing field"@,
            ErrorKind::InvalidEnum => "invalid value"@,
            ErrorKind::InvalidRange => "out of range"@,
            ErrorKind::UnknownSection => "unknown section"@,
        }
    }

    /// The words that open the diagnostic of this kind.
    pub fn label_text(self) -> (r: &'static str)
        ensures
            r@ == self.label(),
    {
        match self {
            ErrorKind::InvalidShape => "invalid shape",
            ErrorKind::MissingField => "missing field",
            ErrorKind::InvalidEnum => "invalid value",
            ErrorKind::InvalidRange => "out of range",
            ErrorKind::UnknownSection => "unknown section",
        }
    }
}

impl Failure {
    /// The diagnostic: the kind's label, a colon, and the subject.
    pub open spec fn message(self) -> Seq<char> {
        self.kind.label() + ": "@ + self.subject
    }
}

/// What a result stands for: the content of its value, or of its error.
pub open spec fn outcome<T: DeepView>(result: Result<T, Error>) -> Result<T::V, Failure> {
    match result {
        Ok(value) => Ok(value.deep_view()),
        Err(error) => Err(error@),
    }
}

/// The failure of the given kind about the given subject.
pub open spec fn failure(kind: ErrorKind, subject: Seq<char>) -> Failure {
    Failure { kind, subject }
}

impl Error {
    /// The error of the given kind about the given subject.
    pub fn new(kind: ErrorKind, subject: &str) -> (r: Error)
        ensures
            r@ == failure(kind, subject@),
    {
        Error { kind, subject: String::from_str(subject) }
    }

    /// A line for a human reader that names the kind and the subject.
    pub fn message(&self) -> (r: String)
        ensures
            r@ == self@.message(),
    {
        let mut text = String::from_str(self.kind.label_text());
        text.append(": ");
        text.append(self.subject.as_str());
        text
    }
}

} // verus!
