//! The error type shared by every fallible function of the engine.

use vstd::prelude::*;

verus! {

/// Why an operation of the engine failed.
#[derive(Clone, Copy, Debug, PartialEq, Eq, Structural)]
pub enum ErrorKind {
    /// The pattern has no occurrence in the file.
    NoMatch,
    /// The file is the stream that the process writes its own output to.
    SameFileConflict,
    /// A path that has to be a file or a directory is neither, or is of the
    /// other sort.
    NotFoundOrWrongType,
    /// The file cannot be read or written as a text file.
    IoError,
    /// A failure reported by a lower layer, carried on as text.
    Underlying,
    /// The rollback marker at the head of a feature was applied like an
    /// ordinary operation.
    NeedsRollback,
}

/// An error of the engine: its kind, and a text for people.
#[derive(Debug)]
pub struct CustomError {
    pub kind: ErrorKind,
    pub message: String,
}

impl View for CustomError {
    type V = (ErrorKind, Seq<char>);

    open spec fn view(&self) -> (ErrorKind, Seq<char>) {
        (self.kind, self.message@)
    }
}

/// The text that goes with each kind when the engine itself raises it.
pub open spec fn kind_text(kind: ErrorKind) -> Seq<char> {
    match kind {
        ErrorKind::NoMatch => "regex not match!"@,
        ErrorKind::SameFileConflict => "reading and writing to the same file"@,
        ErrorKind::NotFoundOrWrongType => "path is not a directory or file of the expected sort"@,
        ErrorKind::IoError => "file cannot be read or written"@,
        ErrorKind::Underlying => "pattern is not a valid regular expression"@,
        ErrorKind::NeedsRollback => "needs to rollback before apply"@,
    }
}

/// The view of the error that the engine raises for `kind`.
pub open spec fn raised(kind: ErrorKind) -> (ErrorKind, Seq<char>) {
    (kind, kind_text(kind))
}

impl CustomError {
    /// Wraps the text of a failure from a lower layer.
    pub fn new(message: &str) -> (e: CustomError)
        ensures
            e@ == (ErrorKind::Underlying, message@),
    {
        CustomError { kind: ErrorKind::Underlying, message: message.to_owned() }
    }

    /// The error that the engine raises for `kind`.
    pub fn of_kind(kind: ErrorKind) -> (e: CustomError)
        ensures
            e@ == raised(kind),
    {
        let text = match kind {
            ErrorKind::NoMatch => "regex not match!",
            ErrorKind::SameFileConflict => "reading and writing to the same file",
            ErrorKind::NotFoundOrWrongType => "path is not a directory or file of the expected sort",
            ErrorKind::IoError => "file cannot be read or written",
            ErrorKind::Underlying => "pattern is not a valid regular expression",
            ErrorKind::NeedsRollback => "needs to rollback before apply",
        };
        CustomError { kind, message: text.to_owned() }
    }

    /// The text of the error.
    pub fn to_string(&self) -> (s: String)
        ensures
            s@ == self.message@,
    {
        self.message.clone()
    }
}

} // verus!
