//! Failures that the client reports.

use vstd::prelude::*;

use crate::text::opt_text;

verus! {

/// The argument a malformed number was given for.
#[derive(Copy, Clone, Debug, PartialEq, Eq, Structural)]
pub enum ArgumentKey {
    /// A string of hex bytes.
    HexBytes,
    /// A number on the command line.
    Cli,
}

/// What went wrong.
#[derive(Copy, Clone, Debug, PartialEq, Eq, Structural)]
pub enum ErrorKind {
    /// An argument is missing or not usable.
    EmptyFilename,
    /// An address argument does not parse.
    QuotedContainsCrlf,
    /// No console answered in time.
    ConnectTimeout,
    /// Digits that are not hexadecimal, or too many of them.
    InvalidHexDigits(ArgumentKey),
    /// Digits that are not a decimal 32-bit number.
    InvalidDecimalU32(ArgumentKey),
}

/// A failure, with a note for the user where there is one.
#[derive(Debug)]
pub struct Failure {
    pub kind: ErrorKind,
    pub note: Option<String>,
}

impl Failure {
    /// The failure is of the given kind and carries the given note.
    pub open spec fn reports(self, kind: ErrorKind, note: Option<Seq<char>>) -> bool {
        self.kind == kind && opt_text(self.note) == note
    }

    /// A failure with a note.
    pub fn noted(kind: ErrorKind, note: String) -> (r: Failure)
        ensures
            r.reports(kind, Some(note@)),
    {
        Failure { kind, note: Some(note) }
    }

    /// A failure that needs no note.
    pub fn bare(kind: ErrorKind) -> (r: Failure)
        ensures
            r.reports(kind, None),
    {
        Failure { kind, note: None }
    }
}

} // verus!
