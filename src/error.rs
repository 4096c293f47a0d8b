use vstd::prelude::*;

use crate::text::{chars_of, extend_chars, string_of};

verus! {

/// What went wrong.
#[derive(Clone, Copy, Debug, PartialEq, Eq, Structural)]
pub enum ErrorKind {
    /// A directory could not be read or entered while collecting files.
    DirectoryAccess,
    /// A file could not be opened, read or written.
    FileAccess,
    /// The pattern does not occur in the file.
    PatternNotFound,
    /// No file of a batch contains the pattern.
    NoMatchesInBatch,
}

/// An error with its kind, the path it concerns and, for access errors, the reason
/// that the system gave.
#[derive(Clone, Debug)]
pub struct FrrError {
    pub kind: ErrorKind,
    pub subject: String,
    pub reason: String,
}

/// The message shown for an error.
pub open spec fn message_of(kind: ErrorKind, subject: Seq<char>, reason: Seq<char>) -> Seq<char> {
    match kind {
        ErrorKind::DirectoryAccess => "Could not enter '"@ + subject + "': "@ + reason,
        ErrorKind::FileAccess => "Could not access file '"@ + subject + "': "@ + reason,
        ErrorKind::PatternNotFound => "Pattern not found in file '"@ + subject + "'"@,
        ErrorKind::NoMatchesInBatch => "Nothing found"@,
    }
}

impl FrrError {
    /// A directory that could not be read or entered.
    pub fn directory_access(path: &str, reason: &str) -> (r: FrrError)
        ensures
            r.kind == ErrorKind::DirectoryAccess,
            r.subject@ == path@,
            r.reason@ == reason@,
    {
        FrrError { kind: ErrorKind::DirectoryAccess, subject: path.to_owned(), reason: reason.to_owned() }
    }

    /// A file that could not be opened, read or written.
    pub fn file_access(path: &str, reason: &str) -> (r: FrrError)
        ensures
            r.kind == ErrorKind::FileAccess,
            r.subject@ == path@,
            r.reason@ == reason@,
    {
        FrrError { kind: ErrorKind::FileAccess, subject: path.to_owned(), reason: reason.to_owned() }
    }

    /// A file in which the pattern does not occur.
    pub fn pattern_not_found(path: &str) -> (r: FrrError)
        ensures
            r.kind == ErrorKind::PatternNotFound,
            r.subject@ == path@,
            r.reason@ == Seq::<char>::empty(),
    {
        FrrError { kind: ErrorKind::PatternNotFound, subject: path.to_owned(), reason: String::new() }
    }

    /// A batch in which no file contains the pattern.
    pub fn no_matches() -> (r: FrrError)
        ensures
            r.kind == ErrorKind::NoMatchesInBatch,
            r.subject@ == Seq::<char>::empty(),
            r.reason@ == Seq::<char>::empty(),
    {
        FrrError { kind: ErrorKind::NoMatchesInBatch, subject: String::new(), reason: String::new() }
    }

    /// The message to show, naming the file or directory concerned.
    pub fn message(&self) -> (r: String)
        ensures
            r@ == message_of(self.kind, self.subject@, self.reason@),
    {
        let mut out: Vec<char> = Vec::new();
        match self.kind {
            ErrorKind::DirectoryAccess => {
                extend_chars(&mut out, &chars_of("Could not enter '"));
                extend_chars(&mut out, &chars_of(self.subject.as_str()));
                extend_chars(&mut out, &chars_of("': "));
                extend_chars(&mut out, &chars_of(self.reason.as_str()));
            },
            ErrorKind::FileAccess => {
                extend_chars(&mut out, &chars_of("Could not access file '"));
                extend_chars(&mut out, &chars_of(self.subject.as_str()));
                extend_chars(&mut out, &chars_of("': "));
                extend_chars(&mut out, &chars_of(self.reason.as_str()));
            },
            ErrorKind::PatternNotFound => {
                extend_chars(&mut out, &chars_of("Pattern not found in file '"));
                extend_chars(&mut out, &chars_of(self.subject.as_str()));
                extend_chars(&mut out, &chars_of("'"));
            },
            ErrorKind::NoMatchesInBatch => {
                extend_chars(&mut out, &chars_of("Nothing found"));
            },
        }
        proof {
            assert(out@ =~= message_of(self.kind, self.subject@, self.reason@));
        }
        string_of(&out)
    }
}

} // verus!
