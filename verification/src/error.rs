//! The two ways in which an operation on the registry's files fails.

use vstd::prelude::*;
use vstd::string::StringExecFns;

verus! {

/// Which of an operation's files a request or a failure is about.
#[derive(Debug, Clone, Copy, PartialEq, Eq)]
pub enum Operand {
    /// The one file of an operation on a single path.
    Only,
    /// The first file of a comparison.
    Left,
    /// The second file of a comparison.
    Right,
}

/// Why an operation ended without a result.
#[derive(Debug, PartialEq, Eq)]
pub enum Error {
    /// The path has no live handle in the registry.
    NotOpen(Operand),
    /// Opening, seeking or reading failed; the text is the system's reason.
    Io(String),
}

impl Error {
    /// The text of the message that `message` builds.
    pub open spec fn text(self) -> Seq<char> {
        match self {
            Error::NotOpen(Operand::Only) => "File handle not found"@,
            Error::NotOpen(Operand::Left) => "Left file handle not found"@,
            Error::NotOpen(Operand::Right) => "Right file handle not found"@,
            Error::Io(reason) => reason@,
        }
    }

    /// The failure as the plain message that callers are shown: a fixed
    /// sentence for a missing handle, the system's own words otherwise.
    pub fn message(&self) -> (msg: String)
        ensures
            msg@ == self.text(),
    {
        match self {
            Error::NotOpen(Operand::Only) => String::from_str("File handle not found"),
            Error::NotOpen(Operand::Left) => String::from_str("Left file handle not found"),
            Error::NotOpen(Operand::Right) => String::from_str("Right file handle not found"),
            Error::Io(reason) => reason.clone(),
        }
    }
}

} // verus!
