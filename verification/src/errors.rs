//! The failures a codec can report.

use vstd::prelude::*;

verus! {

/// Why a decode or an encode was abandoned.
#[derive(Clone, Copy, Debug, PartialEq, Eq, Structural)]
pub enum Error {
    /// The stream ended before a read or a seek could complete.
    UnexpectedEof,
    /// The identifier at the head of a model is none of the known ones.
    UnsupportedVersion,
    /// A text, a sequence or an offset does not fit the integer that the
    /// format reserves for it.
    TooLarge,
}

impl Error {
    /// A sentence naming the operation that failed.
    pub fn message(&self) -> (s: &'static str)
        ensures
            s@ == match *self {
                Error::UnexpectedEof => "unexpected end of stream"@,
                Error::UnsupportedVersion => "Unsupported ZMS version"@,
                Error::TooLarge => "value too large for its length field"@,
            },
    {
        match self {
            Error::UnexpectedEof => "unexpected end of stream",
            Error::UnsupportedVersion => "Unsupported ZMS version",
            Error::TooLarge => "value too large for its length field",
        }
    }
}

} // verus!
