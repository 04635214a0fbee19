//! What can go wrong while decoding.

use vstd::prelude::*;
use vstd::string::StringExecFns;

verus! {

/// Why a read failed. Every one of them ends the whole decode.
#[derive(Clone, Copy, PartialEq, Eq, Debug, Structural)]
pub enum DecodeError {
    /// The input ended before a fixed-width field, a skipped region or the
    /// payload of a text field was complete.
    TruncatedInput,
    /// The bytes of a plain text field are not valid UTF-8.
    InvalidEncoding,
    /// A record's identifier differs from its position in the file.
    OrderingViolation,
}

/// The part of the file in which a decode failed.
#[derive(Clone, Copy, PartialEq, Eq, Debug, Structural)]
pub enum Stage {
    /// The six-byte header.
    Header,
    /// The record at this position, counted from zero.
    Record(u32),
}

/// A failed decode: what went wrong, and where.
#[derive(Clone, Copy, PartialEq, Eq, Debug, Structural)]
pub struct Failure {
    pub stage: Stage,
    pub error: DecodeError,
}

impl DecodeError {
    /// The sentence that `message` returns for each error.
    pub open spec fn spec_message(self) -> Seq<char> {
        match self {
            DecodeError::TruncatedInput => "input ended before a field was complete"@,
            DecodeError::InvalidEncoding => "text field is not valid UTF-8"@,
            DecodeError::OrderingViolation => "items unordered: identifier differs from position"@,
        }
    }

    /// A sentence that names the validation that failed.
    pub fn message(&self) -> (text: String)
        ensures
            text@ == self.spec_message(),
    {
        match self {
            DecodeError::TruncatedInput => String::from_str(
                "input ended before a field was complete",
            ),
            DecodeError::InvalidEncoding => String::from_str("text field is not valid UTF-8"),
            DecodeError::OrderingViolation => String::from_str(
                "items unordered: identifier differs from position",
            ),
        }
    }
}

} // verus!
