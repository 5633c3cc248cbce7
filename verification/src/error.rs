//! The failure taxonomy of a parse: reading failed, a line in the header
//! region was not a header, or required header keys were missing.

use vstd::prelude::*;

verus! {

/// Why a parse failed. Every failure aborts the parse that raised it; the
/// caller decides whether to skip the file or give up.
#[derive(Debug)]
pub enum PostParseError {
    /// The underlying line stream could not be read; the payload describes
    /// the cause. Raised only by callers that read from fallible sources:
    /// parsing lines already in memory never produces it.
    IOError(String),
    /// The parsed document lacks required header keys; the payload lists
    /// them, comma-joined, in the order they were required.
    MissingHeaders(String),
    /// A line in the header region has no colon, or its key or value trims
    /// to empty; the payload is the offending line.
    NotAHeader(String),
}

impl PostParseError {
    /// A readable description of the failure: its kind, then its payload.
    pub fn message(&self) -> (r: String)
        ensures
            match self {
                PostParseError::IOError(e) => r@ == "IOError: "@ + e@,
                PostParseError::MissingHeaders(e) => r@ == "MissingHeaders: "@ + e@,
                PostParseError::NotAHeader(e) => r@ == "NotAHeader: "@ + e@,
            },
    {
        match self {
            PostParseError::IOError(e) => String::from_str("IOError: ").concat(e.as_str()),
            PostParseError::MissingHeaders(e) => String::from_str("MissingHeaders: ").concat(
                e.as_str(),
            ),
            PostParseError::NotAHeader(e) => String::from_str("NotAHeader: ").concat(e.as_str()),
        }
    }
}

} // verus!
