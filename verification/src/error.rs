//! The two ways a formatting request can fail.

use vstd::prelude::*;

verus! {

/// Why a formatting operation failed.
///
/// `InvalidFormat` reports a date literal that does not decompose into exactly
/// three integer components separated by hyphens. `OutOfRange` reports a
/// month outside 1-12 or a day outside 0-31 handed to a lookup.
#[derive(Clone, Copy, Debug, PartialEq, Eq, Structural)]
pub enum SpanError {
    InvalidFormat,
    OutOfRange,
}

/// The diagnostic text that belongs to each error.
pub open spec fn message_text(e: SpanError) -> Seq<char> {
    match e {
        SpanError::InvalidFormat => "Input values incorrectly formatted. Requires \"YYYY-MM-DD\" format."@,
        SpanError::OutOfRange => "Invalid input number"@,
    }
}

impl SpanError {
    /// A short description of the failure, naming the expected format for
    /// malformed input.
    pub fn message(&self) -> (r: &'static str)
        ensures
            r@ == message_text(*self),
    {
        match self {
            SpanError::InvalidFormat => "Input values incorrectly formatted. Requires \"YYYY-MM-DD\" format.",
            SpanError::OutOfRange => "Invalid input number",
        }
    }
}

} // verus!
