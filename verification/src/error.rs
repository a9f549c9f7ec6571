//! The errors a lookup can end in.

use vstd::prelude::*;

verus! {

/// Why a lookup failed.
#[derive(Clone, Copy, Debug, PartialEq, Eq, Structural)]
pub enum LookupError {
    /// The queried text is not a well-formed dotted-decimal IPv4 literal.
    InvalidAddress,
    /// The address falls in no range of the index table.
    NotFound,
    /// An access implied by the file's own offsets would leave the buffer,
    /// or a string has no terminator before the end of the buffer.
    CorruptData,
}

impl LookupError {
    /// A short human-readable description of the error.
    pub fn message(&self) -> (m: &'static str)
        ensures
            self is InvalidAddress ==> m@ == "invalid IPv4 address"@,
            self is NotFound ==> m@ == "address not found"@,
            self is CorruptData ==> m@ == "corrupt database"@,
    {
        match self {
            LookupError::InvalidAddress => "invalid IPv4 address",
            LookupError::NotFound => "address not found",
            LookupError::CorruptData => "corrupt database",
        }
    }
}

} // verus!
