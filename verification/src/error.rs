//! Errors surfaced to the callers of the descriptor-based calls.

use vstd::prelude::*;

verus! {

/// A caller-contract violation reported by a descriptor-based call.
#[derive(Clone, Copy, Debug, PartialEq, Eq, Structural)]
pub enum IoError {
    /// The buffer pointer is null or malformed.
    BadAddress,
    /// The descriptor does not support the operation.
    NotPermitted,
    /// The descriptor number is not known.
    BadDescriptor,
    /// An argument is out of range.
    InvalidArgument,
}

impl IoError {
    /// The words by which the error is known.
    pub open spec fn spec_description(self) -> Seq<char> {
        match self {
            IoError::BadAddress => "invalid address"@,
            IoError::NotPermitted => "operation not permitted"@,
            IoError::BadDescriptor => "bad descriptor"@,
            IoError::InvalidArgument => "invalid argument"@,
        }
    }

    /// The words by which the error is known.
    pub fn description(&self) -> (text: &'static str)
        ensures
            text@ == self.spec_description(),
    {
        match self {
            IoError::BadAddress => "invalid address",
            IoError::NotPermitted => "operation not permitted",
            IoError::BadDescriptor => "bad descriptor",
            IoError::InvalidArgument => "invalid argument",
        }
    }
}

} // verus!
