//! Error values shared by the library.
use vstd::prelude::*;

verus! {

/// A raw OS error number.
#[derive(Debug, Clone, Copy, PartialEq, Eq, Structural)]
pub struct ECode(pub i32);

impl ECode {
    pub fn from_raw_error(error: i32) -> (r: Self)
        ensures
            r.0 == error,
    {
        ECode(error)
    }
}

/// Errors of the platform services.
#[derive(Debug, Clone, Copy, PartialEq, Eq, Structural)]
pub enum CoreError {
    InvalidArgument,
    InputOutOfRange,
    NotImplemented,
    ErrorCode(ECode),
    /// A device-mapper or verity failure.
    DMError,
    /// No verity entry exists for a partition.
    DMPartition,
    Unknown,
}

/// The kind of a failure met at the boundary of the early-boot services; the
/// caller maps it onto its own I/O error type.
#[derive(Debug, Clone, Copy, PartialEq, Eq, Structural)]
pub enum ErrorKind {
    /// Persisted or received data is malformed.
    InvalidData,
    /// A caller-supplied argument is out of range.
    InvalidInput,
    /// A message did not come from the kernel.
    PermissionDenied,
    /// A required path or entry does not exist.
    NotFound,
}

} // verus!
