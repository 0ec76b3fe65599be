use vstd::prelude::*;

verus! {

/// Failures of the bootloader message codec.
#[derive(Debug, Clone, Copy, PartialEq, Eq, Structural)]
pub enum BootloaderMessageError {
    /// An on-disk metadata value violated its bit range.
    PriorityOutOfRange,
    /// The stored CRC of the control record does not match its contents.
    CrcFailure,
    /// The buffer is shorter than the persisted message.
    InsufficientBytes,
    /// A field does not fit, or a NUL terminator is missing.
    DataTooLong,
}

} // verus!
