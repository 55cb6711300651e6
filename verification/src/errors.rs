use vstd::prelude::*;

verus! {

/// A requested write exceeded the reported free space of a fixed-capacity
/// buffer. Always caller-preventable: check free space first. The rejected
/// write is never partially applied.
#[derive(Clone, Copy, Debug, PartialEq, Eq, Structural)]
pub struct OverflowError;

/// Why a unit-header probe at the reservoir front failed.
#[derive(Clone, Copy, Debug, PartialEq, Eq, Structural)]
pub enum ParseError {
    /// Fewer bytes than a unit header occupy the front.
    Truncated,
    /// The front does not begin with the synchronization marker.
    NotAligned,
    /// The marker is present but the header fields are invalid.
    InvalidHeader,
}

/// Why decoding the unit at the reservoir front failed. All of these are
/// recoverable: the driver loop retries or resynchronizes, it never aborts.
#[derive(Clone, Copy, Debug, PartialEq, Eq, Structural)]
pub enum DecodeError {
    /// The front does not hold a valid unit header.
    NotAligned,
    /// The unit names a format the decode step does not handle; it is
    /// never handed to the codec.
    Unsupported,
    /// The unit is longer than what the reservoir currently holds; accept
    /// more source data and retry.
    NeedMoreData,
    /// The decode step rejected the unit.
    CodecFailed,
}

} // verus!
