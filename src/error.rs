use vstd::prelude::*;

verus! {

/// Why an incoming lighting frame was dropped.
#[derive(Clone, Copy, Debug, PartialEq, Eq, Structural)]
pub enum PacketFault {
    /// The datagram size lies outside the accepted byte range.
    SizeOutOfRange,
    /// The header announces more property values than the datagram carries.
    Truncated,
}

/// Failures that the frame pipeline reports to its callers.
#[derive(Clone, Copy, Debug, PartialEq, Eq, Structural)]
pub enum LedError {
    /// An HSV component exceeds its bound.
    InvalidRange,
    /// A lighting frame failed its size or field-consistency checks.
    MalformedPacket(PacketFault),
    /// A control request body is larger than the accepted cap.
    PayloadTooLarge,
    /// A control request body did not match the expected schema.
    ParseError,
}

} // verus!
