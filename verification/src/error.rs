//! The error kinds of the session layer.

use vstd::prelude::*;

verus! {

/// What can go wrong on a connection or at the edge of the library.
#[derive(Clone, Copy, Debug, PartialEq, Eq, Structural)]
pub enum Error {
    /// No transport connection could be established or accepted.
    ConnectionError,
    /// The peer did not finish the negotiation in time.
    HandshakeTimeout,
    /// The bytes do not frame, or a text payload is no known metadata.
    MalformedFrame,
    /// The transport failed.
    IoError,
    /// The transport ended before a frame was complete.
    EndOfStream,
    /// The loop that would have taken the frame has already exited.
    ClosedChannel,
    /// The caller broke a documented precondition.
    PreconditionViolation,
}

} // verus!
