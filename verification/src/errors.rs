//! The ways a negotiation can fail.

use vstd::prelude::*;

verus! {

/// Every failure a negotiation attempt can end with. None of these is retried
/// within the same transport: each one terminates the current attempt.
#[derive(Clone, Copy, Debug, PartialEq, Eq, Structural)]
pub enum MultistreamSelectError {
    /// The framed transport or the raw connection reported a failure.
    TransportError,
    /// The first frame received was not exactly the multistream header.
    FailedHandshake,
    /// A received frame matched none of the message shapes expected in the
    /// current state; the connection is presumed desynchronized.
    UnknownMessage,
    /// The acceptor echoed a protocol name that differs from the one the
    /// dialer proposed.
    InvalidProtocolName,
}

} // verus!
