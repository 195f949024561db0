use vstd::prelude::*;

verus! {

/// Failures that the coordination layer reports as data.
#[derive(Debug, Clone, Copy, PartialEq, Eq, Structural)]
pub enum GossipError {
    /// The relay registry could not be read or written.
    Storage,
    /// A connection, handshake, send or receive failed at a worker.
    Transport,
    /// The user declined to connect to a relay or to authenticate to it.
    PolicyDenied,
    /// A malformed URL or key was supplied.
    InvalidInput,
    /// The system clock could not be read.
    Clock,
}

} // verus!
