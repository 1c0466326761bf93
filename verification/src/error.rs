use vstd::prelude::*;

verus! {

/// The reportable failure conditions of the stack, kept distinct so that a
/// caller can tell a contract violation (an unknown handle, a missing
/// endpoint, an unsupported socket kind) from a configuration error at
/// finalize time and from an engine-reported connection failure.
#[derive(Clone, Copy, PartialEq, Eq, Structural, Debug)]
pub enum StackError {
    /// No socket is registered under the given handle.
    HandleNotFound,
    /// The engine refused the connection request.
    ConnectFailed,
    /// The operation is only defined for a different socket kind.
    WrongSocketType,
    /// The socket kind is reserved and not implemented.
    UnsupportedSocketKind,
    /// Pumping this socket kind is not implemented.
    NotImplemented,
    /// A connectionless send needs a destination endpoint.
    EndpointRequired,
    /// Nothing is waiting in the queue.
    NoData,
    /// Finalize needs at least one local address.
    MissingLocalAddress,
    /// Finalize needs a default gateway for at least one address family.
    MissingGateway,
    /// Finalize already succeeded; it is one-shot.
    AlreadyFinalized,
}

} // verus!
