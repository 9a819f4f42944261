use vstd::prelude::*;

verus! {

/// Errors surfaced by the session logic.
#[derive(Clone, Copy, Debug, PartialEq, Eq, Structural)]
pub enum Error {
    /// An operation was attempted before the session was bootstrapped.
    NotBootstrapped,
    /// A connection to an elder could not be established.
    ElderConnection,
    /// Too few elders could be reached to proceed.
    InsufficientElderConnections,
    /// A query to an elder failed.
    ElderQuery,
    /// The reply channel of a query closed before a reply came.
    ReceivingQuery,
    /// A query could not be sent to an elder.
    SendingQuery,
    /// No reply reached the quorum rules before the elders ran out.
    NoResponse,
    /// No pending transfer validation is registered for the message.
    NoTransferValidationListener,
    /// A message arrived during bootstrap that the protocol does not allow there.
    UnexpectedMessageOnJoin,
    /// The network redirected the client more often than the bootstrap allows.
    TooManyRedirects,
}

} // verus!
