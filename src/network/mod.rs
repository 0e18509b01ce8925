//! Wire protocol and the errors of the network layer.
pub mod connection;
pub mod peer;
pub mod protocol;

use vstd::prelude::*;

verus! {

/// Errors of the network layer.
#[derive(Debug, Clone, PartialEq, Eq)]
pub enum NetworkError {
    /// The transport failed or the peer went away.
    ConnectionError(String),
    /// A message broke the protocol's rules.
    ProtocolError(String),
    /// A peer could not be found or managed.
    PeerError(String),
    /// The transport reported an I/O failure.
    IoError(String),
    /// A message could not be encoded or decoded.
    SerializationError(String),
    /// Fewer than four bytes are buffered: the length prefix is incomplete.
    InsufficientData,
    /// The length prefix is complete but the body is not.
    IncompleteFrame,
    /// A frame announces more than the maximum message size.
    MessageTooLarge,
    /// An AEAD tag did not verify; the session is over.
    AuthenticationFailed,
    /// The peer closed the session.
    ConnectionClosed,
    /// The operating system's random source failed.
    RandomError,
    /// A message is not acceptable here.
    InvalidMessage,
    /// The handshake did not finish in time.
    Timeout,
}

impl NetworkError {
    /// Whether the reader should buffer more bytes and retry.
    pub fn is_recoverable(&self) -> (r: bool)
        ensures
            r == (self is InsufficientData || self is IncompleteFrame),
    {
        match self {
            NetworkError::InsufficientData => true,
            NetworkError::IncompleteFrame => true,
            _ => false,
        }
    }
}

} // verus!
