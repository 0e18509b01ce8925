//! Errors of the stream transport.
use vstd::prelude::*;

verus! {

/// Failures of the transport under a session.
#[derive(Debug, Clone, PartialEq, Eq)]
pub enum ConnectionError {
    /// The operating system reported an I/O error.
    Io(String),
    /// The TLS layer failed.
    Tls(String),
    /// The stream was closed.
    Closed,
    /// An operation did not finish in time.
    Timeout,
    /// The transport handshake failed.
    HandshakeFailed(String),
}

} // verus!
