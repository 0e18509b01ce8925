//! Peer liveness rules.
use vstd::prelude::*;

verus! {

/// Seconds of silence after which a heartbeat is due.
pub const HEARTBEAT_INTERVAL_SECS: u64 = 30;

/// Seconds of silence after which a peer is considered gone.
pub const PEER_TIMEOUT_SECS: u64 = 90;

/// Lifecycle of a peer connection.
#[derive(Debug, Clone, Copy, PartialEq, Eq, Structural)]
pub enum PeerState {
    /// Key exchange in progress.
    Handshaking,
    /// Connected and ready.
    Connected,
    /// Disconnect under way.
    Disconnecting,
    /// Gone.
    Disconnected,
}

impl PeerState {
    /// Whether messages can flow.
    pub fn is_connected(self) -> (r: bool)
        ensures
            r == (self == PeerState::Connected),
    {
        self == PeerState::Connected
    }
}

/// Whether a peer silent for `elapsed_secs` has timed out.
pub fn peer_timed_out(elapsed_secs: u64) -> (r: bool)
    ensures
        r == (elapsed_secs > PEER_TIMEOUT_SECS),
{
    elapsed_secs > PEER_TIMEOUT_SECS
}

/// Whether a peer silent for `elapsed_secs` is owed a heartbeat.
pub fn heartbeat_due(elapsed_secs: u64) -> (r: bool)
    ensures
        r == (elapsed_secs >= HEARTBEAT_INTERVAL_SECS),
{
    elapsed_secs >= HEARTBEAT_INTERVAL_SECS
}

} // verus!
