//! Aegis: a post-quantum secure chat session layer.
//!
//! The library holds the key schedule (HKDF, HMAC and keyed BLAKE3), the
//! symmetric double ratchet, the AEAD and KEM front ends, the framed wire
//! protocol, the replay guard and the session state machine. Transport,
//! terminal and argument handling live outside the library.
pub mod bytes;
pub mod clock;
pub mod crypto;
pub mod network;
pub mod security;
pub mod session;
pub mod storage;
pub mod ui;
