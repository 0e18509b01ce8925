//! Cryptographic building blocks of the session layer.
pub mod kdf;
pub mod kyber;
pub mod random;
pub mod ratchet;
pub mod symmetric;
pub mod timing;

pub use kyber::{Ciphertext, KeyPair, PublicKey, SharedSecret};
pub use ratchet::{RatchetError, RatchetState};
pub use symmetric::{decrypt, encrypt, EncryptedMessage, SymmetricKey};

use vstd::prelude::*;

verus! {

/// Errors of the cryptographic layer.
#[derive(Debug, Clone, PartialEq, Eq)]
pub enum CryptoError {
    /// Encryption could not be carried out.
    EncryptionError(String),
    /// Decryption could not be carried out.
    DecryptionError(String),
    /// Key exchange or key derivation failed.
    KeyExchangeError(String),
    /// Key material of the wrong length.
    InvalidKey,
    /// The AEAD tag did not verify.
    AuthenticationFailed,
    /// The operating system's random source failed.
    RandomError,
    /// The ratchet refused the request.
    RatchetError(RatchetError),
}

} // verus!
