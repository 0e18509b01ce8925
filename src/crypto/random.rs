//! Randomness from the operating system.
use vstd::prelude::*;
use rand::rngs::OsRng;
use rand::{Rng, RngCore};
use super::CryptoError;
use crate::bytes::{to_array24, to_array32};

verus! {

/// Relies on `rand::rngs::OsRng::try_fill_bytes`: fills the buffer from the
/// operating system's generator, or reports that the generator failed.
/// Nothing is promised of the bytes.
#[verifier::external_body]
fn os_random_bytes(length: usize) -> (r: Option<Vec<u8>>)
    ensures
        r matches Some(v) ==> v@.len() == length,
{
    let mut buffer = vec![0u8; length];
    match OsRng.try_fill_bytes(&mut buffer) {
        Ok(()) => Some(buffer),
        Err(_) => None,
    }
}

/// Relies on `rand::rngs::OsRng::try_fill_bytes` on a caller's buffer: the
/// length is kept; whether the generator failed is reported.
#[verifier::external_body]
fn os_fill(dest: &mut [u8]) -> (ok: bool)
    ensures
        final(dest)@.len() == old(dest)@.len(),
{
    OsRng.try_fill_bytes(dest).is_ok()
}

/// Relies on `rand::Rng::gen_range` on the thread-local generator: a value
/// in `[low, high]` (an empty range would panic, so `low <= high` is required).
#[verifier::external_body]
pub(crate) fn random_in_range(low: usize, high: usize) -> (r: usize)
    requires
        low <= high,
    ensures
        low <= r <= high,
{
    rand::thread_rng().gen_range(low..=high)
}

/// Relies on `rand::Rng::fill` on the thread-local generator: `length`
/// random bytes. Nothing is promised of the bytes.
#[verifier::external_body]
pub(crate) fn thread_random_bytes(length: usize) -> (r: Vec<u8>)
    ensures
        r@.len() == length,
{
    let mut padding = vec![0u8; length];
    rand::thread_rng().fill(&mut padding[..]);
    padding
}

/// `length` random bytes; `RandomError` when the operating system's
/// generator fails.
pub fn secure_random_bytes(length: usize) -> (r: Result<Vec<u8>, CryptoError>)
    ensures
        r matches Ok(v) ==> v@.len() == length,
        r matches Err(e) ==> e == CryptoError::RandomError,
{
    match os_random_bytes(length) {
        Some(v) => Ok(v),
        None => Err(CryptoError::RandomError),
    }
}

/// A random 256-bit key.
pub fn generate_key() -> (r: Result<[u8; 32], CryptoError>)
    ensures
        r matches Err(e) ==> e == CryptoError::RandomError,
{
    let v = secure_random_bytes(32)?;
    Ok(to_array32(v.as_slice()))
}

/// A random 192-bit XChaCha20 nonce.
pub fn generate_nonce() -> (r: Result<[u8; 24], CryptoError>)
    ensures
        r matches Err(e) ==> e == CryptoError::RandomError,
{
    let v = secure_random_bytes(24)?;
    Ok(to_array24(v.as_slice()))
}

/// Handle on the operating system's generator. It keeps no state of its
/// own, so there is nothing to wipe.
pub struct SecureRng {}

impl SecureRng {
    pub fn new() -> (r: Self) {
        SecureRng {}
    }

    /// Fills `dest` with random bytes; its length is kept. A failure of the
    /// operating system's generator is fatal and is reported as `false`.
    pub fn fill_bytes(&mut self, dest: &mut [u8]) -> (ok: bool)
        ensures
            final(dest)@.len() == old(dest)@.len(),
    {
        os_fill(dest)
    }
}

impl Default for SecureRng {
    fn default() -> (r: Self) {
        SecureRng::new()
    }
}

} // verus!
