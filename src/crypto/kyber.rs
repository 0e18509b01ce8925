//! Kyber-1024 key encapsulation.
use vstd::prelude::*;
use pqcrypto_kyber::kyber1024;
use pqcrypto_traits::kem::{Ciphertext as KemCiphertextBytes, PublicKey as KemPublicKeyBytes, SecretKey as KemSecretKeyBytes, SharedSecret as KemSharedSecretBytes};
use zeroize::Zeroize;
use super::CryptoError;
use crate::bytes::{copy_range, to_array32};

verus! {

/// Length of a Kyber-1024 public key.
pub const PUBLIC_KEY_BYTES: usize = 1568;

/// Length of a Kyber-1024 secret key.
pub const SECRET_KEY_BYTES: usize = 3168;

/// Length of a Kyber-1024 ciphertext.
pub const CIPHERTEXT_BYTES: usize = 1568;

/// Length of the shared secret handed to the key schedule.
pub const SHARED_SECRET_BYTES: usize = 32;

/// Kyber-1024 decapsulation of `ct` under secret key `sk`.
pub uninterp spec fn kyber1024_decapsulated(sk: Seq<u8>, ct: Seq<u8>) -> Seq<u8>;

/// Relies on `kyber1024::keypair`: fresh keys of the fixed Kyber-1024
/// lengths. Nothing is promised of their bytes.
#[verifier::external_body]
fn kem_keypair() -> (r: (Vec<u8>, Vec<u8>))
    ensures
        r.0@.len() == PUBLIC_KEY_BYTES,
        r.1@.len() == SECRET_KEY_BYTES,
{
    let (pk, sk) = kyber1024::keypair();
    (pk.as_bytes().to_vec(), sk.as_bytes().to_vec())
}

/// Relies on `kyber1024::PublicKey::from_bytes`, which accepts exactly
/// `PUBLIC_KEY_BYTES` bytes, and `kyber1024::encapsulate`: a fresh 32-byte
/// shared secret and a ciphertext of the fixed length.
#[verifier::external_body]
fn kem_encapsulate(pk: &[u8]) -> (r: Option<(Vec<u8>, Vec<u8>)>)
    ensures
        r is Some <==> pk@.len() == PUBLIC_KEY_BYTES,
        r matches Some(p) ==> p.0@.len() == SHARED_SECRET_BYTES && p.1@.len() == CIPHERTEXT_BYTES,
{
    match kyber1024::PublicKey::from_bytes(pk) {
        Ok(public) => {
            let (ss, ct) = kyber1024::encapsulate(&public);
            Some((ss.as_bytes().to_vec(), ct.as_bytes().to_vec()))
        },
        Err(_) => None,
    }
}

/// Relies on `kyber1024::SecretKey::from_bytes` and
/// `kyber1024::Ciphertext::from_bytes`, which accept exactly the fixed
/// lengths, and `kyber1024::decapsulate`: a deterministic 32-byte secret.
#[verifier::external_body]
fn kem_decapsulate(sk: &[u8], ct: &[u8]) -> (r: Option<Vec<u8>>)
    ensures
        r is Some <==> (sk@.len() == SECRET_KEY_BYTES && ct@.len() == CIPHERTEXT_BYTES),
        r matches Some(s) ==> s@ == kyber1024_decapsulated(sk@, ct@) && s@.len() == SHARED_SECRET_BYTES,
{
    match (kyber1024::SecretKey::from_bytes(sk), kyber1024::Ciphertext::from_bytes(ct)) {
        (Ok(secret), Ok(ciphertext)) => Some(kyber1024::decapsulate(&ciphertext, &secret).as_bytes().to_vec()),
        _ => None,
    }
}

/// A Kyber-1024 public key.
pub struct PublicKey {
    bytes: Vec<u8>,
}

/// A Kyber-1024 secret key, wiped when dropped.
struct SecretKey {
    bytes: Vec<u8>,
}

impl Drop for SecretKey {
    /// Relies on `zeroize::Zeroize` for vectors: overwrites the key bytes.
    #[verifier::external_body]
    fn drop(&mut self)
        opens_invariants none
        no_unwind
    {
        self.bytes.zeroize();
    }
}

/// A Kyber-1024 ciphertext.
pub struct Ciphertext {
    bytes: Vec<u8>,
}

/// A 32-byte shared secret, wiped when dropped.
pub struct SharedSecret {
    bytes: [u8; 32],
}

impl Drop for SharedSecret {
    /// Relies on `zeroize::Zeroize` for arrays: overwrites the secret.
    #[verifier::external_body]
    fn drop(&mut self)
        opens_invariants none
        no_unwind
    {
        self.bytes.zeroize();
    }
}

/// An ephemeral Kyber-1024 key pair.
pub struct KeyPair {
    pub public: PublicKey,
    secret: SecretKey,
}

impl View for PublicKey {
    type V = Seq<u8>;

    closed spec fn view(&self) -> Seq<u8> {
        self.bytes@
    }
}

impl View for Ciphertext {
    type V = Seq<u8>;

    closed spec fn view(&self) -> Seq<u8> {
        self.bytes@
    }
}

impl View for SharedSecret {
    type V = Seq<u8>;

    closed spec fn view(&self) -> Seq<u8> {
        self.bytes@
    }
}

impl KeyPair {
    /// The public key's bytes.
    pub closed spec fn public_view(&self) -> Seq<u8> {
        self.public@
    }

    /// The secret key's bytes.
    pub closed spec fn secret_view(&self) -> Seq<u8> {
        self.secret.bytes@
    }

    /// A fresh key pair.
    pub fn generate() -> (r: Result<Self, CryptoError>)
        ensures
            r matches Ok(kp) && kp.public_view().len() == PUBLIC_KEY_BYTES && kp.secret_view().len()
                == SECRET_KEY_BYTES,
    {
        let (pk, sk) = kem_keypair();
        Ok(KeyPair { public: PublicKey { bytes: pk }, secret: SecretKey { bytes: sk } })
    }

    /// The shared secret that `ciphertext` carries: the decapsulation of a
    /// well-formed ciphertext (an implicit-rejection value if it was
    /// tampered with). `KeyExchangeError` when a length is wrong.
    pub fn decapsulate(&self, ciphertext: &Ciphertext) -> (r: Result<SharedSecret, CryptoError>)
        ensures
            self.secret_view().len() == SECRET_KEY_BYTES && ciphertext@.len() == CIPHERTEXT_BYTES ==> (r matches Ok(
                s,
            ) && s@ == kyber1024_decapsulated(self.secret_view(), ciphertext@)),
            !(self.secret_view().len() == SECRET_KEY_BYTES && ciphertext@.len() == CIPHERTEXT_BYTES) ==> r matches Err(
                CryptoError::KeyExchangeError(_),
            ),
    {
        match kem_decapsulate(self.secret.bytes.as_slice(), ciphertext.bytes.as_slice()) {
            Some(ss) => Ok(SharedSecret { bytes: to_array32(ss.as_slice()) }),
            None => Err(CryptoError::KeyExchangeError("invalid secret key or ciphertext".to_string())),
        }
    }

    /// The public half.
    pub fn public_key(&self) -> (r: &PublicKey)
        ensures
            r@ == self.public_view(),
    {
        &self.public
    }
}

impl PublicKey {
    /// A fresh shared secret and the ciphertext that carries it to the key's
    /// owner. `KeyExchangeError` for a key of the wrong length.
    pub fn encapsulate(&self) -> (r: Result<(SharedSecret, Ciphertext), CryptoError>)
        ensures
            self@.len() == PUBLIC_KEY_BYTES ==> (r matches Ok(p) && p.1@.len() == CIPHERTEXT_BYTES),
            self@.len() != PUBLIC_KEY_BYTES ==> r matches Err(CryptoError::KeyExchangeError(_)),
    {
        match kem_encapsulate(self.bytes.as_slice()) {
            Some((ss, ct)) => Ok((SharedSecret { bytes: to_array32(ss.as_slice()) }, Ciphertext { bytes: ct })),
            None => Err(CryptoError::KeyExchangeError("invalid public key".to_string())),
        }
    }

    /// The key's bytes.
    pub fn as_bytes(&self) -> (r: &[u8])
        ensures
            r@ == self@,
    {
        self.bytes.as_slice()
    }

    /// A public key from its bytes; `InvalidKey` unless there are exactly
    /// `PUBLIC_KEY_BYTES`.
    pub fn from_bytes(bytes: Vec<u8>) -> (r: Result<Self, CryptoError>)
        ensures
            bytes@.len() == PUBLIC_KEY_BYTES ==> (r matches Ok(k) && k@ == bytes@),
            bytes@.len() != PUBLIC_KEY_BYTES ==> r matches Err(CryptoError::InvalidKey),
    {
        if bytes.len() != PUBLIC_KEY_BYTES {
            return Err(CryptoError::InvalidKey);
        }
        Ok(PublicKey { bytes })
    }
}

impl SharedSecret {
    /// The secret's bytes.
    pub fn as_bytes(&self) -> (r: &[u8; 32])
        ensures
            r@ == self@,
    {
        &self.bytes
    }

    /// The secret's bytes, consuming it.
    pub fn into_bytes(self) -> (r: [u8; 32])
        ensures
            r@ == self@,
    {
        self.bytes
    }
}

impl Ciphertext {
    /// The ciphertext's bytes.
    pub fn as_bytes(&self) -> (r: &[u8])
        ensures
            r@ == self@,
    {
        self.bytes.as_slice()
    }

    /// A ciphertext from its bytes; `InvalidKey` unless there are exactly
    /// `CIPHERTEXT_BYTES`.
    pub fn from_bytes(bytes: Vec<u8>) -> (r: Result<Self, CryptoError>)
        ensures
            bytes@.len() == CIPHERTEXT_BYTES ==> (r matches Ok(c) && c@ == bytes@),
            bytes@.len() != CIPHERTEXT_BYTES ==> r matches Err(CryptoError::InvalidKey),
    {
        if bytes.len() != CIPHERTEXT_BYTES {
            return Err(CryptoError::InvalidKey);
        }
        Ok(Ciphertext { bytes })
    }
}

impl Clone for PublicKey {
    fn clone(&self) -> (r: Self)
        ensures
            r@ == self@,
    {
        PublicKey { bytes: vstd::slice::slice_to_vec(self.bytes.as_slice()) }
    }
}

impl Clone for Ciphertext {
    fn clone(&self) -> (r: Self)
        ensures
            r@ == self@,
    {
        Ciphertext { bytes: vstd::slice::slice_to_vec(self.bytes.as_slice()) }
    }
}

} // verus!
