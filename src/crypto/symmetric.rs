//! XChaCha20-Poly1305 authenticated encryption.
use vstd::prelude::*;
use chacha20poly1305::aead::{Aead, KeyInit, Payload};
use chacha20poly1305::{XChaCha20Poly1305, XNonce};
use zeroize::Zeroize;
use super::CryptoError;
use super::random::generate_nonce;
use crate::bytes::to_array32;

verus! {

/// Length of the Poly1305 tag appended to every ciphertext.
pub const TAG_SIZE: usize = 16;

/// Plaintexts must be shorter than this many bytes (64-byte blocks, fewer
/// than `u32::MAX` of them).
pub const MAX_PLAINTEXT_LEN: u64 = 274877906880;

/// XChaCha20-Poly1305 ciphertext (with tag) of `plaintext` under `key`,
/// `nonce` and associated data `aad`.
pub uninterp spec fn xchacha_sealed(key: Seq<u8>, nonce: Seq<u8>, plaintext: Seq<u8>, aad: Seq<u8>) -> Seq<u8>;

/// Relies on `XChaCha20Poly1305::encrypt`: it fails only when the plaintext
/// has `u32::MAX` or more 64-byte blocks, and otherwise returns the
/// ciphertext followed by the 16-byte tag.
#[verifier::external_body]
fn xchacha_seal(key: &[u8; 32], nonce: &[u8; 24], plaintext: &[u8], aad: &[u8]) -> (r: Option<Vec<u8>>)
    ensures
        r is Some <==> plaintext@.len() < MAX_PLAINTEXT_LEN,
        r matches Some(c) ==> c@ == xchacha_sealed(key@, nonce@, plaintext@, aad@) && c@.len()
            == plaintext@.len() + TAG_SIZE,
{
    let cipher = XChaCha20Poly1305::new(key.into());
    cipher.encrypt(XNonce::from_slice(nonce), Payload { msg: plaintext, aad }).ok()
}

/// What opening `ciphertext` may give: a plaintext of the admitted length
/// only if it seals back to the ciphertext, and always the plaintext when
/// one does.
pub open spec fn aead_open_result(key: Seq<u8>, nonce: Seq<u8>, ciphertext: Seq<u8>, aad: Seq<u8>, r: Option<Vec<u8>>) -> bool {
    &&& r matches Some(v) ==> xchacha_sealed(key, nonce, v@, aad) == ciphertext && v@.len() < MAX_PLAINTEXT_LEN
    &&& forall|p: Seq<u8>|
        #![trigger xchacha_sealed(key, nonce, p, aad)]
        p.len() < MAX_PLAINTEXT_LEN && xchacha_sealed(key, nonce, p, aad) == ciphertext ==> (r matches Some(v)
            && v@ == p)
}

/// Relies on `XChaCha20Poly1305::decrypt`: a ciphertext made by `encrypt`
/// under the same key, nonce and associated data opens to its plaintext, and
/// whatever opens is a plaintext that seals back to the ciphertext; bodies of
/// `u32::MAX` or more 64-byte blocks are refused, so it is shorter than
/// `MAX_PLAINTEXT_LEN`.
#[verifier::external_body]
fn xchacha_open(key: &[u8; 32], nonce: &[u8; 24], ciphertext: &[u8], aad: &[u8]) -> (r: Option<Vec<u8>>)
    ensures
        aead_open_result(key@, nonce@, ciphertext@, aad@, r),
{
    let cipher = XChaCha20Poly1305::new(key.into());
    cipher.decrypt(XNonce::from_slice(nonce), Payload { msg: ciphertext, aad }).ok()
}

/// What decryption of `ciphertext` may return: a plaintext only if it seals
/// back to the ciphertext, always the plaintext when one does, and otherwise
/// `AuthenticationFailed`.
pub open spec fn opens_to(
    key: Seq<u8>,
    nonce: Seq<u8>,
    ciphertext: Seq<u8>,
    aad: Seq<u8>,
    r: Result<Vec<u8>, CryptoError>,
) -> bool {
    &&& r matches Ok(p) ==> xchacha_sealed(key, nonce, p@, aad) == ciphertext && p@.len() < MAX_PLAINTEXT_LEN
    &&& forall|p: Seq<u8>|
        #![trigger xchacha_sealed(key, nonce, p, aad)]
        p.len() < MAX_PLAINTEXT_LEN && xchacha_sealed(key, nonce, p, aad) == ciphertext ==> (r matches Ok(v)
            && v@ == p)
    &&& r matches Err(e) ==> e == CryptoError::AuthenticationFailed
}

/// A nonce and the ciphertext (with tag) made under it.
#[derive(Clone)]
pub struct EncryptedMessage {
    pub nonce: [u8; 24],
    pub ciphertext: Vec<u8>,
}

/// A 32-byte symmetric key, wiped when dropped.
pub struct SymmetricKey {
    key: [u8; 32],
}

impl View for SymmetricKey {
    type V = Seq<u8>;

    closed spec fn view(&self) -> Seq<u8> {
        self.key@
    }
}

impl Drop for SymmetricKey {
    /// Relies on `zeroize::Zeroize` for arrays: overwrites the key bytes.
    #[verifier::external_body]
    fn drop(&mut self)
        opens_invariants none
        no_unwind
    {
        self.key.zeroize();
    }
}

impl SymmetricKey {
    /// A key holding `key`.
    pub fn new(key: [u8; 32]) -> (r: Self)
        ensures
            r@ == key@,
    {
        SymmetricKey { key }
    }

    /// The key bytes.
    pub fn as_bytes(&self) -> (r: &[u8; 32])
        ensures
            r@ == self@,
    {
        &self.key
    }

    /// An explicit copy of the key.
    pub fn duplicate(&self) -> (r: Self)
        ensures
            r@ == self@,
    {
        SymmetricKey { key: self.key }
    }

    /// A key from exactly 32 bytes; `InvalidKey` for any other length.
    pub fn from_slice(slice: &[u8]) -> (r: Result<Self, CryptoError>)
        ensures
            slice@.len() == 32 ==> (r matches Ok(k) && k@ == slice@),
            slice@.len() != 32 ==> r == Err::<Self, CryptoError>(CryptoError::InvalidKey),
    {
        if slice.len() != 32 {
            return Err(CryptoError::InvalidKey);
        }
        Ok(SymmetricKey { key: to_array32(slice) })
    }
}

impl Clone for SymmetricKey {
    fn clone(&self) -> (r: Self)
        ensures
            r@ == self@,
    {
        self.duplicate()
    }
}

/// Encrypts under a caller-chosen nonce. Fails only for plaintexts of
/// `MAX_PLAINTEXT_LEN` bytes or more.
pub fn encrypt_with_nonce(key: &SymmetricKey, nonce: [u8; 24], plaintext: &[u8], associated_data: &[u8]) -> (r:
    Result<EncryptedMessage, CryptoError>)
    ensures
        plaintext@.len() < MAX_PLAINTEXT_LEN ==> (r matches Ok(m) && m.nonce == nonce && m.ciphertext@
            == xchacha_sealed(key@, nonce@, plaintext@, associated_data@) && m.ciphertext@.len()
            == plaintext@.len() + TAG_SIZE),
        plaintext@.len() >= MAX_PLAINTEXT_LEN ==> r matches Err(CryptoError::EncryptionError(_)),
{
    match xchacha_seal(key.as_bytes(), &nonce, plaintext, associated_data) {
        Some(ciphertext) => Ok(EncryptedMessage { nonce, ciphertext }),
        None => Err(CryptoError::EncryptionError("plaintext too long".to_string())),
    }
}

/// Encrypts under a fresh random nonce. Fails with `RandomError` when the
/// random source fails, and with `EncryptionError` when the plaintext is too
/// long.
pub fn encrypt(key: &SymmetricKey, plaintext: &[u8], associated_data: &[u8]) -> (r: Result<
    EncryptedMessage,
    CryptoError,
>)
    ensures
        r matches Ok(m) ==> m.ciphertext@ == xchacha_sealed(key@, m.nonce@, plaintext@, associated_data@)
            && m.ciphertext@.len() == plaintext@.len() + TAG_SIZE,
        plaintext@.len() >= MAX_PLAINTEXT_LEN ==> r is Err,
        r matches Err(e) ==> e == CryptoError::RandomError || (e is EncryptionError && plaintext@.len()
            >= MAX_PLAINTEXT_LEN),
{
    let nonce = match generate_nonce() {
        Ok(n) => n,
        Err(_) => return Err(CryptoError::RandomError),
    };
    encrypt_with_nonce(key, nonce, plaintext, associated_data)
}

/// Decrypts and authenticates; `AuthenticationFailed` when the tag does not
/// verify. A message sealed under the same key and associated data always opens.
pub fn decrypt(key: &SymmetricKey, encrypted: &EncryptedMessage, associated_data: &[u8]) -> (r: Result<
    Vec<u8>,
    CryptoError,
>)
    ensures
        opens_to(key@, encrypted.nonce@, encrypted.ciphertext@, associated_data@, r),
{
    match xchacha_open(key.as_bytes(), &encrypted.nonce, encrypted.ciphertext.as_slice(), associated_data) {
        Some(p) => Ok(p),
        None => Err(CryptoError::AuthenticationFailed),
    }
}

/// `encrypt` with no associated data.
pub fn encrypt_simple(key: &SymmetricKey, plaintext: &[u8]) -> (r: Result<EncryptedMessage, CryptoError>)
    ensures
        r matches Ok(m) ==> m.ciphertext@ == xchacha_sealed(key@, m.nonce@, plaintext@, Seq::empty())
            && m.ciphertext@.len() == plaintext@.len() + TAG_SIZE,
        plaintext@.len() >= MAX_PLAINTEXT_LEN ==> r is Err,
        r matches Err(e) ==> e == CryptoError::RandomError || (e is EncryptionError && plaintext@.len()
            >= MAX_PLAINTEXT_LEN),
{
    let empty: [u8; 0] = [];
    assert(empty@ =~= Seq::<u8>::empty());
    encrypt(key, plaintext, empty.as_slice())
}

/// `decrypt` with no associated data.
pub fn decrypt_simple(key: &SymmetricKey, encrypted: &EncryptedMessage) -> (r: Result<Vec<u8>, CryptoError>)
    ensures
        opens_to(key@, encrypted.nonce@, encrypted.ciphertext@, Seq::empty(), r),
{
    let empty: [u8; 0] = [];
    assert(empty@ =~= Seq::<u8>::empty());
    decrypt(key, encrypted, empty.as_slice())
}

/// Decrypting what `encrypt` produced, under the same key, nonce and
/// associated data, gives back the plaintext.
pub proof fn lemma_decrypt_encrypt(
    key: Seq<u8>,
    nonce: Seq<u8>,
    plaintext: Seq<u8>,
    aad: Seq<u8>,
    r: Result<Vec<u8>, CryptoError>,
)
    requires
        plaintext.len() < MAX_PLAINTEXT_LEN,
        opens_to(key, nonce, xchacha_sealed(key, nonce, plaintext, aad), aad, r),
    ensures
        r matches Ok(v) && v@ == plaintext,
{
}

/// Compares two byte strings in time that depends on their length only.
pub fn constant_time_compare(a: &[u8], b: &[u8]) -> (r: bool)
    ensures
        r == (a@ == b@),
{
    super::timing::constant_time_eq(a, b)
}

} // verus!
