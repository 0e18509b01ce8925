//! Key derivation: HKDF-SHA256, HMAC-SHA256 and keyed BLAKE3.
use vstd::prelude::*;
use vstd::bytes::*;
use vstd::string::*;
use vstd::utf8::*;
use hkdf::Hkdf;
use hmac::{Hmac, Mac};
use sha2::Sha256;
use super::CryptoError;
use super::symmetric::SymmetricKey;
use crate::bytes::{append_bytes, to_array32};

verus! {

/// Longest HKDF-SHA256 output: 255 blocks of 32 bytes.
pub const MAX_HKDF_OUTPUT: usize = 8160;

/// Key hierarchy levels.
#[derive(Clone, Copy, Debug, PartialEq, Eq, Structural)]
pub enum KeyLevel {
    Master,
    Chain,
    Message,
}

/// HKDF-SHA256 output of `len` bytes for input key material `ikm`, `salt` and `info`.
pub uninterp spec fn hkdf_sha256(ikm: Seq<u8>, salt: Seq<u8>, info: Seq<u8>, len: nat) -> Seq<u8>;

/// HMAC-SHA256 of `msg` under `key`.
pub uninterp spec fn hmac_sha256(key: Seq<u8>, msg: Seq<u8>) -> Seq<u8>;

/// Keyed BLAKE3 hash of `data` under `key`.
pub uninterp spec fn blake3_keyed(key: Seq<u8>, data: Seq<u8>) -> Seq<u8>;

/// Relies on `Hkdf::<Sha256>::new(Some(salt), ikm)` and `Hkdf::expand`:
/// expansion fills the whole buffer and fails only above 255 * 32 bytes.
#[verifier::external_body]
fn hkdf_expand(ikm: &[u8], salt: &[u8], info: &[u8], len: usize) -> (r: Option<Vec<u8>>)
    ensures
        r is Some <==> len <= MAX_HKDF_OUTPUT,
        r matches Some(v) ==> v@ == hkdf_sha256(ikm@, salt@, info@, len as nat) && v@.len() == len,
{
    let hk = Hkdf::<Sha256>::new(Some(salt), ikm);
    let mut output = vec![0u8; len];
    match hk.expand(info, &mut output) {
        Ok(()) => Some(output),
        Err(_) => None,
    }
}

/// Relies on `Hmac::<Sha256>::new_from_slice`, which accepts keys of any
/// length (longer ones are hashed first), then `update` and `finalize`: the
/// 32-byte tag.
#[verifier::external_body]
fn hmac_sha256_tag(key: &[u8], msg: &[u8]) -> (r: Option<[u8; 32]>)
    ensures
        r is Some,
        r matches Some(t) ==> t@ == hmac_sha256(key@, msg@),
{
    match <Hmac<Sha256> as Mac>::new_from_slice(key) {
        Ok(mut mac) => {
            mac.update(msg);
            Some(mac.finalize().into_bytes().into())
        },
        Err(_) => None,
    }
}

/// Relies on `blake3::Hasher::new_keyed`, `update` and `finalize`: the
/// 32-byte keyed hash.
#[verifier::external_body]
fn blake3_keyed_digest(key: &[u8; 32], data: &[u8]) -> (r: [u8; 32])
    ensures
        r@ == blake3_keyed(key@, data@),
{
    let mut hasher = blake3::Hasher::new_keyed(key);
    hasher.update(data);
    *hasher.finalize().as_bytes()
}

/// Domain separator of the master key.
pub open spec fn master_key_info() -> Seq<u8> {
    encode_utf8("aegis-master-key-v1"@)
}

/// Domain separator of message key number `n`: the label, then `n` as 8 LE bytes.
pub open spec fn message_key_info(n: u64) -> Seq<u8> {
    encode_utf8("aegis-message-key-v1"@) + spec_u64_to_le_bytes(n)
}

/// Domain separator of bundle key number `i`: the label, then `i` as 8 LE bytes.
pub open spec fn bundle_key_info(i: u64) -> Seq<u8> {
    encode_utf8("aegis-bundle-key-v1-"@) + spec_u64_to_le_bytes(i)
}

/// The master key derived from a shared secret and salt.
pub open spec fn master_key_spec(shared_secret: Seq<u8>, salt: Seq<u8>) -> Seq<u8> {
    hkdf_sha256(shared_secret, salt, master_key_info(), 32)
}

/// The chain key that follows `prev` under `context`.
pub open spec fn chain_key_spec(prev: Seq<u8>, context: Seq<u8>) -> Seq<u8> {
    hkdf_sha256(prev, Seq::empty(), context, 32)
}

/// Message key number `n` of chain key `chain`.
pub open spec fn message_key_spec(chain: Seq<u8>, n: u64) -> Seq<u8> {
    hkdf_sha256(chain, Seq::empty(), message_key_info(n), 32)
}

/// HKDF-SHA256 of `output_length` bytes; `KeyExchangeError` above
/// `MAX_HKDF_OUTPUT`.
pub fn derive_keys(input_key_material: &[u8], salt: &[u8], info: &[u8], output_length: usize) -> (r: Result<
    Vec<u8>,
    CryptoError,
>)
    ensures
        output_length <= MAX_HKDF_OUTPUT ==> (r matches Ok(v) && v@ == hkdf_sha256(
            input_key_material@,
            salt@,
            info@,
            output_length as nat,
        ) && v@.len() == output_length),
        output_length > MAX_HKDF_OUTPUT ==> r matches Err(CryptoError::KeyExchangeError(_)),
{
    match hkdf_expand(input_key_material, salt, info, output_length) {
        Some(v) => Ok(v),
        None => Err(CryptoError::KeyExchangeError("HKDF expansion failed".to_string())),
    }
}

/// 32 bytes of HKDF-SHA256 output as an array.
fn derive_32(ikm: &[u8], salt: &[u8], info: &[u8]) -> (r: [u8; 32])
    ensures
        r@ == hkdf_sha256(ikm@, salt@, info@, 32),
{
    match hkdf_expand(ikm, salt, info, 32) {
        Some(v) => to_array32(v.as_slice()),
        None => {
            assert(false);
            [0u8; 32]
        },
    }
}

/// The 256-bit master key of a shared secret: HKDF with the master-key label.
pub fn derive_master_key(shared_secret: &[u8], salt: &[u8]) -> (r: Result<SymmetricKey, CryptoError>)
    ensures
        r matches Ok(k) && k@ == master_key_spec(shared_secret@, salt@),
{
    let info = "aegis-master-key-v1".as_bytes();
    Ok(SymmetricKey::new(derive_32(shared_secret, salt, info)))
}

/// The next chain key: HKDF of the previous one, empty salt, `context` as info.
pub fn derive_chain_key(previous_chain_key: &[u8; 32], context: &[u8]) -> (r: Result<[u8; 32], CryptoError>)
    ensures
        r matches Ok(k) && k@ == chain_key_spec(previous_chain_key@, context@),
{
    let empty: [u8; 0] = [];
    assert(empty@ =~= Seq::<u8>::empty());
    Ok(derive_32(previous_chain_key.as_slice(), empty.as_slice(), context))
}

/// Message key `message_number` of a chain key.
pub fn derive_message_key(chain_key: &[u8; 32], message_number: u64) -> (r: Result<SymmetricKey, CryptoError>)
    ensures
        r matches Ok(k) && k@ == message_key_spec(chain_key@, message_number),
{
    let mut info: Vec<u8> = Vec::new();
    append_bytes(&mut info, "aegis-message-key-v1".as_bytes());
    let n = u64_to_le_bytes(message_number);
    append_bytes(&mut info, n.as_slice());
    let empty: [u8; 0] = [];
    assert(empty@ =~= Seq::<u8>::empty());
    Ok(SymmetricKey::new(derive_32(chain_key.as_slice(), empty.as_slice(), info.as_slice())))
}

/// HMAC-SHA256 of `constant` under `key`, used to step chain keys.
pub fn ratchet_key_hmac(key: &[u8; 32], constant: &[u8]) -> (r: Result<[u8; 32], CryptoError>)
    ensures
        r matches Ok(k) && k@ == hmac_sha256(key@, constant@),
{
    match hmac_sha256_tag(key.as_slice(), constant) {
        Some(t) => Ok(t),
        None => Err(CryptoError::KeyExchangeError("HMAC initialization failed".to_string())),
    }
}

/// Keyed BLAKE3 hash, for challenge responses.
pub fn blake3_keyed_hash(key: &[u8; 32], data: &[u8]) -> (r: [u8; 32])
    ensures
        r@ == blake3_keyed(key@, data@),
{
    blake3_keyed_digest(key, data)
}

/// `count` keys from a master key, key `i` under the bundle label and `i`.
pub fn derive_key_bundle(master_key: &[u8; 32], count: usize) -> (r: Result<Vec<SymmetricKey>, CryptoError>)
    ensures
        r matches Ok(keys) && keys@.len() == count && forall|i: int|
            0 <= i < count ==> (#[trigger] keys@[i])@ == hkdf_sha256(
                master_key@,
                Seq::empty(),
                bundle_key_info(i as u64),
                32,
            ),
{
    let mut keys: Vec<SymmetricKey> = Vec::with_capacity(count);
    let empty: [u8; 0] = [];
    assert(empty@ =~= Seq::<u8>::empty());
    let mut i: usize = 0;
    while i < count
        invariant
            i <= count,
            empty@ == Seq::<u8>::empty(),
            keys@.len() == i,
            forall|j: int|
                0 <= j < i ==> (#[trigger] keys@[j])@ == hkdf_sha256(
                    master_key@,
                    Seq::empty(),
                    bundle_key_info(j as u64),
                    32,
                ),
        decreases count - i,
    {
        let mut info: Vec<u8> = Vec::new();
        append_bytes(&mut info, "aegis-bundle-key-v1-".as_bytes());
        let n = u64_to_le_bytes(i as u64);
        append_bytes(&mut info, n.as_slice());
        keys.push(SymmetricKey::new(derive_32(master_key.as_slice(), empty.as_slice(), info.as_slice())));
        i = i + 1;
    }
    Ok(keys)
}

/// Response to `challenge` that shows knowledge of `key` without revealing it.
pub fn prove_key_knowledge(key: &[u8; 32], challenge: &[u8]) -> (r: [u8; 32])
    ensures
        r@ == blake3_keyed(key@, challenge@),
{
    blake3_keyed_hash(key, challenge)
}

/// Derivation is a function of its inputs: equal inputs give equal keys.
pub proof fn lemma_master_key_deterministic(ss1: Seq<u8>, salt1: Seq<u8>, ss2: Seq<u8>, salt2: Seq<u8>)
    requires
        ss1 == ss2,
        salt1 == salt2,
    ensures
        master_key_spec(ss1, salt1) == master_key_spec(ss2, salt2),
{
}

} // verus!
