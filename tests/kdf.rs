use aegis::crypto::kdf::{
    blake3_keyed_hash, derive_chain_key, derive_key_bundle, derive_keys, derive_master_key, derive_message_key,
    prove_key_knowledge, ratchet_key_hmac,
};
use aegis::crypto::CryptoError;

fn hex(s: &str) -> Vec<u8> {
    (0..s.len()).step_by(2).map(|i| u8::from_str_radix(&s[i..i + 2], 16).unwrap()).collect()
}

#[test]
fn test_derive_keys() {
    let ikm = b"input key material";
    let salt = b"salt";
    let info = b"info";
    let derived1 = derive_keys(ikm, salt, info, 32).unwrap();
    let derived2 = derive_keys(ikm, salt, info, 32).unwrap();
    assert_eq!(derived1, derived2);
}

#[test]
fn test_derive_master_key() {
    let shared_secret = [42u8; 32];
    let salt = b"salt";
    let key = derive_master_key(&shared_secret, salt).unwrap();
    assert_eq!(key.as_bytes().len(), 32);
}

#[test]
fn test_derive_chain_key() {
    let previous_key = [1u8; 32];
    let context = b"context";
    let chain_key = derive_chain_key(&previous_key, context).unwrap();
    assert_eq!(chain_key.len(), 32);
    assert_ne!(chain_key, previous_key);
}

#[test]
fn test_derive_message_key() {
    let chain_key = [2u8; 32];
    let msg_key1 = derive_message_key(&chain_key, 0).unwrap();
    let msg_key2 = derive_message_key(&chain_key, 1).unwrap();
    assert_ne!(msg_key1.as_bytes(), msg_key2.as_bytes());
}

#[test]
fn test_ratchet_key_hmac() {
    let key = [3u8; 32];
    let constant = b"rotation";
    let ratcheted = ratchet_key_hmac(&key, constant).unwrap();
    assert_eq!(ratcheted.len(), 32);
    assert_ne!(ratcheted, key);
}

#[test]
fn test_ratchet_deterministic() {
    let key = [4u8; 32];
    let constant = b"test";
    let ratcheted1 = ratchet_key_hmac(&key, constant).unwrap();
    let ratcheted2 = ratchet_key_hmac(&key, constant).unwrap();
    assert_eq!(ratcheted1, ratcheted2);
}

#[test]
fn test_blake3_keyed_hash() {
    let key = [5u8; 32];
    let data = b"test data";
    let hash1 = blake3_keyed_hash(&key, data);
    let hash2 = blake3_keyed_hash(&key, data);
    assert_eq!(hash1, hash2);
    let hash3 = blake3_keyed_hash(&key, b"different data");
    assert_ne!(hash1, hash3);
}

#[test]
fn test_derive_key_bundle() {
    let master_key = [6u8; 32];
    let count = 5;
    let bundle = derive_key_bundle(&master_key, count).unwrap();
    assert_eq!(bundle.len(), count);
    for i in 0..count {
        for j in (i + 1)..count {
            assert_ne!(bundle[i].as_bytes(), bundle[j].as_bytes());
        }
    }
}

#[test]
fn test_prove_key_knowledge() {
    let key = [7u8; 32];
    let challenge = b"challenge123";
    let proof = prove_key_knowledge(&key, challenge);
    assert_eq!(proof.len(), 32);
    let proof2 = prove_key_knowledge(&key, challenge);
    assert_eq!(proof, proof2);
    let different_key = [8u8; 32];
    let proof3 = prove_key_knowledge(&different_key, challenge);
    assert_ne!(proof, proof3);
}

#[test]
fn test_different_salts() {
    let ikm = b"secret";
    let salt1 = b"salt1";
    let salt2 = b"salt2";
    let info = b"info";
    let derived1 = derive_keys(ikm, salt1, info, 32).unwrap();
    let derived2 = derive_keys(ikm, salt2, info, 32).unwrap();
    assert_ne!(derived1, derived2);
}

#[test]
fn hkdf_matches_rfc5869_case_one() {
    let ikm = [0x0bu8; 22];
    let salt = hex("000102030405060708090a0b0c");
    let info = hex("f0f1f2f3f4f5f6f7f8f9");
    let okm = derive_keys(&ikm, &salt, &info, 42).unwrap();
    assert_eq!(okm, hex("3cb25f25faacd57a90434f64d0362f2a2d2d0a90cf1a5a4c5db02d56ecc4c5bf34007208d5b887185865"));
}

#[test]
fn hkdf_length_limit() {
    assert_eq!(derive_keys(b"k", b"s", b"i", 8160).unwrap().len(), 8160);
    assert!(matches!(derive_keys(b"k", b"s", b"i", 8161), Err(CryptoError::KeyExchangeError(_))));
    assert_eq!(derive_keys(b"k", b"s", b"i", 0).unwrap().len(), 0);
}

#[test]
fn master_key_is_hkdf_with_master_label() {
    let ss = [9u8; 32];
    let key = derive_master_key(&ss, b"aegis-v1-salt").unwrap();
    let expected = derive_keys(&ss, b"aegis-v1-salt", b"aegis-master-key-v1", 32).unwrap();
    assert_eq!(key.as_bytes().to_vec(), expected);
}

#[test]
fn master_key_is_deterministic() {
    let ss = [10u8; 32];
    let a = derive_master_key(&ss, b"salt").unwrap();
    let b = derive_master_key(&ss, b"salt").unwrap();
    assert_eq!(a.as_bytes(), b.as_bytes());
}

#[test]
fn message_key_uses_label_and_counter() {
    let chain = [11u8; 32];
    let key = derive_message_key(&chain, 7).unwrap();
    let mut info = b"aegis-message-key-v1".to_vec();
    info.extend_from_slice(&7u64.to_le_bytes());
    assert_eq!(key.as_bytes().to_vec(), derive_keys(&chain, &[], &info, 32).unwrap());
}

#[test]
fn chain_key_uses_empty_salt() {
    let prev = [12u8; 32];
    let next = derive_chain_key(&prev, b"chain-advance").unwrap();
    assert_eq!(next.to_vec(), derive_keys(&prev, &[], b"chain-advance", 32).unwrap());
}

#[test]
fn bundle_key_uses_label_and_index() {
    let master = [13u8; 32];
    let bundle = derive_key_bundle(&master, 3).unwrap();
    let mut info = b"aegis-bundle-key-v1-".to_vec();
    info.extend_from_slice(&2u64.to_le_bytes());
    assert_eq!(bundle[2].as_bytes().to_vec(), derive_keys(&master, &[], &info, 32).unwrap());
    assert_eq!(derive_key_bundle(&master, 0).unwrap().len(), 0);
}

#[test]
fn hmac_depends_on_message() {
    let key = [0xaau8; 32];
    let a = ratchet_key_hmac(&key, b"send-chain-v1").unwrap();
    let b = ratchet_key_hmac(&key, b"recv-chain-v1").unwrap();
    assert_ne!(a, b);
    assert_ne!(a, key);
}

#[test]
fn blake3_keyed_hash_known_value() {
    let key = [0u8; 32];
    let h = blake3_keyed_hash(&key, b"");
    assert_ne!(h, key);
    assert_eq!(h, prove_key_knowledge(&key, b""));
}
