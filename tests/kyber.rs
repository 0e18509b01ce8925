use aegis::crypto::kyber::{Ciphertext, KeyPair, PublicKey, CIPHERTEXT_BYTES, PUBLIC_KEY_BYTES};
use aegis::crypto::CryptoError;

#[test]
fn test_keypair_generation() {
    let keypair = KeyPair::generate().unwrap();
    assert!(!keypair.public.as_bytes().is_empty());
}

#[test]
fn test_encapsulation_decapsulation() {
    let keypair = KeyPair::generate().unwrap();
    let (ss_encap, ciphertext) = keypair.public_key().encapsulate().unwrap();
    let ss_decap = keypair.decapsulate(&ciphertext).unwrap();
    assert_eq!(ss_encap.as_bytes(), ss_decap.as_bytes());
}

#[test]
fn test_public_key_serialization() {
    let keypair = KeyPair::generate().unwrap();
    let pk_bytes = keypair.public_key().as_bytes().to_vec();
    let pk_restored = PublicKey::from_bytes(pk_bytes).unwrap();
    assert_eq!(keypair.public_key().as_bytes(), pk_restored.as_bytes());
}

#[test]
fn test_ciphertext_serialization() {
    let keypair = KeyPair::generate().unwrap();
    let (_, ciphertext) = keypair.public_key().encapsulate().unwrap();
    let ct_bytes = ciphertext.as_bytes().to_vec();
    let ct_restored = Ciphertext::from_bytes(ct_bytes).unwrap();
    assert_eq!(ciphertext.as_bytes(), ct_restored.as_bytes());
}

#[test]
fn test_invalid_public_key() {
    let invalid_bytes = vec![0u8; 10];
    assert!(PublicKey::from_bytes(invalid_bytes).is_err());
}

#[test]
fn test_invalid_ciphertext() {
    let invalid_bytes = vec![0u8; 10];
    assert!(Ciphertext::from_bytes(invalid_bytes).is_err());
}

#[test]
fn kem_sizes_are_kyber1024() {
    let keypair = KeyPair::generate().unwrap();
    assert_eq!(keypair.public_key().as_bytes().len(), PUBLIC_KEY_BYTES);
    assert_eq!(PUBLIC_KEY_BYTES, 1568);
    let (ss, ct) = keypair.public_key().encapsulate().unwrap();
    assert_eq!(ct.as_bytes().len(), CIPHERTEXT_BYTES);
    assert_eq!(ss.into_bytes().len(), 32);
}

#[test]
fn wrong_lengths_are_invalid_key() {
    assert!(matches!(PublicKey::from_bytes(vec![0u8; 1567]), Err(CryptoError::InvalidKey)));
    assert!(matches!(Ciphertext::from_bytes(vec![0u8; 1569]), Err(CryptoError::InvalidKey)));
}

#[test]
fn decapsulation_is_deterministic_and_keys_differ() {
    let keypair = KeyPair::generate().unwrap();
    let (ss, ct) = keypair.public_key().encapsulate().unwrap();
    let a = keypair.decapsulate(&ct).unwrap();
    let b = keypair.decapsulate(&ct).unwrap();
    assert_eq!(a.as_bytes(), b.as_bytes());
    assert_ne!(ss.as_bytes(), &[0u8; 32]);
    let other = KeyPair::generate().unwrap();
    let c = other.decapsulate(&ct).unwrap();
    assert_ne!(a.as_bytes(), c.as_bytes());
}

#[test]
fn tampered_kem_ciphertext_gives_other_secret() {
    let keypair = KeyPair::generate().unwrap();
    let (ss, ct) = keypair.public_key().encapsulate().unwrap();
    let mut bytes = ct.as_bytes().to_vec();
    bytes[0] ^= 1;
    let tampered = Ciphertext::from_bytes(bytes).unwrap();
    let out = keypair.decapsulate(&tampered).unwrap();
    assert_ne!(out.as_bytes(), ss.as_bytes());
}
