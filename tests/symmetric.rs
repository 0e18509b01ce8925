use aegis::crypto::random::generate_key;
use aegis::crypto::symmetric::{
    constant_time_compare, decrypt, decrypt_simple, encrypt, encrypt_simple, encrypt_with_nonce, SymmetricKey,
};
use aegis::crypto::CryptoError;

#[test]
fn test_encryption_decryption() {
    let key_bytes = generate_key().unwrap();
    let key = SymmetricKey::new(key_bytes);
    let plaintext = b"Hello, Aegis!";
    let encrypted = encrypt_simple(&key, plaintext).unwrap();
    let decrypted = decrypt_simple(&key, &encrypted).unwrap();
    assert_eq!(plaintext.as_slice(), decrypted.as_slice());
}

#[test]
fn test_encryption_with_aad() {
    let key_bytes = generate_key().unwrap();
    let key = SymmetricKey::new(key_bytes);
    let plaintext = b"Secret message";
    let aad = b"Additional authenticated data";
    let encrypted = encrypt(&key, plaintext, aad).unwrap();
    let decrypted = decrypt(&key, &encrypted, aad).unwrap();
    assert_eq!(plaintext.as_slice(), decrypted.as_slice());
}

#[test]
fn test_tampered_ciphertext() {
    let key_bytes = generate_key().unwrap();
    let key = SymmetricKey::new(key_bytes);
    let plaintext = b"Secret message";
    let mut encrypted = encrypt_simple(&key, plaintext).unwrap();
    if !encrypted.ciphertext.is_empty() {
        encrypted.ciphertext[0] ^= 1;
    }
    assert!(decrypt_simple(&key, &encrypted).is_err());
}

#[test]
fn test_wrong_key() {
    let key1_bytes = generate_key().unwrap();
    let key1 = SymmetricKey::new(key1_bytes);
    let key2_bytes = generate_key().unwrap();
    let key2 = SymmetricKey::new(key2_bytes);
    let plaintext = b"Secret message";
    let encrypted = encrypt_simple(&key1, plaintext).unwrap();
    assert!(decrypt_simple(&key2, &encrypted).is_err());
}

#[test]
fn test_tampered_aad() {
    let key_bytes = generate_key().unwrap();
    let key = SymmetricKey::new(key_bytes);
    let plaintext = b"Secret message";
    let aad1 = b"AAD version 1";
    let aad2 = b"AAD version 2";
    let encrypted = encrypt(&key, plaintext, aad1).unwrap();
    assert!(decrypt(&key, &encrypted, aad2).is_err());
}

#[test]
fn test_unique_nonces() {
    let key_bytes = generate_key().unwrap();
    let key = SymmetricKey::new(key_bytes);
    let plaintext = b"Test";
    let encrypted1 = encrypt_simple(&key, plaintext).unwrap();
    let encrypted2 = encrypt_simple(&key, plaintext).unwrap();
    assert_ne!(encrypted1.nonce, encrypted2.nonce);
}

#[test]
fn test_constant_time_compare() {
    let a = b"test123";
    let b = b"test123";
    let c = b"test124";
    assert!(constant_time_compare(a, b));
    assert!(!constant_time_compare(a, c));
    assert!(!constant_time_compare(a, b"different length"));
}

#[test]
fn test_symmetric_key_from_slice() {
    let bytes = [42u8; 32];
    let key = SymmetricKey::from_slice(&bytes).unwrap();
    assert_eq!(key.as_bytes(), &bytes);
}

#[test]
fn test_invalid_key_length() {
    let bytes = [42u8; 16];
    assert!(SymmetricKey::from_slice(&bytes).is_err());
}

#[test]
fn ciphertext_carries_a_sixteen_byte_tag() {
    let key = SymmetricKey::new([1u8; 32]);
    let encrypted = encrypt_simple(&key, b"abc").unwrap();
    assert_eq!(encrypted.ciphertext.len(), 3 + 16);
    assert_ne!(&encrypted.ciphertext[..3], b"abc");
}

#[test]
fn encryption_under_a_fixed_nonce_is_deterministic() {
    let key = SymmetricKey::new([2u8; 32]);
    let a = encrypt_with_nonce(&key, [7u8; 24], b"hello", b"aad").unwrap();
    let b = encrypt_with_nonce(&key, [7u8; 24], b"hello", b"aad").unwrap();
    assert_eq!(a.ciphertext, b.ciphertext);
    assert_eq!(a.nonce, [7u8; 24]);
    assert_eq!(decrypt(&key, &a, b"aad").unwrap(), b"hello".to_vec());
}

#[test]
fn every_tampered_byte_is_rejected() {
    let key = SymmetricKey::new([3u8; 32]);
    let encrypted = encrypt(&key, b"tamper me", b"hdr").unwrap();
    for i in 0..encrypted.ciphertext.len() {
        let mut t = encrypted.clone();
        t.ciphertext[i] ^= 0x80;
        assert_eq!(decrypt(&key, &t, b"hdr"), Err(CryptoError::AuthenticationFailed));
    }
    for i in 0..24 {
        let mut t = encrypted.clone();
        t.nonce[i] ^= 1;
        assert_eq!(decrypt(&key, &t, b"hdr"), Err(CryptoError::AuthenticationFailed));
    }
    assert_eq!(decrypt(&key, &encrypted, b"hdR"), Err(CryptoError::AuthenticationFailed));
}

#[test]
fn empty_plaintext_round_trips() {
    let key = SymmetricKey::new([4u8; 32]);
    let encrypted = encrypt_simple(&key, b"").unwrap();
    assert_eq!(encrypted.ciphertext.len(), 16);
    assert_eq!(decrypt_simple(&key, &encrypted).unwrap(), Vec::<u8>::new());
}

#[test]
fn truncated_ciphertext_is_rejected() {
    let key = SymmetricKey::new([5u8; 32]);
    let mut encrypted = encrypt_simple(&key, b"xyz").unwrap();
    encrypted.ciphertext.truncate(10);
    assert_eq!(decrypt_simple(&key, &encrypted), Err(CryptoError::AuthenticationFailed));
}
