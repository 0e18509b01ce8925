use aegis::crypto::random::{generate_key, generate_nonce, secure_random_bytes, SecureRng};

#[test]
fn test_random_bytes_length() {
    let bytes = secure_random_bytes(32).unwrap();
    assert_eq!(bytes.len(), 32);
}

#[test]
fn test_random_bytes_uniqueness() {
    let bytes1 = secure_random_bytes(32).unwrap();
    let bytes2 = secure_random_bytes(32).unwrap();
    assert_ne!(bytes1, bytes2);
}

#[test]
fn test_generate_key() {
    let key = generate_key().unwrap();
    assert_eq!(key.len(), 32);
}

#[test]
fn test_generate_nonce() {
    let nonce = generate_nonce().unwrap();
    assert_eq!(nonce.len(), 24);
}

#[test]
fn test_secure_rng() {
    let mut rng = SecureRng::new();
    let mut buffer = [0u8; 32];
    rng.fill_bytes(&mut buffer);
    assert_ne!(buffer, [0u8; 32]);
}

#[test]
fn random_bytes_of_zero_length() {
    assert_eq!(secure_random_bytes(0).unwrap().len(), 0);
}
