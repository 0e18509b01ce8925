use aegis::crypto::kdf::{derive_chain_key, derive_message_key, ratchet_key_hmac};
use aegis::crypto::ratchet::{RatchetError, RatchetState, MAX_SKIP, ROTATION_INTERVAL_SECS};
use aegis::crypto::CryptoError;

#[test]
fn test_ratchet_initialization() {
    let root_key = [1u8; 32];
    let ratchet = RatchetState::new(root_key);
    assert_eq!(ratchet.send_counter(), 0);
    assert_eq!(ratchet.recv_counter(), 0);
}

#[test]
fn test_send_key_generation() {
    let root_key = [2u8; 32];
    let mut ratchet = RatchetState::new(root_key);
    let (key1, counter1) = ratchet.next_send_key().unwrap();
    let (key2, counter2) = ratchet.next_send_key().unwrap();
    assert_eq!(counter1, 0);
    assert_eq!(counter2, 1);
    assert_ne!(key1.as_bytes(), key2.as_bytes());
    assert_eq!(ratchet.send_counter(), 2);
}

#[test]
fn test_recv_key_in_order() {
    let root_key = [3u8; 32];
    let mut ratchet = RatchetState::new(root_key);
    let key1 = ratchet.get_recv_key(0).unwrap();
    let key2 = ratchet.get_recv_key(1).unwrap();
    assert_ne!(key1.as_bytes(), key2.as_bytes());
    assert_eq!(ratchet.recv_counter(), 2);
}

#[test]
fn test_recv_key_out_of_order() {
    let root_key = [4u8; 32];
    let mut ratchet = RatchetState::new(root_key);
    let key2 = ratchet.get_recv_key(2).unwrap();
    let key0 = ratchet.get_recv_key(0).unwrap();
    let key1 = ratchet.get_recv_key(1).unwrap();
    assert_ne!(key0.as_bytes(), key1.as_bytes());
    assert_ne!(key1.as_bytes(), key2.as_bytes());
    assert_ne!(key0.as_bytes(), key2.as_bytes());
}

#[test]
fn test_too_many_skipped() {
    let root_key = [5u8; 32];
    let mut ratchet = RatchetState::new(root_key);
    let result = ratchet.get_recv_key(MAX_SKIP as u64 + 10);
    assert!(result.is_err());
}

#[test]
fn test_manual_rotation() {
    let root_key = [6u8; 32];
    let mut ratchet = RatchetState::new(root_key);
    let (key1, _) = ratchet.next_send_key().unwrap();
    ratchet.rotate().unwrap();
    let (key2, _) = ratchet.next_send_key().unwrap();
    assert_ne!(key1.as_bytes(), key2.as_bytes());
}

#[test]
fn test_rekey() {
    let root_key1 = [7u8; 32];
    let mut ratchet = RatchetState::new(root_key1);
    let (key1, _) = ratchet.next_send_key().unwrap();
    assert_eq!(ratchet.send_counter(), 1);
    let root_key2 = [8u8; 32];
    ratchet.rekey(root_key2).unwrap();
    assert_eq!(ratchet.send_counter(), 0);
    let (key2, _) = ratchet.next_send_key().unwrap();
    assert_ne!(key1.as_bytes(), key2.as_bytes());
}

#[test]
fn test_seconds_until_rotation() {
    let root_key = [9u8; 32];
    let ratchet = RatchetState::new(root_key);
    let seconds = ratchet.seconds_until_rotation();
    assert!(seconds <= ROTATION_INTERVAL_SECS);
}

#[test]
fn initiator_send_chain_is_responder_recv_chain() {
    let root = [20u8; 32];
    let mut alice = RatchetState::new(root);
    let mut bob = RatchetState::new_responder(root);
    for _ in 0..3 {
        let (k, c) = alice.next_send_key().unwrap();
        let r = bob.get_recv_key(c).unwrap();
        assert_eq!(k.as_bytes(), r.as_bytes());
    }
    let (k, c) = bob.next_send_key().unwrap();
    assert_eq!(alice.get_recv_key(c).unwrap().as_bytes(), k.as_bytes());
}

#[test]
fn first_send_key_follows_the_key_schedule() {
    let root = [21u8; 32];
    let mut r = RatchetState::new(root);
    let (k, c) = r.next_send_key_at(0).unwrap();
    let chain = ratchet_key_hmac(&root, b"send-chain-v1").unwrap();
    assert_eq!(c, 0);
    assert_eq!(k.as_bytes(), derive_message_key(&chain, 0).unwrap().as_bytes());
    let (k1, c1) = r.next_send_key_at(0).unwrap();
    let chain1 = derive_chain_key(&chain, b"chain-advance").unwrap();
    assert_eq!(c1, 1);
    assert_eq!(k1.as_bytes(), derive_message_key(&chain1, 1).unwrap().as_bytes());
}

#[test]
fn rotation_mixes_the_second_into_both_chains() {
    let root = [22u8; 32];
    let mut r = RatchetState::new(root);
    r.rotate_at(1000).unwrap();
    let mut context = b"rotation-v1-".to_vec();
    context.extend_from_slice(&1000u64.to_le_bytes());
    let send0 = ratchet_key_hmac(&root, b"send-chain-v1").unwrap();
    let send = ratchet_key_hmac(&send0, &context).unwrap();
    let (k, c) = r.next_send_key_at(1000).unwrap();
    assert_eq!(c, 0);
    assert_eq!(k.as_bytes(), derive_message_key(&send, 0).unwrap().as_bytes());
    assert_eq!(r.seconds_until_rotation_at(1000), 60);
    assert_eq!(r.seconds_until_rotation_at(1030), 30);
    assert_eq!(r.seconds_until_rotation_at(1100), 0);
    assert_eq!(r.seconds_until_rotation_at(10), 60);
}

#[test]
fn send_rotates_when_interval_has_passed() {
    let root = [23u8; 32];
    let mut a = RatchetState::new(root);
    let mut b = RatchetState::new(root);
    a.rotate_at(5000).unwrap();
    b.rotate_at(5000).unwrap();
    let (ka, _) = a.next_send_key_at(5059).unwrap();
    let (kb, _) = b.next_send_key_at(5060).unwrap();
    assert_ne!(ka.as_bytes(), kb.as_bytes());
    assert_eq!(b.seconds_until_rotation_at(5060), 60);
}

#[test]
fn receiving_behind_the_window_is_key_not_found() {
    let mut r = RatchetState::new([24u8; 32]);
    r.get_recv_key(0).unwrap();
    assert_eq!(
        r.get_recv_key(0).err(),
        Some(CryptoError::RatchetError(RatchetError::MessageKeyNotFound))
    );
}

#[test]
fn skipping_exactly_max_skip_is_allowed() {
    let mut r = RatchetState::new([25u8; 32]);
    assert!(r.get_recv_key(MAX_SKIP).is_ok());
    assert_eq!(r.skipped_key_count(), 1000);
    assert_eq!(r.recv_counter(), MAX_SKIP + 1);
    let mut s = RatchetState::new([25u8; 32]);
    assert_eq!(
        s.get_recv_key(MAX_SKIP + 1).err(),
        Some(CryptoError::RatchetError(RatchetError::TooManySkippedMessages))
    );
    assert_eq!(s.recv_counter(), 0);
}

#[test]
fn rotation_clears_a_large_cache_only() {
    let mut r = RatchetState::new([26u8; 32]);
    r.get_recv_key(100).unwrap();
    assert_eq!(r.skipped_key_count(), 100);
    r.rotate_at(1).unwrap();
    assert_eq!(r.skipped_key_count(), 100);
    r.get_recv_key(202).unwrap();
    assert_eq!(r.skipped_key_count(), 201);
    r.rotate_at(2).unwrap();
    assert_eq!(r.skipped_key_count(), 0);
}

#[test]
fn out_of_order_receipt_gives_the_in_order_keys() {
    let root = [27u8; 32];
    let mut in_order = RatchetState::new(root);
    let expected: Vec<[u8; 32]> = (0..6u64).map(|c| *in_order.get_recv_key(c).unwrap().as_bytes()).collect();
    for order in [[5u64, 0, 1, 2, 3, 4], [3, 1, 5, 0, 4, 2], [0, 2, 1, 4, 3, 5]] {
        let mut r = RatchetState::new(root);
        for c in order {
            assert_eq!(r.get_recv_key(c).unwrap().as_bytes(), &expected[c as usize]);
        }
        assert_eq!(r.skipped_key_count(), 0);
        assert_eq!(r.recv_counter(), 6);
    }
}

#[test]
fn rekey_resets_everything() {
    let mut r = RatchetState::new([28u8; 32]);
    r.get_recv_key(5).unwrap();
    r.rekey([29u8; 32]).unwrap();
    assert_eq!(r.recv_counter(), 0);
    assert_eq!(r.skipped_key_count(), 0);
    let mut fresh = RatchetState::new([29u8; 32]);
    assert_eq!(r.get_recv_key(0).unwrap().as_bytes(), fresh.get_recv_key(0).unwrap().as_bytes());
}

#[test]
fn skipped_key_cache_never_exceeds_max_skip() {
    let mut r = RatchetState::new([30u8; 32]);
    r.get_recv_key(MAX_SKIP).unwrap();
    assert_eq!(r.skipped_key_count(), 1000);
    assert_eq!(
        r.get_recv_key(MAX_SKIP + 2).err(),
        Some(CryptoError::RatchetError(RatchetError::TooManySkippedMessages))
    );
    assert_eq!(r.skipped_key_count(), 1000);
    assert!(r.get_recv_key(MAX_SKIP + 1).is_ok());
    r.get_recv_key(0).unwrap();
    assert!(r.get_recv_key(MAX_SKIP + 3).is_ok());
    assert_eq!(r.skipped_key_count(), 1000);
}

#[test]
fn any_permutation_of_a_full_window_yields_the_in_order_keys() {
    let root = [31u8; 32];
    let n = MAX_SKIP + 1;
    let mut in_order = RatchetState::new(root);
    let expected: Vec<[u8; 32]> = (0..n).map(|c| *in_order.get_recv_key(c).unwrap().as_bytes()).collect();
    let mut reversed = RatchetState::new(root);
    for c in (0..n).rev() {
        assert_eq!(reversed.get_recv_key(c).unwrap().as_bytes(), &expected[c as usize]);
    }
    assert_eq!(reversed.skipped_key_count(), 0);
    assert_eq!(reversed.recv_counter(), n);
    let mut interleaved = RatchetState::new(root);
    let order: Vec<u64> = (0..n).map(|i| (i * 389) % n).collect();
    for c in order {
        assert_eq!(interleaved.get_recv_key(c).unwrap().as_bytes(), &expected[c as usize]);
    }
    assert_eq!(interleaved.skipped_key_count(), 0);
    assert_eq!(interleaved.recv_counter(), n);
}
