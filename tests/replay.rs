use aegis::clock::current_timestamp;
use aegis::security::replay::{ReplayProtection, MAX_TIME_SKEW_SECS};

#[test]
fn test_replay_protection_new_message() {
    let mut rp = ReplayProtection::new();
    let now = current_timestamp();
    assert!(rp.check_message(1, now));
    assert_eq!(rp.current_sequence(), 1);
}

#[test]
fn test_replay_protection_duplicate() {
    let mut rp = ReplayProtection::new();
    let now = current_timestamp();
    assert!(rp.check_message(1, now));
    assert!(!rp.check_message(1, now));
}

#[test]
fn test_replay_protection_out_of_order() {
    let mut rp = ReplayProtection::new();
    let now = current_timestamp();
    assert!(rp.check_message(3, now));
    assert!(rp.check_message(1, now));
    assert!(rp.check_message(2, now));
}

#[test]
fn test_replay_protection_old_timestamp() {
    let mut rp = ReplayProtection::new();
    let now = current_timestamp();
    let old = now - MAX_TIME_SKEW_SECS - 100;
    assert!(!rp.check_message(1, old));
}

#[test]
fn test_replay_protection_future_timestamp() {
    let mut rp = ReplayProtection::new();
    let now = current_timestamp();
    let future = now + MAX_TIME_SKEW_SECS + 100;
    assert!(!rp.check_message(1, future));
}

#[test]
fn test_replay_protection_sequence_ordering() {
    let mut rp = ReplayProtection::new();
    let now = current_timestamp();
    assert!(rp.check_message(5, now));
    assert_eq!(rp.current_sequence(), 5);
    assert!(rp.check_message(10, now));
    assert_eq!(rp.current_sequence(), 10);
    assert!(rp.check_message(7, now));
    assert_eq!(rp.current_sequence(), 10);
}

#[test]
fn test_replay_protection_reset() {
    let mut rp = ReplayProtection::new();
    let now = current_timestamp();
    rp.check_message(1, now);
    rp.check_message(2, now);
    rp.reset();
    assert_eq!(rp.current_sequence(), 0);
    assert!(rp.check_message(1, now));
}

#[test]
fn test_timestamp_validity() {
    let rp = ReplayProtection::new();
    let now = current_timestamp();
    assert!(rp.is_timestamp_valid(now));
    assert!(rp.is_timestamp_valid(now - 100));
    assert!(rp.is_timestamp_valid(now + 100));
    assert!(!rp.is_timestamp_valid(now - MAX_TIME_SKEW_SECS - 10));
    assert!(!rp.is_timestamp_valid(now + MAX_TIME_SKEW_SECS + 10));
}

#[test]
fn window_edges_with_a_fixed_clock() {
    let mut rp = ReplayProtection::new();
    assert!(rp.check_message_at(20000, 500, 500));
    assert!(rp.check_message_at(10000, 200, 500));
    assert!(!rp.check_message_at(9999, 500, 500));
    assert!(!rp.check_message_at(10000, 500, 500));
    assert!(rp.check_message_at(10001, 800, 500));
    assert!(!rp.check_message_at(10002, 801, 500));
    assert!(rp.is_timestamp_valid_at(0, 300));
    assert!(!rp.is_timestamp_valid_at(0, 301));
}

#[test]
fn eviction_keeps_the_window() {
    let mut rp = ReplayProtection::new();
    for s in 0..=10000u64 {
        assert!(rp.check_message_at(s, 0, 0));
    }
    // 10 001 entries: the one on the window's edge was evicted.
    for s in 1..=10000u64 {
        assert!(!rp.check_message_at(s, 0, 0));
    }
    assert!(rp.check_message_at(20001, 0, 0));
    assert!(!rp.check_message_at(10000, 0, 0));
}

#[test]
fn sequence_on_the_window_edge_is_forgotten_after_eviction() {
    let mut rp = ReplayProtection::new();
    for s in 0..=10000u64 {
        assert!(rp.check_message_at(s, 0, 0));
    }
    // Sequence 0 was evicted and sits exactly on the lower edge (10000 - 10000),
    // which the window still admits.
    assert!(rp.check_message_at(0, 0, 0));
}
