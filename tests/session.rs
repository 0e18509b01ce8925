use aegis::clock::current_timestamp;
use aegis::crypto::kyber::KeyPair;
use aegis::network::protocol::{frame_message, parse_framed_message, Message, MessagePayload, MessageType};
use aegis::network::NetworkError;
use aegis::session::{
    complete_handshake_at, handshake_message, respond_to_handshake_at, responder_keys, Incoming, SessionRole,
    SessionState,
};

/// Runs the handshake through framed bytes and returns (initiator, responder).
fn handshake() -> (SessionState, SessionState) {
    let now = current_timestamp();
    let keypair = KeyPair::generate().unwrap();
    let hello = handshake_message(&keypair);
    let (hello, _) = parse_framed_message(&frame_message(&hello).unwrap()).unwrap();
    let (response, responder_ratchet) = respond_to_handshake_at(&hello, now).unwrap();
    let (response, _) = parse_framed_message(&frame_message(&response).unwrap()).unwrap();
    let initiator_ratchet = complete_handshake_at(&keypair, &response, now).unwrap();
    (
        SessionState::new(initiator_ratchet, SessionRole::Initiator),
        SessionState::new(responder_ratchet, SessionRole::Responder),
    )
}

fn wire(m: &Message) -> Message {
    parse_framed_message(&frame_message(m).unwrap()).unwrap().0
}

fn recv_data(s: &mut SessionState, m: Message) -> Vec<u8> {
    match s.process_incoming(m).unwrap() {
        Incoming::Data(d) => d,
        Incoming::Heartbeat => panic!("expected data"),
    }
}

#[test]
fn handshake_and_single_exchange() {
    let (mut alice, mut bob) = handshake();
    let ping = alice.prepare_send(b"ping").unwrap();
    assert_eq!(recv_data(&mut bob, wire(&ping)), b"ping".to_vec());
    let pong = bob.prepare_send(b"pong").unwrap();
    assert_eq!(recv_data(&mut alice, wire(&pong)), b"pong".to_vec());
    assert!(alice.is_established());
    assert!(bob.is_established());
    assert_eq!(alice.role(), SessionRole::Initiator);
}

#[test]
fn three_sequential_messages() {
    let (mut alice, mut bob) = handshake();
    for i in 0..3 {
        let text = format!("Message {}", i);
        let m = alice.prepare_send(text.as_bytes()).unwrap();
        assert_eq!(recv_data(&mut bob, wire(&m)), text.into_bytes());
    }
    assert_eq!(bob.ratchet().recv_counter(), 3);
}

#[test]
fn large_message() {
    let (mut alice, mut bob) = handshake();
    let data = vec![0x42u8; 102400];
    let m = alice.prepare_send(&data).unwrap();
    let got = recv_data(&mut bob, wire(&m));
    assert_eq!(got.len(), 102400);
    assert!(got.iter().all(|&b| b == 0x42));
}

#[test]
fn coordinated_rotation() {
    let (mut alice, mut bob) = handshake();
    let now = current_timestamp();
    let m1 = alice.prepare_send_at(b"Before rotation", now).unwrap();
    assert_eq!(
        match bob.process_incoming_at(wire(&m1), now).unwrap() {
            Incoming::Data(d) => d,
            Incoming::Heartbeat => panic!("expected data"),
        },
        b"Before rotation".to_vec()
    );
    alice.rotate_at(now).unwrap();
    bob.rotate_at(now).unwrap();
    let m2 = alice.prepare_send_at(b"After rotation", now).unwrap();
    assert_eq!(
        match bob.process_incoming_at(wire(&m2), now).unwrap() {
            Incoming::Data(d) => d,
            Incoming::Heartbeat => panic!("expected data"),
        },
        b"After rotation".to_vec()
    );
}

#[test]
fn rotation_at_different_seconds_desynchronizes() {
    let (mut alice, mut bob) = handshake();
    let now = current_timestamp();
    alice.rotate_at(now).unwrap();
    bob.rotate_at(now + 1).unwrap();
    let m = alice.prepare_send_at(b"drift", now).unwrap();
    assert_eq!(bob.process_incoming_at(wire(&m), now).err(), Some(NetworkError::AuthenticationFailed));
}

#[test]
fn skipped_message_recovery() {
    let (mut alice, mut bob) = handshake();
    let msgs: Vec<Message> = (0..6).map(|i| alice.prepare_send(format!("m{}", i).as_bytes()).unwrap()).collect();
    assert_eq!(recv_data(&mut bob, wire(&msgs[5])), b"m5".to_vec());
    for i in 0..5 {
        assert_eq!(recv_data(&mut bob, wire(&msgs[i])), format!("m{}", i).into_bytes());
    }
    assert_eq!(bob.ratchet().skipped_key_count(), 0);
}

#[test]
fn tampered_ciphertext_ends_the_session() {
    let (mut alice, mut bob) = handshake();
    let mut m = wire(&alice.prepare_send(b"secret").unwrap());
    if let MessagePayload::EncryptedData { ciphertext, .. } = &mut m.payload {
        ciphertext[0] ^= 1;
    }
    assert_eq!(bob.process_incoming(m).err(), Some(NetworkError::AuthenticationFailed));
    assert!(!bob.is_established());
}

#[test]
fn replayed_message_is_rejected() {
    let (mut alice, mut bob) = handshake();
    let m = alice.prepare_send(b"once").unwrap();
    let framed = frame_message(&m).unwrap();
    let first = parse_framed_message(&framed).unwrap().0;
    let again = parse_framed_message(&framed).unwrap().0;
    assert_eq!(recv_data(&mut bob, first), b"once".to_vec());
    assert!(bob.process_incoming(again).is_err());
}

#[test]
fn heartbeat_and_disconnect() {
    let (_, mut bob) = handshake();
    assert!(matches!(bob.process_incoming(Message::heartbeat()), Ok(Incoming::Heartbeat)));
    assert!(bob.is_established());
    assert_eq!(bob.process_incoming(Message::disconnect(None)).err(), Some(NetworkError::ConnectionClosed));
    assert!(!bob.is_established());
    assert!(matches!(bob.prepare_send(b"x"), Err(NetworkError::ConnectionError(_))));
}

#[test]
fn unexpected_types_are_protocol_errors() {
    let (_, mut bob) = handshake();
    let ack = Message::new(MessageType::Ack, MessagePayload::Ack { message_id: 1 });
    assert!(matches!(bob.process_incoming(ack), Err(NetworkError::ProtocolError(_))));
    assert!(bob.is_established());
    let keypair = KeyPair::generate().unwrap();
    assert!(matches!(
        complete_handshake_at(&keypair, &Message::heartbeat(), current_timestamp()),
        Err(NetworkError::ProtocolError(_))
    ));
    let bad = Message::new(MessageType::Handshake, MessagePayload::Handshake { public_key: vec![1, 2, 3] });
    assert!(matches!(respond_to_handshake_at(&bad, current_timestamp()), Err(NetworkError::ProtocolError(_))));
}

#[test]
fn keys_before_and_after_rotation_differ() {
    let (mut alice, _) = handshake();
    let before = alice.prepare_send_at(b"x", 0).unwrap();
    alice.rotate().unwrap();
    let after = alice.prepare_send_at(b"x", 0).unwrap();
    let ct = |m: &Message| match &m.payload {
        MessagePayload::EncryptedData { ciphertext, .. } => ciphertext.clone(),
        _ => panic!(),
    };
    assert_ne!(ct(&before), ct(&after));
}

#[test]
fn responder_keys_match_the_initiator() {
    let keypair = KeyPair::generate().unwrap();
    let (ss, ct) = keypair.public_key().encapsulate().unwrap();
    let (response, responder) = responder_keys(&ss, ct);
    assert_eq!(response.message_type, MessageType::HandshakeResponse);
    let initiator = complete_handshake_at(&keypair, &response, current_timestamp()).unwrap();
    let mut alice = SessionState::new(initiator, SessionRole::Initiator);
    let mut bob = SessionState::new(responder, SessionRole::Responder);
    let m = alice.prepare_send(b"hi").unwrap();
    assert_eq!(recv_data(&mut bob, wire(&m)), b"hi".to_vec());
}

#[test]
fn sent_messages_carry_the_send_time_and_current_version() {
    let (mut alice, mut bob) = handshake();
    let now = current_timestamp();
    let m = alice.prepare_send_at(b"stamped", now).unwrap();
    assert_eq!(m.timestamp, now);
    assert_eq!(m.version.0, 1);
    assert_eq!(m.message_type, MessageType::EncryptedMessage);
    match bob.process_incoming_at(wire(&m), now).unwrap() {
        Incoming::Data(d) => assert_eq!(d, b"stamped".to_vec()),
        Incoming::Heartbeat => panic!("expected data"),
    }
    assert_eq!(bob.ratchet().recv_counter(), 1);
}
