use aegis::network::protocol::{
    frame_message, parse_framed_message, take_frame, Message, MessagePayload, MessageType, ProtocolVersion,
    MAX_MESSAGE_SIZE,
};
use aegis::network::NetworkError;

#[test]
fn test_message_type_conversion() {
    assert_eq!(MessageType::try_from(0x01).unwrap(), MessageType::Handshake);
    assert_eq!(MessageType::try_from(0x03).unwrap(), MessageType::EncryptedMessage);
    assert!(MessageType::try_from(0x99).is_err());
}

#[test]
fn test_message_serialization() {
    let msg = Message::heartbeat();
    let bytes = msg.to_bytes().unwrap();
    let restored = Message::from_bytes(&bytes).unwrap();
    assert_eq!(msg.message_type, restored.message_type);
    assert_eq!(msg.version.0, restored.version.0);
}

#[test]
fn test_message_validation() {
    let msg = Message::heartbeat();
    assert!(msg.validate().is_ok());
}

#[test]
fn test_message_framing() {
    let msg = Message::heartbeat();
    let framed = frame_message(&msg).unwrap();
    let (parsed, consumed) = parse_framed_message(&framed).unwrap();
    assert_eq!(consumed, framed.len());
    assert_eq!(parsed.message_type, msg.message_type);
}

#[test]
fn test_invalid_frame_short() {
    let data = vec![0u8; 2];
    assert!(parse_framed_message(&data).is_err());
}

#[test]
fn test_invalid_frame_incomplete() {
    let mut data = vec![0u8, 0u8, 0u8, 100u8];
    data.extend_from_slice(&[0u8; 10]);
    assert!(parse_framed_message(&data).is_err());
}

#[test]
fn test_is_recent() {
    let msg = Message::heartbeat();
    assert!(msg.is_recent());
    let mut old_msg = Message::heartbeat();
    old_msg.timestamp = 1000;
    assert!(!old_msg.is_recent());
}

fn sample(timestamp: u64) -> Message {
    let mut m = Message::encrypted([9u8; 24], vec![1, 2, 3], 0x0102030405060708, 7);
    m.timestamp = timestamp;
    m
}

#[test]
fn envelope_layout_is_byte_exact() {
    let m = sample(0x1122334455667788);
    let bytes = m.to_bytes().unwrap();
    let mut expected = vec![1u8, 0x03];
    expected.extend_from_slice(&0x1122334455667788u64.to_le_bytes());
    expected.extend_from_slice(&7u16.to_le_bytes());
    expected.push(0x03);
    expected.extend_from_slice(&[9u8; 24]);
    expected.extend_from_slice(&0x0102030405060708u64.to_le_bytes());
    expected.extend_from_slice(&3u32.to_le_bytes());
    expected.extend_from_slice(&[1, 2, 3]);
    assert_eq!(bytes, expected);
    let framed = frame_message(&m).unwrap();
    assert_eq!(&framed[..4], &(bytes.len() as u32).to_be_bytes());
    assert_eq!(&framed[4..], &bytes[..]);
}

#[test]
fn every_payload_round_trips_through_a_frame() {
    let payloads = vec![
        (MessageType::Handshake, MessagePayload::Handshake { public_key: vec![5u8; 1568] }),
        (MessageType::HandshakeResponse, MessagePayload::HandshakeResponse { ciphertext: vec![6u8; 1568] }),
        (MessageType::KeyRotation, MessagePayload::KeyRotation { new_key_id: 513 }),
        (MessageType::Ack, MessagePayload::Ack { message_id: u64::MAX }),
        (MessageType::Heartbeat, MessagePayload::Heartbeat),
        (MessageType::Disconnect, MessagePayload::Disconnect { reason: None }),
        (MessageType::Disconnect, MessagePayload::Disconnect { reason: Some("bye ✓".to_string()) }),
        (MessageType::Error, MessagePayload::Error { code: 404, message: "not found".to_string() }),
    ];
    for (t, p) in payloads {
        let m = Message::new(t, p);
        let framed = frame_message(&m).unwrap();
        let (parsed, consumed) = parse_framed_message(&framed).unwrap();
        assert_eq!(consumed, framed.len());
        assert_eq!(format!("{:?}", parsed), format!("{:?}", m));
    }
}

#[test]
fn parse_error_kinds() {
    assert_eq!(parse_framed_message(&[0, 0, 0]).err(), Some(NetworkError::InsufficientData));
    assert_eq!(parse_framed_message(&[0, 0, 0, 5, 1]).err(), Some(NetworkError::IncompleteFrame));
    assert_eq!(parse_framed_message(&[0, 0x10, 0, 1]).err(), Some(NetworkError::MessageTooLarge));
    assert!(matches!(parse_framed_message(&[0, 0, 0, 1, 1]), Err(NetworkError::SerializationError(_))));
    let mut trailing = Message::heartbeat().to_bytes().unwrap();
    trailing.push(0);
    assert!(matches!(Message::from_bytes(&trailing), Err(NetworkError::SerializationError(_))));
    assert_eq!(Message::from_bytes(&vec![0u8; MAX_MESSAGE_SIZE + 1]).err(), Some(NetworkError::MessageTooLarge));
    assert!(NetworkError::IncompleteFrame.is_recoverable());
    assert!(!NetworkError::MessageTooLarge.is_recoverable());
}

#[test]
fn unknown_type_byte_does_not_decode() {
    let mut bytes = Message::heartbeat().to_bytes().unwrap();
    bytes[1] = 0x99;
    assert!(matches!(Message::from_bytes(&bytes), Err(NetworkError::SerializationError(_))));
}

#[test]
fn invalid_utf8_text_does_not_decode() {
    let m = Message::error(1, "ab".to_string());
    let mut bytes = m.to_bytes().unwrap();
    let n = bytes.len();
    bytes[n - 1] = 0xff;
    assert!(matches!(Message::from_bytes(&bytes), Err(NetworkError::SerializationError(_))));
}

#[test]
fn frames_are_taken_one_at_a_time() {
    let a = frame_message(&Message::heartbeat()).unwrap();
    let b = frame_message(&Message::disconnect(None)).unwrap();
    let mut buffer = a.clone();
    buffer.extend_from_slice(&b[..3]);
    let first = take_frame(&mut buffer).unwrap().unwrap();
    assert_eq!(first.message_type, MessageType::Heartbeat);
    assert_eq!(buffer.len(), 3);
    assert!(take_frame(&mut buffer).unwrap().is_none());
    buffer.extend_from_slice(&b[3..]);
    let second = take_frame(&mut buffer).unwrap().unwrap();
    assert_eq!(second.message_type, MessageType::Disconnect);
    assert!(buffer.is_empty());
}

#[test]
fn validation_rules() {
    assert!(sample(1000).validate_at(1000).is_ok());
    assert!(sample(1300).validate_at(1000).is_ok());
    assert!(matches!(sample(1301).validate_at(1000), Err(NetworkError::ProtocolError(_))));
    let mut v2 = sample(0);
    v2.version = ProtocolVersion(2);
    assert!(v2.validate_at(0).is_err());
    let mut mismatch = sample(0);
    mismatch.message_type = MessageType::Ack;
    assert!(mismatch.validate_at(0).is_err());
    assert_eq!(ProtocolVersion::default(), ProtocolVersion(1));
}

#[test]
fn recency_window() {
    let m = sample(1000);
    assert!(m.is_recent_at(1059));
    assert!(!m.is_recent_at(1060));
    assert!(m.is_recent_at(900));
}

#[test]
fn constructors_fill_the_envelope() {
    let m = Message::encrypted([0u8; 24], vec![], 3, 9);
    assert_eq!(m.key_id, 9);
    assert_eq!(m.version, ProtocolVersion(1));
    let d = Message::disconnect(Some("x".to_string()));
    assert_eq!(d.message_type, MessageType::Disconnect);
    assert_eq!(d.key_id, 0);
    assert_eq!(MessageType::Error.to_byte(), 0xff);
}

#[test]
fn stamped_message_round_trips_exactly() {
    let m = Message::new_at(MessageType::Ack, MessagePayload::Ack { message_id: 42 }, 1234);
    assert_eq!(m.timestamp, 1234);
    let framed = frame_message(&m).unwrap();
    let (parsed, consumed) = parse_framed_message(&framed).unwrap();
    assert_eq!(consumed, framed.len());
    assert_eq!(format!("{:?}", parsed), format!("{:?}", m));
}
