//! Message envelope, its byte encoding, and length-prefixed framing.
//!
//! Envelope: `version (u8) | message_type (u8) | timestamp (u64 LE) |
//! key_id (u16 LE) | payload`. The payload starts with its own variant byte
//! (numbered as the message types), followed by its fields; byte strings are
//! written as a `u32` LE length and the bytes, text as its UTF-8 bytes in the
//! same form. A frame is the envelope prefixed by its length as a big-endian
//! `u32`.
use vstd::prelude::*;
use vstd::bytes::*;
use vstd::utf8::*;
use vstd::string::*;
use crate::bytes::{append_bytes, copy_range, to_array24, be32_bytes, be32_value, u32_to_be_bytes, u32_from_be_bytes, lemma_be32_round_trip};
use crate::clock::current_timestamp;
use super::NetworkError;
use crate::crypto::kyber::{Ciphertext as KyberCiphertext, PublicKey};

verus! {

broadcast use vstd::utf8::group_utf8_lib;

/// Highest protocol version this library speaks.
pub const CURRENT_PROTOCOL_VERSION: u8 = 1;

/// Largest accepted envelope, in bytes.
pub const MAX_MESSAGE_SIZE: usize = 1048576;

/// Tolerated clock skew, in seconds.
pub const MAX_CLOCK_SKEW_SECS: u64 = 300;

/// Age below which a message counts as recent, in seconds.
pub const RECENT_WINDOW_SECS: u64 = 60;

/// Protocol version carried by every message.
#[derive(Debug, Clone, Copy, PartialEq, Eq, Structural)]
pub struct ProtocolVersion(pub u8);

impl ProtocolVersion {
    /// The version this library writes.
    pub fn current() -> (r: Self)
        ensures
            r.0 == CURRENT_PROTOCOL_VERSION,
    {
        ProtocolVersion(CURRENT_PROTOCOL_VERSION)
    }
}

impl Default for ProtocolVersion {
    fn default() -> (r: Self)
        ensures
            r.0 == CURRENT_PROTOCOL_VERSION,
    {
        ProtocolVersion(CURRENT_PROTOCOL_VERSION)
    }
}

/// Kinds of protocol message.
#[derive(Debug, Clone, Copy, PartialEq, Eq, Structural)]
pub enum MessageType {
    /// Initiator's KEM public key.
    Handshake,
    /// Responder's KEM ciphertext.
    HandshakeResponse,
    /// An AEAD-protected application message.
    EncryptedMessage,
    /// Announcement of a new key generation.
    KeyRotation,
    /// Acknowledgement.
    Ack,
    /// Keep-alive.
    Heartbeat,
    /// Orderly shutdown.
    Disconnect,
    /// Error report.
    Error,
}

/// Wire byte of each message type.
pub open spec fn type_byte(t: MessageType) -> u8 {
    match t {
        MessageType::Handshake => 0x01,
        MessageType::HandshakeResponse => 0x02,
        MessageType::EncryptedMessage => 0x03,
        MessageType::KeyRotation => 0x04,
        MessageType::Ack => 0x05,
        MessageType::Heartbeat => 0x06,
        MessageType::Disconnect => 0x07,
        MessageType::Error => 0xff,
    }
}

/// Message type with the given wire byte, if any.
pub open spec fn type_of_byte(b: u8) -> Option<MessageType> {
    if b == 0x01 {
        Some(MessageType::Handshake)
    } else if b == 0x02 {
        Some(MessageType::HandshakeResponse)
    } else if b == 0x03 {
        Some(MessageType::EncryptedMessage)
    } else if b == 0x04 {
        Some(MessageType::KeyRotation)
    } else if b == 0x05 {
        Some(MessageType::Ack)
    } else if b == 0x06 {
        Some(MessageType::Heartbeat)
    } else if b == 0x07 {
        Some(MessageType::Disconnect)
    } else if b == 0xff {
        Some(MessageType::Error)
    } else {
        None
    }
}

impl MessageType {
    /// The type's wire byte.
    pub fn to_byte(self) -> (r: u8)
        ensures
            r == type_byte(self),
    {
        match self {
            MessageType::Handshake => 0x01,
            MessageType::HandshakeResponse => 0x02,
            MessageType::EncryptedMessage => 0x03,
            MessageType::KeyRotation => 0x04,
            MessageType::Ack => 0x05,
            MessageType::Heartbeat => 0x06,
            MessageType::Disconnect => 0x07,
            MessageType::Error => 0xff,
        }
    }

    /// The type with wire byte `value`; a protocol error for unknown bytes.
    pub fn try_from(value: u8) -> (r: Result<MessageType, NetworkError>)
        ensures
            match type_of_byte(value) {
                Some(t) => r == Ok::<MessageType, NetworkError>(t),
                None => r matches Err(NetworkError::ProtocolError(_)),
            },
    {
        if value == 0x01 {
            Ok(MessageType::Handshake)
        } else if value == 0x02 {
            Ok(MessageType::HandshakeResponse)
        } else if value == 0x03 {
            Ok(MessageType::EncryptedMessage)
        } else if value == 0x04 {
            Ok(MessageType::KeyRotation)
        } else if value == 0x05 {
            Ok(MessageType::Ack)
        } else if value == 0x06 {
            Ok(MessageType::Heartbeat)
        } else if value == 0x07 {
            Ok(MessageType::Disconnect)
        } else if value == 0xff {
            Ok(MessageType::Error)
        } else {
            Err(NetworkError::ProtocolError("unknown message type".to_string()))
        }
    }
}

/// Payload of a message, one variant per message type.
#[derive(Debug, Clone)]
pub enum MessagePayload {
    /// KEM public key.
    Handshake { public_key: Vec<u8> },
    /// KEM ciphertext.
    HandshakeResponse { ciphertext: Vec<u8> },
    /// AEAD nonce, ciphertext with tag, and the ratchet counter.
    EncryptedData { nonce: [u8; 24], ciphertext: Vec<u8>, message_counter: u64 },
    /// New key generation.
    KeyRotation { new_key_id: u16 },
    /// Acknowledged message.
    Ack { message_id: u64 },
    /// Empty keep-alive.
    Heartbeat,
    /// Optional reason for leaving.
    Disconnect { reason: Option<String> },
    /// Error code and description.
    Error { code: u16, message: String },
}

/// Mathematical value of a payload.
pub enum PayloadModel {
    Handshake { public_key: Seq<u8> },
    HandshakeResponse { ciphertext: Seq<u8> },
    EncryptedData { nonce: Seq<u8>, ciphertext: Seq<u8>, message_counter: u64 },
    KeyRotation { new_key_id: u16 },
    Ack { message_id: u64 },
    Heartbeat,
    Disconnect { reason: Option<Seq<char>> },
    Error { code: u16, message: Seq<char> },
}

impl View for MessagePayload {
    type V = PayloadModel;

    open spec fn view(&self) -> PayloadModel {
        match self {
            MessagePayload::Handshake { public_key } => PayloadModel::Handshake { public_key: public_key@ },
            MessagePayload::HandshakeResponse { ciphertext } => PayloadModel::HandshakeResponse { ciphertext: ciphertext@ },
            MessagePayload::EncryptedData { nonce, ciphertext, message_counter } => PayloadModel::EncryptedData {
                nonce: nonce@,
                ciphertext: ciphertext@,
                message_counter: *message_counter,
            },
            MessagePayload::KeyRotation { new_key_id } => PayloadModel::KeyRotation { new_key_id: *new_key_id },
            MessagePayload::Ack { message_id } => PayloadModel::Ack { message_id: *message_id },
            MessagePayload::Heartbeat => PayloadModel::Heartbeat,
            MessagePayload::Disconnect { reason } => PayloadModel::Disconnect {
                reason: match reason {
                    Some(s) => Some(s@),
                    None => None,
                },
            },
            MessagePayload::Error { code, message } => PayloadModel::Error { code: *code, message: message@ },
        }
    }
}

/// A protocol message.
#[derive(Debug, Clone)]
pub struct Message {
    pub version: ProtocolVersion,
    pub message_type: MessageType,
    /// Unix seconds at creation.
    pub timestamp: u64,
    /// Key generation; 0 for handshake messages.
    pub key_id: u16,
    pub payload: MessagePayload,
}

/// Mathematical value of a message.
pub struct MessageModel {
    pub version: u8,
    pub message_type: MessageType,
    pub timestamp: u64,
    pub key_id: u16,
    pub payload: PayloadModel,
}

impl View for Message {
    type V = MessageModel;

    open spec fn view(&self) -> MessageModel {
        MessageModel {
            version: self.version.0,
            message_type: self.message_type,
            timestamp: self.timestamp,
            key_id: self.key_id,
            payload: self.payload@,
        }
    }
}

/// Variant byte of a payload (the number of the matching message type).
pub open spec fn payload_tag(p: PayloadModel) -> u8 {
    match p {
        PayloadModel::Handshake { .. } => 0x01,
        PayloadModel::HandshakeResponse { .. } => 0x02,
        PayloadModel::EncryptedData { .. } => 0x03,
        PayloadModel::KeyRotation { .. } => 0x04,
        PayloadModel::Ack { .. } => 0x05,
        PayloadModel::Heartbeat => 0x06,
        PayloadModel::Disconnect { .. } => 0x07,
        PayloadModel::Error { .. } => 0xff,
    }
}

/// Whether the payload variant is the one the message type calls for.
pub open spec fn payload_matches(t: MessageType, p: PayloadModel) -> bool {
    payload_tag(p) == type_byte(t)
}

// ---------------------------------------------------------------------------
// Encoding

/// A byte string with its `u32` LE length in front.
pub open spec fn enc_blob(s: Seq<u8>) -> Seq<u8> {
    spec_u32_to_le_bytes(s.len() as u32) + s
}

/// Text as a length-prefixed UTF-8 byte string.
pub open spec fn enc_text(c: Seq<char>) -> Seq<u8> {
    enc_blob(encode_utf8(c))
}

/// Encoding of the payload's fields, after its variant byte.
pub open spec fn enc_payload_body(p: PayloadModel) -> Seq<u8> {
    match p {
        PayloadModel::Handshake { public_key } => enc_blob(public_key),
        PayloadModel::HandshakeResponse { ciphertext } => enc_blob(ciphertext),
        PayloadModel::EncryptedData { nonce, ciphertext, message_counter } => nonce + spec_u64_to_le_bytes(
            message_counter,
        ) + enc_blob(ciphertext),
        PayloadModel::KeyRotation { new_key_id } => spec_u16_to_le_bytes(new_key_id),
        PayloadModel::Ack { message_id } => spec_u64_to_le_bytes(message_id),
        PayloadModel::Heartbeat => Seq::empty(),
        PayloadModel::Disconnect { reason } => match reason {
            Some(r) => seq![1u8] + enc_text(r),
            None => seq![0u8],
        },
        PayloadModel::Error { code, message } => spec_u16_to_le_bytes(code) + enc_text(message),
    }
}

/// Encoding of a payload.
pub open spec fn enc_payload(p: PayloadModel) -> Seq<u8> {
    seq![payload_tag(p)] + enc_payload_body(p)
}

/// Encoding of a message.
pub open spec fn encode_message(m: MessageModel) -> Seq<u8> {
    seq![m.version, type_byte(m.message_type)] + spec_u64_to_le_bytes(m.timestamp) + spec_u16_to_le_bytes(
        m.key_id,
    ) + enc_payload(m.payload)
}

/// Whether every length field of the payload fits in a `u32`, and the nonce
/// has its 24 bytes.
pub open spec fn payload_encodable(p: PayloadModel) -> bool {
    match p {
        PayloadModel::Handshake { public_key } => public_key.len() <= u32::MAX,
        PayloadModel::HandshakeResponse { ciphertext } => ciphertext.len() <= u32::MAX,
        PayloadModel::EncryptedData { nonce, ciphertext, .. } => nonce.len() == 24 && ciphertext.len()
            <= u32::MAX,
        PayloadModel::Disconnect { reason } => match reason {
            Some(r) => encode_utf8(r).len() <= u32::MAX,
            None => true,
        },
        PayloadModel::Error { message, .. } => encode_utf8(message).len() <= u32::MAX,
        _ => true,
    }
}

/// Whether a message can be written: its length fields fit.
pub open spec fn encodable(m: MessageModel) -> bool {
    payload_encodable(m.payload)
}

// ---------------------------------------------------------------------------
// Decoding: each reader returns the value and the bytes after it.

pub open spec fn take(b: Seq<u8>, n: nat) -> Option<(Seq<u8>, Seq<u8>)> {
    if n <= b.len() {
        Some((b.subrange(0, n as int), b.subrange(n as int, b.len() as int)))
    } else {
        None
    }
}

pub open spec fn take_u8(b: Seq<u8>) -> Option<(u8, Seq<u8>)> {
    if 1 <= b.len() {
        Some((b[0], b.subrange(1, b.len() as int)))
    } else {
        None
    }
}

pub open spec fn take_u16(b: Seq<u8>) -> Option<(u16, Seq<u8>)> {
    if 2 <= b.len() {
        Some((spec_u16_from_le_bytes(b.subrange(0, 2)), b.subrange(2, b.len() as int)))
    } else {
        None
    }
}

pub open spec fn take_u32(b: Seq<u8>) -> Option<(u32, Seq<u8>)> {
    if 4 <= b.len() {
        Some((spec_u32_from_le_bytes(b.subrange(0, 4)), b.subrange(4, b.len() as int)))
    } else {
        None
    }
}

pub open spec fn take_u64(b: Seq<u8>) -> Option<(u64, Seq<u8>)> {
    if 8 <= b.len() {
        Some((spec_u64_from_le_bytes(b.subrange(0, 8)), b.subrange(8, b.len() as int)))
    } else {
        None
    }
}

pub open spec fn take_blob(b: Seq<u8>) -> Option<(Seq<u8>, Seq<u8>)> {
    match take_u32(b) {
        Some((n, r)) => take(r, n as nat),
        None => None,
    }
}

pub open spec fn take_text(b: Seq<u8>) -> Option<(Seq<char>, Seq<u8>)> {
    match take_blob(b) {
        Some((s, r)) => if valid_utf8(s) {
            Some((decode_utf8(s), r))
        } else {
            None
        },
        None => None,
    }
}

/// Decoding of the payload's fields for variant byte `tag`.
pub open spec fn take_payload_body(tag: u8, b: Seq<u8>) -> Option<(PayloadModel, Seq<u8>)> {
    if tag == 0x01 {
        match take_blob(b) {
            Some((k, r)) => Some((PayloadModel::Handshake { public_key: k }, r)),
            None => None,
        }
    } else if tag == 0x02 {
        match take_blob(b) {
            Some((c, r)) => Some((PayloadModel::HandshakeResponse { ciphertext: c }, r)),
            None => None,
        }
    } else if tag == 0x03 {
        match take(b, 24) {
            Some((n, r1)) => match take_u64(r1) {
                Some((c, r2)) => match take_blob(r2) {
                    Some((ct, r3)) => Some(
                        (PayloadModel::EncryptedData { nonce: n, ciphertext: ct, message_counter: c }, r3),
                    ),
                    None => None,
                },
                None => None,
            },
            None => None,
        }
    } else if tag == 0x04 {
        match take_u16(b) {
            Some((k, r)) => Some((PayloadModel::KeyRotation { new_key_id: k }, r)),
            None => None,
        }
    } else if tag == 0x05 {
        match take_u64(b) {
            Some((k, r)) => Some((PayloadModel::Ack { message_id: k }, r)),
            None => None,
        }
    } else if tag == 0x06 {
        Some((PayloadModel::Heartbeat, b))
    } else if tag == 0x07 {
        match take_u8(b) {
            Some((flag, r1)) => if flag == 0 {
                Some((PayloadModel::Disconnect { reason: None }, r1))
            } else if flag == 1 {
                match take_text(r1) {
                    Some((t, r2)) => Some((PayloadModel::Disconnect { reason: Some(t) }, r2)),
                    None => None,
                }
            } else {
                None
            },
            None => None,
        }
    } else if tag == 0xff {
        match take_u16(b) {
            Some((code, r1)) => match take_text(r1) {
                Some((t, r2)) => Some((PayloadModel::Error { code, message: t }, r2)),
                None => None,
            },
            None => None,
        }
    } else {
        None
    }
}

pub open spec fn take_payload(b: Seq<u8>) -> Option<(PayloadModel, Seq<u8>)> {
    match take_u8(b) {
        Some((tag, r)) => take_payload_body(tag, r),
        None => None,
    }
}

/// The message that a byte string encodes, if it encodes one exactly.
pub open spec fn decode_message(b: Seq<u8>) -> Option<MessageModel> {
    match take_u8(b) {
        Some((v, r1)) => match take_u8(r1) {
            Some((t, r2)) => match type_of_byte(t) {
                Some(mt) => match take_u64(r2) {
                    Some((ts, r3)) => match take_u16(r3) {
                        Some((kid, r4)) => match take_payload(r4) {
                            Some((p, r5)) => if r5.len() == 0 {
                                Some(MessageModel { version: v, message_type: mt, timestamp: ts, key_id: kid, payload: p })
                            } else {
                                None
                            },
                            None => None,
                        },
                        None => None,
                    },
                    None => None,
                },
                None => None,
            },
            None => None,
        },
        None => None,
    }
}

// ---------------------------------------------------------------------------
// Round trip

proof fn lemma_take_u8(x: u8, r: Seq<u8>)
    ensures
        take_u8(seq![x] + r) == Some((x, r)),
{
    assert((seq![x] + r).subrange(1, (seq![x] + r).len() as int) =~= r);
}

proof fn lemma_take_u16(x: u16, r: Seq<u8>)
    ensures
        take_u16(spec_u16_to_le_bytes(x) + r) == Some((x, r)),
{
    lemma_auto_spec_u16_to_from_le_bytes();
    let b = spec_u16_to_le_bytes(x) + r;
    assert(b.subrange(0, 2) =~= spec_u16_to_le_bytes(x));
    assert(b.subrange(2, b.len() as int) =~= r);
}

proof fn lemma_take_u32(x: u32, r: Seq<u8>)
    ensures
        take_u32(spec_u32_to_le_bytes(x) + r) == Some((x, r)),
{
    lemma_auto_spec_u32_to_from_le_bytes();
    let b = spec_u32_to_le_bytes(x) + r;
    assert(b.subrange(0, 4) =~= spec_u32_to_le_bytes(x));
    assert(b.subrange(4, b.len() as int) =~= r);
}

proof fn lemma_take_u64(x: u64, r: Seq<u8>)
    ensures
        take_u64(spec_u64_to_le_bytes(x) + r) == Some((x, r)),
{
    lemma_auto_spec_u64_to_from_le_bytes();
    let b = spec_u64_to_le_bytes(x) + r;
    assert(b.subrange(0, 8) =~= spec_u64_to_le_bytes(x));
    assert(b.subrange(8, b.len() as int) =~= r);
}

proof fn lemma_take(s: Seq<u8>, r: Seq<u8>)
    ensures
        take(s + r, s.len()) == Some((s, r)),
{
    assert((s + r).subrange(0, s.len() as int) =~= s);
    assert((s + r).subrange(s.len() as int, (s + r).len() as int) =~= r);
}

proof fn lemma_take_blob(s: Seq<u8>, r: Seq<u8>)
    requires
        s.len() <= u32::MAX,
    ensures
        take_blob(enc_blob(s) + r) == Some((s, r)),
{
    lemma_take_u32(s.len() as u32, s + r);
    assert(enc_blob(s) + r =~= spec_u32_to_le_bytes(s.len() as u32) + (s + r));
    lemma_take(s, r);
}

proof fn lemma_take_text(c: Seq<char>, r: Seq<u8>)
    requires
        encode_utf8(c).len() <= u32::MAX,
    ensures
        take_text(enc_text(c) + r) == Some((c, r)),
{
    lemma_take_blob(encode_utf8(c), r);
}

proof fn lemma_take_payload(p: PayloadModel, r: Seq<u8>)
    requires
        payload_encodable(p),
    ensures
        take_payload(enc_payload(p) + r) == Some((p, r)),
{
    lemma_take_u8(payload_tag(p), enc_payload_body(p) + r);
    assert(enc_payload(p) + r =~= seq![payload_tag(p)] + (enc_payload_body(p) + r));
    match p {
        PayloadModel::Handshake { public_key } => {
            lemma_take_blob(public_key, r);
        },
        PayloadModel::HandshakeResponse { ciphertext } => {
            lemma_take_blob(ciphertext, r);
        },
        PayloadModel::EncryptedData { nonce, ciphertext, message_counter } => {
            let tail = enc_blob(ciphertext) + r;
            assert(enc_payload_body(p) + r =~= nonce + (spec_u64_to_le_bytes(message_counter) + tail));
            lemma_take(nonce, spec_u64_to_le_bytes(message_counter) + tail);
            lemma_take_u64(message_counter, tail);
            lemma_take_blob(ciphertext, r);
        },
        PayloadModel::KeyRotation { new_key_id } => {
            lemma_take_u16(new_key_id, r);
        },
        PayloadModel::Ack { message_id } => {
            lemma_take_u64(message_id, r);
        },
        PayloadModel::Heartbeat => {
            assert(enc_payload_body(p) + r =~= r);
        },
        PayloadModel::Disconnect { reason } => {
            match reason {
                Some(t) => {
                    assert(enc_payload_body(p) + r =~= seq![1u8] + (enc_text(t) + r));
                    lemma_take_u8(1u8, enc_text(t) + r);
                    lemma_take_text(t, r);
                },
                None => {
                    lemma_take_u8(0u8, r);
                },
            }
        },
        PayloadModel::Error { code, message } => {
            assert(enc_payload_body(p) + r =~= spec_u16_to_le_bytes(code) + (enc_text(message) + r));
            lemma_take_u16(code, enc_text(message) + r);
            lemma_take_text(message, r);
        },
    }
}

proof fn lemma_type_byte(t: MessageType)
    ensures
        type_of_byte(type_byte(t)) == Some(t),
{
}

/// Decoding an encoded message gives the message back.
pub proof fn lemma_decode_encode(m: MessageModel)
    requires
        encodable(m),
    ensures
        decode_message(encode_message(m)) == Some(m),
{
    let e = encode_message(m);
    let tail4 = enc_payload(m.payload);
    let tail3 = spec_u16_to_le_bytes(m.key_id) + tail4;
    let tail2 = spec_u64_to_le_bytes(m.timestamp) + tail3;
    let tail1 = seq![type_byte(m.message_type)] + tail2;
    assert(e =~= seq![m.version] + tail1);
    lemma_take_u8(m.version, tail1);
    lemma_take_u8(type_byte(m.message_type), tail2);
    lemma_type_byte(m.message_type);
    lemma_take_u64(m.timestamp, tail3);
    lemma_take_u16(m.key_id, tail4);
    lemma_take_payload(m.payload, Seq::empty());
    assert(tail4 + Seq::<u8>::empty() =~= tail4);
}

// ---------------------------------------------------------------------------
// Executable encoder

/// Relies on `String::from_utf8`: it accepts exactly the valid UTF-8 byte
/// strings and keeps their bytes.
#[verifier::external_body]
fn text_from_utf8(b: Vec<u8>) -> (r: Option<String>)
    ensures
        r is Some <==> valid_utf8(b@),
        r matches Some(s) ==> encode_utf8(s@) == b@,
{
    String::from_utf8(b).ok()
}

fn push_u16(out: &mut Vec<u8>, x: u16)
    ensures
        final(out)@ == old(out)@ + spec_u16_to_le_bytes(x),
{
    let b = u16_to_le_bytes(x);
    append_bytes(out, b.as_slice());
}

fn push_u32(out: &mut Vec<u8>, x: u32)
    ensures
        final(out)@ == old(out)@ + spec_u32_to_le_bytes(x),
{
    let b = u32_to_le_bytes(x);
    append_bytes(out, b.as_slice());
}

fn push_u64(out: &mut Vec<u8>, x: u64)
    ensures
        final(out)@ == old(out)@ + spec_u64_to_le_bytes(x),
{
    let b = u64_to_le_bytes(x);
    append_bytes(out, b.as_slice());
}

fn push_blob(out: &mut Vec<u8>, s: &[u8])
    requires
        s@.len() <= u32::MAX,
    ensures
        final(out)@ == old(out)@ + enc_blob(s@),
{
    push_u32(out, s.len() as u32);
    append_bytes(out, s);
    assert(out@ =~= old(out)@ + enc_blob(s@));
}

fn push_text(out: &mut Vec<u8>, t: &String) -> (ok: bool)
    ensures
        ok == (encode_utf8(t@).len() <= u32::MAX),
        ok ==> final(out)@ == old(out)@ + enc_text(t@),
{
    let b = t.as_str().as_bytes();
    if b.len() > 0xffff_ffff {
        return false;
    }
    push_blob(out, b);
    true
}

impl MessagePayload {
    /// Appends the payload's encoding; false, with `out` unusable, when a
    /// length field does not fit.
    fn encode_into(&self, out: &mut Vec<u8>) -> (ok: bool)
        ensures
            ok == payload_encodable(self@),
            ok ==> final(out)@ == old(out)@ + enc_payload(self@),
    {
        let ghost start = out@;
        match self {
            MessagePayload::Handshake { public_key } => {
                if public_key.len() > 0xffff_ffff {
                    return false;
                }
                out.push(0x01);
                push_blob(out, public_key.as_slice());
            },
            MessagePayload::HandshakeResponse { ciphertext } => {
                if ciphertext.len() > 0xffff_ffff {
                    return false;
                }
                out.push(0x02);
                push_blob(out, ciphertext.as_slice());
            },
            MessagePayload::EncryptedData { nonce, ciphertext, message_counter } => {
                if ciphertext.len() > 0xffff_ffff {
                    return false;
                }
                out.push(0x03);
                append_bytes(out, nonce.as_slice());
                push_u64(out, *message_counter);
                push_blob(out, ciphertext.as_slice());
            },
            MessagePayload::KeyRotation { new_key_id } => {
                out.push(0x04);
                push_u16(out, *new_key_id);
            },
            MessagePayload::Ack { message_id } => {
                out.push(0x05);
                push_u64(out, *message_id);
            },
            MessagePayload::Heartbeat => {
                out.push(0x06);
            },
            MessagePayload::Disconnect { reason } => {
                out.push(0x07);
                match reason {
                    Some(t) => {
                        out.push(1u8);
                        if !push_text(out, t) {
                            return false;
                        }
                    },
                    None => {
                        out.push(0u8);
                    },
                }
            },
            MessagePayload::Error { code, message } => {
                out.push(0xff);
                push_u16(out, *code);
                if !push_text(out, message) {
                    return false;
                }
            },
        }
        assert(out@ =~= start + enc_payload(self@));
        true
    }
}

// ---------------------------------------------------------------------------
// Executable decoder: readers over `b` from position `pos`.

/// The bytes of `b` from `p` on.
pub open spec fn rest_at(b: Seq<u8>, p: usize) -> Seq<u8> {
    b.subrange(p as int, b.len() as int)
}

fn read_u8(b: &[u8], pos: usize) -> (r: Option<(u8, usize)>)
    requires
        pos <= b@.len(),
    ensures
        match take_u8(rest_at(b@, pos)) {
            Some((x, rest)) => r matches Some((y, q)) && y == x && q <= b@.len() && rest == rest_at(b@, q),
            None => r is None,
        },
{
    if b.len() - pos < 1 {
        return None;
    }
    assert(rest_at(b@, pos).subrange(1, rest_at(b@, pos).len() as int) =~= rest_at(b@, (pos + 1) as usize));
    Some((b[pos], pos + 1))
}

fn read_u16(b: &[u8], pos: usize) -> (r: Option<(u16, usize)>)
    requires
        pos <= b@.len(),
    ensures
        match take_u16(rest_at(b@, pos)) {
            Some((x, rest)) => r matches Some((y, q)) && y == x && q <= b@.len() && rest == rest_at(b@, q),
            None => r is None,
        },
{
    if b.len() - pos < 2 {
        return None;
    }
    let x = u16_from_le_bytes(vstd::slice::slice_subrange(b, pos, pos + 2));
    assert(rest_at(b@, pos).subrange(0, 2) =~= b@.subrange(pos as int, pos + 2));
    assert(rest_at(b@, pos).subrange(2, rest_at(b@, pos).len() as int) =~= rest_at(b@, (pos + 2) as usize));
    Some((x, pos + 2))
}

fn read_u32(b: &[u8], pos: usize) -> (r: Option<(u32, usize)>)
    requires
        pos <= b@.len(),
    ensures
        match take_u32(rest_at(b@, pos)) {
            Some((x, rest)) => r matches Some((y, q)) && y == x && q <= b@.len() && rest == rest_at(b@, q),
            None => r is None,
        },
{
    if b.len() - pos < 4 {
        return None;
    }
    let x = u32_from_le_bytes(vstd::slice::slice_subrange(b, pos, pos + 4));
    assert(rest_at(b@, pos).subrange(0, 4) =~= b@.subrange(pos as int, pos + 4));
    assert(rest_at(b@, pos).subrange(4, rest_at(b@, pos).len() as int) =~= rest_at(b@, (pos + 4) as usize));
    Some((x, pos + 4))
}

fn read_u64(b: &[u8], pos: usize) -> (r: Option<(u64, usize)>)
    requires
        pos <= b@.len(),
    ensures
        match take_u64(rest_at(b@, pos)) {
            Some((x, rest)) => r matches Some((y, q)) && y == x && q <= b@.len() && rest == rest_at(b@, q),
            None => r is None,
        },
{
    if b.len() - pos < 8 {
        return None;
    }
    let x = u64_from_le_bytes(vstd::slice::slice_subrange(b, pos, pos + 8));
    assert(rest_at(b@, pos).subrange(0, 8) =~= b@.subrange(pos as int, pos + 8));
    assert(rest_at(b@, pos).subrange(8, rest_at(b@, pos).len() as int) =~= rest_at(b@, (pos + 8) as usize));
    Some((x, pos + 8))
}

fn read_bytes(b: &[u8], pos: usize, n: usize) -> (r: Option<(Vec<u8>, usize)>)
    requires
        pos <= b@.len(),
    ensures
        match take(rest_at(b@, pos), n as nat) {
            Some((x, rest)) => r matches Some((y, q)) && y@ == x && q <= b@.len() && rest == rest_at(b@, q),
            None => r is None,
        },
{
    if b.len() - pos < n {
        return None;
    }
    let v = copy_range(b, pos, pos + n);
    assert(rest_at(b@, pos).subrange(0, n as int) =~= b@.subrange(pos as int, pos + n));
    assert(rest_at(b@, pos).subrange(n as int, rest_at(b@, pos).len() as int) =~= rest_at(b@, (pos + n) as usize));
    Some((v, pos + n))
}

fn read_blob(b: &[u8], pos: usize) -> (r: Option<(Vec<u8>, usize)>)
    requires
        pos <= b@.len(),
    ensures
        match take_blob(rest_at(b@, pos)) {
            Some((x, rest)) => r matches Some((y, q)) && y@ == x && q <= b@.len() && rest == rest_at(b@, q),
            None => r is None,
        },
{
    match read_u32(b, pos) {
        Some((n, p)) => read_bytes(b, p, n as usize),
        None => None,
    }
}

fn read_text(b: &[u8], pos: usize) -> (r: Option<(String, usize)>)
    requires
        pos <= b@.len(),
    ensures
        match take_text(rest_at(b@, pos)) {
            Some((x, rest)) => r matches Some((y, q)) && y@ == x && q <= b@.len() && rest == rest_at(b@, q),
            None => r is None,
        },
{
    match read_blob(b, pos) {
        Some((v, p)) => {
            let ghost bytes = v@;
            match text_from_utf8(v) {
                Some(t) => {
                    proof {
                        encode_utf8_decode_utf8(t@);
                    }
                    Some((t, p))
                },
                None => None,
            }
        },
        None => None,
    }
}

/// Whether an executable result of a payload reader agrees with the spec reader.
pub open spec fn payload_read(r: Option<(MessagePayload, usize)>, b: Seq<u8>, pos: usize) -> bool {
    match take_payload(rest_at(b, pos)) {
        Some((x, rest)) => r matches Some((y, q)) && y@ == x && q <= b.len() && rest == rest_at(b, q),
        None => r is None,
    }
}

fn read_payload(b: &[u8], pos: usize) -> (r: Option<(MessagePayload, usize)>)
    requires
        pos <= b@.len(),
    ensures
        payload_read(r, b@, pos),
{
    let (tag, at0) = match read_u8(b, pos) {
        Some(x) => x,
        None => return None,
    };
    if tag == 0x01 {
        match read_blob(b, at0) {
            Some((k, p)) => Some((MessagePayload::Handshake { public_key: k }, p)),
            None => None,
        }
    } else if tag == 0x02 {
        match read_blob(b, at0) {
            Some((c, p)) => Some((MessagePayload::HandshakeResponse { ciphertext: c }, p)),
            None => None,
        }
    } else if tag == 0x03 {
        let (n, at1) = match read_bytes(b, at0, 24) {
            Some(x) => x,
            None => return None,
        };
        let (c, at2) = match read_u64(b, at1) {
            Some(x) => x,
            None => return None,
        };
        let (ct, at3) = match read_blob(b, at2) {
            Some(x) => x,
            None => return None,
        };
        let nonce = to_array24(n.as_slice());
        Some((MessagePayload::EncryptedData { nonce, ciphertext: ct, message_counter: c }, at3))
    } else if tag == 0x04 {
        match read_u16(b, at0) {
            Some((k, p)) => Some((MessagePayload::KeyRotation { new_key_id: k }, p)),
            None => None,
        }
    } else if tag == 0x05 {
        match read_u64(b, at0) {
            Some((k, p)) => Some((MessagePayload::Ack { message_id: k }, p)),
            None => None,
        }
    } else if tag == 0x06 {
        Some((MessagePayload::Heartbeat, at0))
    } else if tag == 0x07 {
        let (flag, at1) = match read_u8(b, at0) {
            Some(x) => x,
            None => return None,
        };
        if flag == 0 {
            Some((MessagePayload::Disconnect { reason: None }, at1))
        } else if flag == 1 {
            match read_text(b, at1) {
                Some((t, p)) => Some((MessagePayload::Disconnect { reason: Some(t) }, p)),
                None => None,
            }
        } else {
            None
        }
    } else if tag == 0xff {
        let (code, at1) = match read_u16(b, at0) {
            Some(x) => x,
            None => return None,
        };
        match read_text(b, at1) {
            Some((t, p)) => Some((MessagePayload::Error { code, message: t }, p)),
            None => None,
        }
    } else {
        None
    }
}

/// Decodes a whole envelope.
fn decode(b: &[u8]) -> (r: Option<Message>)
    ensures
        match decode_message(b@) {
            Some(m) => r matches Some(x) && x@ == m,
            None => r is None,
        },
{
    assert(rest_at(b@, 0) =~= b@);
    let (v, at1) = match read_u8(b, 0) {
        Some(x) => x,
        None => return None,
    };
    let (t, at2) = match read_u8(b, at1) {
        Some(x) => x,
        None => return None,
    };
    let mt = match MessageType::try_from(t) {
        Ok(x) => x,
        Err(_) => return None,
    };
    let (ts, at3) = match read_u64(b, at2) {
        Some(x) => x,
        None => return None,
    };
    let (kid, at4) = match read_u16(b, at3) {
        Some(x) => x,
        None => return None,
    };
    let (payload, at5) = match read_payload(b, at4) {
        Some(x) => x,
        None => return None,
    };
    if at5 != b.len() {
        return None;
    }
    Some(Message { version: ProtocolVersion(v), message_type: mt, timestamp: ts, key_id: kid, payload })
}

// ---------------------------------------------------------------------------
// Messages

/// Whether a message passes validation at local time `now`: a known version,
/// a timestamp at most `MAX_CLOCK_SKEW_SECS` ahead, and a payload of the
/// declared type.
pub open spec fn valid_at(m: MessageModel, now: int) -> bool {
    &&& m.version <= CURRENT_PROTOCOL_VERSION
    &&& m.timestamp <= now + MAX_CLOCK_SKEW_SECS
    &&& payload_matches(m.message_type, m.payload)
}

/// Whether a message with timestamp `ts` is younger than `RECENT_WINDOW_SECS` at `now`.
pub open spec fn recent_at(ts: u64, now: u64) -> bool {
    (if now >= ts { now - ts } else { 0 }) < RECENT_WINDOW_SECS
}

impl Message {
    /// A message of the current version stamped `timestamp`, key generation 0.
    pub fn new_at(message_type: MessageType, payload: MessagePayload, timestamp: u64) -> (r: Self)
        ensures
            r.version.0 == CURRENT_PROTOCOL_VERSION,
            r.message_type == message_type,
            r.timestamp == timestamp,
            r.key_id == 0,
            r.payload@ == payload@,
    {
        Message { version: ProtocolVersion::current(), message_type, timestamp, key_id: 0, payload }
    }

    /// A message of the current version, stamped with the wall clock, key generation 0.
    pub fn new(message_type: MessageType, payload: MessagePayload) -> (r: Self)
        ensures
            r.version.0 == CURRENT_PROTOCOL_VERSION,
            r.message_type == message_type,
            r.key_id == 0,
            r.payload@ == payload@,
    {
        Message {
            version: ProtocolVersion::current(),
            message_type,
            timestamp: current_timestamp(),
            key_id: 0,
            payload,
        }
    }

    /// A handshake carrying the initiator's KEM public key.
    pub fn handshake(public_key: PublicKey) -> (r: Self)
        ensures
            r.version.0 == CURRENT_PROTOCOL_VERSION,
            r.message_type == MessageType::Handshake,
            r.key_id == 0,
            r.payload@ == (PayloadModel::Handshake { public_key: public_key@ }),
    {
        let bytes = vstd::slice::slice_to_vec(public_key.as_bytes());
        Self::new(MessageType::Handshake, MessagePayload::Handshake { public_key: bytes })
    }

    /// A handshake response carrying the responder's KEM ciphertext.
    pub fn handshake_response(ciphertext: KyberCiphertext) -> (r: Self)
        ensures
            r.version.0 == CURRENT_PROTOCOL_VERSION,
            r.message_type == MessageType::HandshakeResponse,
            r.key_id == 0,
            r.payload@ == (PayloadModel::HandshakeResponse { ciphertext: ciphertext@ }),
    {
        let bytes = vstd::slice::slice_to_vec(ciphertext.as_bytes());
        Self::new(MessageType::HandshakeResponse, MessagePayload::HandshakeResponse { ciphertext: bytes })
    }

    /// An encrypted application message.
    pub fn encrypted(nonce: [u8; 24], ciphertext: Vec<u8>, message_counter: u64, key_id: u16) -> (r: Self)
        ensures
            r.version.0 == CURRENT_PROTOCOL_VERSION,
            r.message_type == MessageType::EncryptedMessage,
            r.key_id == key_id,
            r.payload@ == (PayloadModel::EncryptedData { nonce: nonce@, ciphertext: ciphertext@, message_counter }),
    {
        let mut msg = Self::new(
            MessageType::EncryptedMessage,
            MessagePayload::EncryptedData { nonce, ciphertext, message_counter },
        );
        msg.key_id = key_id;
        msg
    }

    /// A heartbeat.
    pub fn heartbeat() -> (r: Self)
        ensures
            r.version.0 == CURRENT_PROTOCOL_VERSION,
            r.message_type == MessageType::Heartbeat,
            r.key_id == 0,
            r.payload@ == PayloadModel::Heartbeat,
    {
        Self::new(MessageType::Heartbeat, MessagePayload::Heartbeat)
    }

    /// A disconnect notice.
    pub fn disconnect(reason: Option<String>) -> (r: Self)
        ensures
            r.version.0 == CURRENT_PROTOCOL_VERSION,
            r.message_type == MessageType::Disconnect,
            r.key_id == 0,
            r.payload@ == (MessagePayload::Disconnect { reason })@,
    {
        Self::new(MessageType::Disconnect, MessagePayload::Disconnect { reason })
    }

    /// An error report.
    pub fn error(code: u16, message: String) -> (r: Self)
        ensures
            r.version.0 == CURRENT_PROTOCOL_VERSION,
            r.message_type == MessageType::Error,
            r.key_id == 0,
            r.payload@ == (PayloadModel::Error { code, message: message@ }),
    {
        Self::new(MessageType::Error, MessagePayload::Error { code, message })
    }

    /// Encodes the message; a serialization error when a length field does not fit.
    pub fn to_bytes(&self) -> (r: Result<Vec<u8>, NetworkError>)
        ensures
            encodable(self@) ==> (r matches Ok(v) && v@ == encode_message(self@)),
            !encodable(self@) ==> r matches Err(NetworkError::SerializationError(_)),
    {
        let mut out: Vec<u8> = Vec::new();
        out.push(self.version.0);
        out.push(self.message_type.to_byte());
        push_u64(&mut out, self.timestamp);
        push_u16(&mut out, self.key_id);
        let ghost head = out@;
        if !self.payload.encode_into(&mut out) {
            return Err(NetworkError::SerializationError("length field overflow".to_string()));
        }
        assert(out@ =~= encode_message(self@));
        Ok(out)
    }

    /// Decodes an envelope: too large above `MAX_MESSAGE_SIZE`, a
    /// serialization error unless the bytes encode exactly one message.
    pub fn from_bytes(bytes: &[u8]) -> (r: Result<Message, NetworkError>)
        ensures
            bytes@.len() > MAX_MESSAGE_SIZE ==> r matches Err(NetworkError::MessageTooLarge),
            bytes@.len() <= MAX_MESSAGE_SIZE ==> match decode_message(bytes@) {
                Some(m) => r matches Ok(x) && x@ == m,
                None => r matches Err(NetworkError::SerializationError(_)),
            },
    {
        if bytes.len() > MAX_MESSAGE_SIZE {
            return Err(NetworkError::MessageTooLarge);
        }
        match decode(bytes) {
            Some(m) => Ok(m),
            None => Err(NetworkError::SerializationError("malformed message".to_string())),
        }
    }

    /// Validation against local time `now`.
    pub fn validate_at(&self, now: u64) -> (r: Result<(), NetworkError>)
        ensures
            r is Ok <==> valid_at(self@, now as int),
            r matches Err(e) ==> e is ProtocolError,
    {
        if self.version.0 > CURRENT_PROTOCOL_VERSION {
            return Err(NetworkError::ProtocolError("unsupported protocol version".to_string()));
        }
        if self.timestamp > now && self.timestamp - now > MAX_CLOCK_SKEW_SECS {
            return Err(NetworkError::ProtocolError("timestamp too far in the future".to_string()));
        }
        let tag: u8 = match &self.payload {
            MessagePayload::Handshake { .. } => 0x01,
            MessagePayload::HandshakeResponse { .. } => 0x02,
            MessagePayload::EncryptedData { .. } => 0x03,
            MessagePayload::KeyRotation { .. } => 0x04,
            MessagePayload::Ack { .. } => 0x05,
            MessagePayload::Heartbeat => 0x06,
            MessagePayload::Disconnect { .. } => 0x07,
            MessagePayload::Error { .. } => 0xff,
        };
        if tag != self.message_type.to_byte() {
            return Err(NetworkError::ProtocolError("message type and payload mismatch".to_string()));
        }
        Ok(())
    }

    /// Validation against the wall clock. Version and payload checks do not
    /// depend on the clock; the timestamp check uses whatever it reads.
    pub fn validate(&self) -> (r: Result<(), NetworkError>)
        ensures
            r is Ok ==> self.version.0 <= CURRENT_PROTOCOL_VERSION && payload_matches(
                self.message_type,
                self.payload@,
            ),
            !(self.version.0 <= CURRENT_PROTOCOL_VERSION && payload_matches(self.message_type, self.payload@))
                ==> r is Err,
            r matches Err(e) ==> e is ProtocolError,
            exists|now: u64| (r is Ok) == valid_at(self@, now as int),
    {
        self.validate_at(current_timestamp())
    }

    /// Whether the message is younger than `RECENT_WINDOW_SECS` at `now`.
    pub fn is_recent_at(&self, now: u64) -> (r: bool)
        ensures
            r == recent_at(self.timestamp, now),
    {
        now.saturating_sub(self.timestamp) < RECENT_WINDOW_SECS
    }

    /// Whether the message is younger than `RECENT_WINDOW_SECS` by the wall clock.
    pub fn is_recent(&self) -> (r: bool)
        ensures
            exists|now: u64| r == recent_at(self.timestamp, now),
    {
        let now = current_timestamp();
        self.is_recent_at(now)
    }
}

// ---------------------------------------------------------------------------
// Framing

/// A frame: the envelope's length as a big-endian `u32`, then the envelope.
pub open spec fn frame_spec(m: MessageModel) -> Seq<u8> {
    be32_bytes(encode_message(m).len() as u32) + encode_message(m)
}

/// What a reader makes of buffered bytes.
pub enum FrameOutcome {
    /// A message and the number of bytes it took.
    Parsed(MessageModel, nat),
    /// Fewer than four bytes.
    InsufficientData,
    /// The announced body is not all there.
    IncompleteFrame,
    /// The announced body exceeds `MAX_MESSAGE_SIZE`.
    TooLarge,
    /// The body does not decode.
    Malformed,
}

/// Outcome of parsing the front of `d` as a frame.
pub open spec fn parse_frame_spec(d: Seq<u8>) -> FrameOutcome {
    if d.len() < 4 {
        FrameOutcome::InsufficientData
    } else {
        let n = be32_value(d[0], d[1], d[2], d[3]) as nat;
        if n > MAX_MESSAGE_SIZE {
            FrameOutcome::TooLarge
        } else if d.len() < 4 + n {
            FrameOutcome::IncompleteFrame
        } else {
            match decode_message(d.subrange(4, 4 + n as int)) {
                Some(m) => FrameOutcome::Parsed(m, 4 + n),
                None => FrameOutcome::Malformed,
            }
        }
    }
}

/// Whether an executable parse result agrees with a spec outcome.
pub open spec fn frame_result_agrees(r: Result<(Message, usize), NetworkError>, o: FrameOutcome) -> bool {
    match o {
        FrameOutcome::Parsed(m, n) => r matches Ok((x, k)) && x@ == m && k == n,
        FrameOutcome::InsufficientData => r matches Err(NetworkError::InsufficientData),
        FrameOutcome::IncompleteFrame => r matches Err(NetworkError::IncompleteFrame),
        FrameOutcome::TooLarge => r matches Err(NetworkError::MessageTooLarge),
        FrameOutcome::Malformed => r matches Err(NetworkError::SerializationError(_)),
    }
}

/// Frames a message for the stream. Fails when it cannot be encoded or its
/// encoding exceeds `MAX_MESSAGE_SIZE`.
pub fn frame_message(message: &Message) -> (r: Result<Vec<u8>, NetworkError>)
    ensures
        !encodable(message@) ==> r matches Err(NetworkError::SerializationError(_)),
        encodable(message@) && encode_message(message@).len() > MAX_MESSAGE_SIZE ==> r matches Err(
            NetworkError::MessageTooLarge,
        ),
        encodable(message@) && encode_message(message@).len() <= MAX_MESSAGE_SIZE ==> (r matches Ok(v)
            && v@ == frame_spec(message@)),
{
    let message_bytes = message.to_bytes()?;
    if message_bytes.len() > MAX_MESSAGE_SIZE {
        return Err(NetworkError::MessageTooLarge);
    }
    let mut framed = u32_to_be_bytes(message_bytes.len() as u32);
    append_bytes(&mut framed, message_bytes.as_slice());
    Ok(framed)
}

/// Parses one frame from the front of `data`, returning the message and the
/// number of bytes it took. The first two errors ask for more bytes; the
/// other two are fatal.
pub fn parse_framed_message(data: &[u8]) -> (r: Result<(Message, usize), NetworkError>)
    ensures
        frame_result_agrees(r, parse_frame_spec(data@)),
{
    if data.len() < 4 {
        return Err(NetworkError::InsufficientData);
    }
    let len = u32_from_be_bytes(data[0], data[1], data[2], data[3]) as usize;
    if len > MAX_MESSAGE_SIZE {
        return Err(NetworkError::MessageTooLarge);
    }
    if data.len() - 4 < len {
        return Err(NetworkError::IncompleteFrame);
    }
    let body = vstd::slice::slice_subrange(data, 4, 4 + len);
    let message = Message::from_bytes(body)?;
    Ok((message, 4 + len))
}

/// Parsing a framed message gives back the message and the whole frame's length.
pub proof fn lemma_parse_frame_message(m: MessageModel)
    requires
        encodable(m),
        encode_message(m).len() <= MAX_MESSAGE_SIZE,
    ensures
        parse_frame_spec(frame_spec(m)) == FrameOutcome::Parsed(m, frame_spec(m).len()),
{
    let e = encode_message(m);
    let f = frame_spec(m);
    lemma_be32_round_trip(e.len() as u32);
    assert(f.subrange(4, 4 + e.len() as int) =~= e);
    lemma_decode_encode(m);
}

/// One step of a stream reader over its buffer: a complete frame is parsed
/// and removed from the front; an incomplete one leaves the buffer as it is
/// and asks for more bytes (`None`); an oversize or malformed one is an error.
pub fn take_frame(buffer: &mut Vec<u8>) -> (r: Result<Option<Message>, NetworkError>)
    ensures
        match parse_frame_spec(old(buffer)@) {
            FrameOutcome::Parsed(m, n) => (r matches Ok(Some(x)) && x@ == m) && final(buffer)@ == old(
                buffer,
            )@.subrange(n as int, old(buffer)@.len() as int),
            FrameOutcome::InsufficientData => r matches Ok(None) && final(buffer)@ == old(buffer)@,
            FrameOutcome::IncompleteFrame => r matches Ok(None) && final(buffer)@ == old(buffer)@,
            FrameOutcome::TooLarge => r matches Err(NetworkError::MessageTooLarge) && final(buffer)@ == old(
                buffer,
            )@,
            FrameOutcome::Malformed => r matches Err(NetworkError::SerializationError(_)) && final(buffer)@
                == old(buffer)@,
        },
{
    match parse_framed_message(buffer.as_slice()) {
        Ok((message, consumed)) => {
            let rest = copy_range(buffer.as_slice(), consumed, buffer.len());
            *buffer = rest;
            Ok(Some(message))
        },
        Err(NetworkError::InsufficientData) => Ok(None),
        Err(NetworkError::IncompleteFrame) => Ok(None),
        Err(e) => Err(e),
    }
}

} // verus!
