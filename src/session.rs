//! The session's decisions: the post-quantum handshake, the send path and
//! the receive path. The owner of the transport performs the I/O: it hands
//! each received message in and sends each message handed out.
use vstd::prelude::*;
use vstd::string::*;
use vstd::utf8::*;
use crate::clock::current_timestamp;
use crate::crypto::CryptoError;
use crate::crypto::kdf::{derive_master_key, master_key_spec, message_key_spec};
use crate::crypto::kyber::{kyber1024_decapsulated, Ciphertext, KeyPair, PublicKey, SharedSecret, CIPHERTEXT_BYTES, PUBLIC_KEY_BYTES, SECRET_KEY_BYTES};
use crate::crypto::ratchet::{chain_iter, recv_chain_label, recv_state_step, rotate_spec, rotation_countdown, send_base, send_chain_label, send_step, seeded, RatchetModel, RatchetState, MAX_SKIP};
use crate::crypto::symmetric::{decrypt_simple, encrypt_simple, xchacha_sealed, EncryptedMessage, SymmetricKey, MAX_PLAINTEXT_LEN};
use crate::network::protocol::{valid_at, CURRENT_PROTOCOL_VERSION, Message, MessageModel, MessagePayload, MessageType, PayloadModel};
use crate::network::NetworkError;
use crate::security::replay::{replay_accepts, replay_after, ReplayModel, ReplayProtection};

verus! {

/// Seconds the handshake may take.
pub const HANDSHAKE_TIMEOUT_SECS: u64 = 30;

/// Salt of the master-key derivation.
pub open spec fn handshake_salt() -> Seq<u8> {
    encode_utf8("aegis-v1-salt"@)
}

/// Which side of the handshake a session took.
#[derive(Debug, Clone, Copy, PartialEq, Eq, Structural)]
pub enum SessionRole {
    /// The side that connected.
    Initiator,
    /// The side that accepted.
    Responder,
}

/// The public key a handshake payload carries.
pub open spec fn handshake_key(p: PayloadModel) -> Option<Seq<u8>> {
    match p {
        PayloadModel::Handshake { public_key } => Some(public_key),
        _ => None,
    }
}

/// The ciphertext a handshake-response payload carries.
pub open spec fn response_ciphertext(p: PayloadModel) -> Option<Seq<u8>> {
    match p {
        PayloadModel::HandshakeResponse { ciphertext } => Some(ciphertext),
        _ => None,
    }
}

/// Whether the responder can answer handshake `m` at `now`.
pub open spec fn handshake_acceptable(m: MessageModel, now: int) -> bool {
    &&& valid_at(m, now)
    &&& m.message_type == MessageType::Handshake
    &&& handshake_key(m.payload) matches Some(k) && k.len() == PUBLIC_KEY_BYTES
}

/// Whether the initiator can complete the handshake with response `m` at `now`.
pub open spec fn response_acceptable(m: MessageModel, now: int) -> bool {
    &&& valid_at(m, now)
    &&& m.message_type == MessageType::HandshakeResponse
    &&& response_ciphertext(m.payload) matches Some(c) && c.len() == CIPHERTEXT_BYTES
}

/// Initiator, first step: the handshake announcing the ephemeral public key.
pub fn handshake_message(keypair: &KeyPair) -> (r: Message)
    ensures
        r.message_type == MessageType::Handshake,
        r.key_id == 0,
        r.payload@ == (PayloadModel::Handshake { public_key: keypair.public_view() }),
{
    Message::handshake(keypair.public_key().clone())
}

/// Responder, last step: the handshake response carrying `ciphertext`, and
/// the responder's ratchet seeded from the master key of `shared_secret`.
pub fn responder_keys(shared_secret: &SharedSecret, ciphertext: Ciphertext) -> (r: (Message, RatchetState))
    ensures
        r.0.message_type == MessageType::HandshakeResponse,
        r.0.key_id == 0,
        r.0.payload@ == (PayloadModel::HandshakeResponse { ciphertext: ciphertext@ }),
        r.1.wf(),
        seeded(r.1@, master_key_spec(shared_secret@, handshake_salt()), recv_chain_label(), send_chain_label()),
{
    let response = Message::handshake_response(ciphertext);
    let secret = shared_secret.as_bytes();
    let master_key = match derive_master_key(secret.as_slice(), "aegis-v1-salt".as_bytes()) {
        Ok(k) => k,
        Err(_) => {
            // derive_master_key never fails on a 32-byte output.
            proof {
                assert(false);
            }
            SymmetricKey::new([0u8; 32])
        },
    };
    (response, RatchetState::new_responder(*master_key.as_bytes()))
}

/// Responder: answers handshake `msg` at local time `now` with a fresh
/// encapsulation to the peer's key (see `responder_keys` for what is made of
/// it). Any invalid handshake is a protocol error.
pub fn respond_to_handshake_at(msg: &Message, now: u64) -> (r: Result<(Message, RatchetState), NetworkError>)
    ensures
        handshake_acceptable(msg@, now as int) ==> (r matches Ok((resp, ratchet)) && {
            &&& resp.message_type == MessageType::HandshakeResponse
            &&& ratchet.wf()
            &&& exists|ss: Seq<u8>, ct: Seq<u8>|
                ss.len() == 32 && ct.len() == CIPHERTEXT_BYTES && response_ciphertext(resp.payload@) == Some(ct)
                    && seeded(ratchet@, master_key_spec(ss, handshake_salt()), recv_chain_label(), send_chain_label())
        }),
        !handshake_acceptable(msg@, now as int) ==> r matches Err(NetworkError::ProtocolError(_)),
{
    msg.validate_at(now)?;
    if msg.message_type != MessageType::Handshake {
        return Err(NetworkError::ProtocolError("expected handshake".to_string()));
    }
    let key_bytes = match &msg.payload {
        MessagePayload::Handshake { public_key } => vstd::slice::slice_to_vec(public_key.as_slice()),
        _ => return Err(NetworkError::ProtocolError("invalid handshake payload".to_string())),
    };
    let peer_key = match PublicKey::from_bytes(key_bytes) {
        Ok(k) => k,
        Err(_) => return Err(NetworkError::ProtocolError("invalid public key".to_string())),
    };
    let (shared_secret, ciphertext) = match peer_key.encapsulate() {
        Ok(x) => x,
        Err(_) => return Err(NetworkError::ProtocolError("invalid public key".to_string())),
    };
    let ghost ss = shared_secret@;
    let ghost ct = ciphertext@;
    let secret_bytes = shared_secret.as_bytes();
    assert(secret_bytes@.len() == 32);
    let (response, ratchet) = responder_keys(&shared_secret, ciphertext);
    proof {
        assert(response_ciphertext(response.payload@) == Some(ct));
        assert(seeded(ratchet@, master_key_spec(ss, handshake_salt()), recv_chain_label(), send_chain_label()));
    }
    Ok((response, ratchet))
}

/// Initiator, second step: takes the responder's answer `msg` at local time
/// `now`, decapsulates the shared secret and derives the initiator's ratchet.
pub fn complete_handshake_at(keypair: &KeyPair, msg: &Message, now: u64) -> (r: Result<RatchetState, NetworkError>)
    ensures
        response_acceptable(msg@, now as int) && keypair.secret_view().len() == SECRET_KEY_BYTES ==> (r matches Ok(
            ratchet,
        ) && ratchet.wf() && seeded(
            ratchet@,
            master_key_spec(
                kyber1024_decapsulated(keypair.secret_view(), response_ciphertext(msg@.payload)->0),
                handshake_salt(),
            ),
            send_chain_label(),
            recv_chain_label(),
        )),
        !response_acceptable(msg@, now as int) ==> r matches Err(NetworkError::ProtocolError(_)),
{
    msg.validate_at(now)?;
    if msg.message_type != MessageType::HandshakeResponse {
        return Err(NetworkError::ProtocolError("expected handshake response".to_string()));
    }
    let ct_bytes = match &msg.payload {
        MessagePayload::HandshakeResponse { ciphertext } => vstd::slice::slice_to_vec(ciphertext.as_slice()),
        _ => return Err(NetworkError::ProtocolError("invalid handshake response payload".to_string())),
    };
    let ciphertext = match Ciphertext::from_bytes(ct_bytes) {
        Ok(c) => c,
        Err(_) => return Err(NetworkError::ProtocolError("invalid ciphertext".to_string())),
    };
    let shared_secret = match keypair.decapsulate(&ciphertext) {
        Ok(s) => s,
        Err(_) => return Err(NetworkError::ConnectionError("decapsulation failed".to_string())),
    };
    let secret = shared_secret.as_bytes();
    let master_key = match derive_master_key(secret.as_slice(), "aegis-v1-salt".as_bytes()) {
        Ok(k) => k,
        Err(_) => return Err(NetworkError::ConnectionError("key derivation failed".to_string())),
    };
    Ok(RatchetState::new(*master_key.as_bytes()))
}

/// What a received message asks of the session's owner.
pub enum Incoming {
    /// Decrypted application data.
    Data(Vec<u8>),
    /// The peer's keep-alive: answer with a heartbeat.
    Heartbeat,
}

/// The key the ratchet in state `s` gives counter `c`, if any.
pub open spec fn recv_key_of(s: RatchetModel, c: u64) -> Option<Seq<u8>> {
    if s.skipped.contains_key(c) {
        Some(s.skipped[c])
    } else if c < s.recv_counter || s.skipped.len() + (c - s.recv_counter) > MAX_SKIP || c == u64::MAX {
        None
    } else {
        Some(message_key_spec(chain_iter(s.recv_chain_key, (c - s.recv_counter) as nat), c))
    }
}

/// Mathematical value of a session.
pub struct SessionModel {
    pub ratchet: RatchetModel,
    pub established: bool,
    pub role: SessionRole,
    pub replay: ReplayModel,
}

/// What the send path does from `old` at local time `now`: nothing on a
/// closed session; otherwise the next sending key (after a rotation if one
/// is due) is taken, and seals the plaintext into an encrypted message of
/// that counter, stamped `now`. Besides a closed session and a spent counter
/// space, the only failures are a plaintext too long to seal and a failure
/// of the random source.
pub open spec fn send_outcome(
    old: SessionModel,
    new: SessionModel,
    plaintext: Seq<u8>,
    now: u64,
    r: Result<Message, NetworkError>,
) -> bool {
    let base = send_base(old.ratchet, now);
    let key = message_key_spec(base.send_chain_key, base.send_counter);
    &&& new.established == old.established
    &&& new.role == old.role
    &&& new.replay == old.replay
    &&& !old.established ==> (r matches Err(NetworkError::ConnectionError(_)) && new == old)
    &&& old.established && base.send_counter == u64::MAX ==> (r matches Err(NetworkError::ConnectionError(_))
        && new.ratchet == base)
    &&& old.established && base.send_counter < u64::MAX ==> send_step(base, new.ratchet, key, base.send_counter)
    &&& old.established && plaintext.len() >= MAX_PLAINTEXT_LEN ==> r is Err
    &&& r matches Err(e) ==> e is ConnectionError || e is RandomError
    &&& old.established && base.send_counter < u64::MAX && plaintext.len() < MAX_PLAINTEXT_LEN ==> (r matches Err(
        e,
    ) ==> e is RandomError)
    &&& r matches Ok(m) ==> ({
        &&& m.version.0 == CURRENT_PROTOCOL_VERSION
        &&& m.timestamp == now
        &&& m.message_type == MessageType::EncryptedMessage
        &&& m.key_id == 0
        &&& m.payload@ matches PayloadModel::EncryptedData { nonce, ciphertext, message_counter }
            && message_counter == base.send_counter && ciphertext == xchacha_sealed(
            key,
            nonce,
            plaintext,
            Seq::empty(),
        )
    })
}

/// What the receive path does with an encrypted message (`nonce`,
/// `ciphertext`, `message_counter`, stamped `timestamp`) once the ratchet
/// has key `k` for its counter: the plaintext that seals to the ciphertext
/// is handed out if the replay guard accepts it; a ciphertext that no
/// plaintext seals to ends the session with `AuthenticationFailed`; the only
/// other failure is the replay guard's refusal.
pub open spec fn keyed_outcome(
    old: SessionModel,
    new: SessionModel,
    k: Seq<u8>,
    nonce: Seq<u8>,
    ciphertext: Seq<u8>,
    message_counter: u64,
    timestamp: u64,
    now: u64,
    r: Result<Incoming, NetworkError>,
) -> bool {
    &&& r matches Ok(x) ==> x is Data
    &&& r matches Ok(Incoming::Data(p)) ==> xchacha_sealed(k, nonce, p@, Seq::empty()) == ciphertext
        && replay_accepts(old.replay, message_counter, timestamp, now) && new.replay == replay_after(
        old.replay,
        message_counter,
    ) && new.established
    &&& forall|p: Seq<u8>|
        #![trigger xchacha_sealed(k, nonce, p, Seq::empty())]
        p.len() < MAX_PLAINTEXT_LEN && xchacha_sealed(k, nonce, p, Seq::empty()) == ciphertext ==> (replay_accepts(
            old.replay,
            message_counter,
            timestamp,
            now,
        ) ==> (r matches Ok(Incoming::Data(q)) && q@ == p))
    &&& (forall|p: Seq<u8>|
        #![trigger xchacha_sealed(k, nonce, p, Seq::empty())]
        p.len() < MAX_PLAINTEXT_LEN ==> xchacha_sealed(k, nonce, p, Seq::empty()) != ciphertext) ==> (r matches Err(
        NetworkError::AuthenticationFailed,
    ) && !new.established)
    &&& r matches Err(e) ==> (e is AuthenticationFailed && !new.established) || (e is ProtocolError
        && !replay_accepts(old.replay, message_counter, timestamp, now))
}

/// What the receive path does with message `msg` from `old` at local time
/// `now`.
pub open spec fn incoming_outcome(
    old: SessionModel,
    new: SessionModel,
    msg: MessageModel,
    now: u64,
    r: Result<Incoming, NetworkError>,
) -> bool {
    &&& new.role == old.role
    &&& r matches Err(NetworkError::ConnectionClosed) ==> !new.established
    &&& r matches Err(NetworkError::AuthenticationFailed) ==> !new.established
    &&& !old.established ==> (r matches Err(NetworkError::ConnectionError(_)) && new == old)
    &&& old.established && !valid_at(msg, now as int) ==> (r matches Err(NetworkError::ProtocolError(_)) && new
        == old)
    &&& old.established && valid_at(msg, now as int) ==> match msg.payload {
        PayloadModel::Heartbeat => r matches Ok(Incoming::Heartbeat) && new == old,
        PayloadModel::Disconnect { .. } => r matches Err(NetworkError::ConnectionClosed) && !new.established
            && new.ratchet == old.ratchet && new.replay == old.replay,
        PayloadModel::EncryptedData { nonce, ciphertext, message_counter } => recv_state_step(
            old.ratchet,
            new.ratchet,
            message_counter,
        ) && match recv_key_of(old.ratchet, message_counter) {
            None => r matches Err(NetworkError::ConnectionError(_)) && !new.established && new.replay
                == old.replay,
            Some(k) => keyed_outcome(old, new, k, nonce, ciphertext, message_counter, msg.timestamp, now, r),
        },
        _ => r matches Err(NetworkError::ProtocolError(_)) && new == old,
    }
}

/// What one side sends, the other accepts: when the receiver's chain and
/// counter are the sender's (after any rotation the send made), the
/// message was sent at `now`, and the receiver's replay guard has not seen
/// the counter and still admits it, receiving the message at `now` hands
/// out exactly the plaintext that was sent.
pub proof fn lemma_send_then_receive(
    sender: SessionModel,
    sender_after: SessionModel,
    plaintext: Seq<u8>,
    now: u64,
    sent: Result<Message, NetworkError>,
    receiver: SessionModel,
    receiver_after: SessionModel,
    received: Result<Incoming, NetworkError>,
)
    requires
        send_outcome(sender, sender_after, plaintext, now, sent),
        sent is Ok,
        receiver.established,
        crate::crypto::ratchet::ratchet_wf(receiver.ratchet),
        receiver.ratchet.recv_chain_key == send_base(sender.ratchet, now).send_chain_key,
        receiver.ratchet.recv_counter == send_base(sender.ratchet, now).send_counter,
        !receiver.replay.seen.contains(send_base(sender.ratchet, now).send_counter),
        send_base(sender.ratchet, now).send_counter >= crate::security::replay::sat_sub(
            receiver.replay.last_sequence,
            crate::security::replay::MAX_WINDOW_SIZE,
        ),
        incoming_outcome(receiver, receiver_after, sent->Ok_0@, now, received),
    ensures
        received matches Ok(Incoming::Data(p)) && p@ == plaintext,
        receiver_after.established,
{
    let base = send_base(sender.ratchet, now);
    let m = sent->Ok_0;
    let c = base.send_counter;
    assert(sender.established);
    assert(c < u64::MAX);
    assert(plaintext.len() < MAX_PLAINTEXT_LEN);
    assert(valid_at(m@, now as int));
    assert(!receiver.ratchet.skipped.contains_key(c));
    assert(chain_iter(receiver.ratchet.recv_chain_key, 0) == receiver.ratchet.recv_chain_key);
    assert(recv_key_of(receiver.ratchet, c) == Some(message_key_spec(base.send_chain_key, c)));
}

/// An established session's keys and state, without its transport.
pub struct SessionState {
    ratchet: RatchetState,
    established: bool,
    role: SessionRole,
    replay: ReplayProtection,
}

impl View for SessionState {
    type V = SessionModel;

    closed spec fn view(&self) -> SessionModel {
        SessionModel {
            ratchet: self.ratchet@,
            established: self.established,
            role: self.role,
            replay: self.replay@,
        }
    }
}

impl SessionState {
    /// The invariant: that of the ratchet and of the replay guard.
    pub closed spec fn wf(&self) -> bool {
        self.ratchet.wf() && self.replay.wf()
    }

    /// An established session over `ratchet`.
    pub fn new(ratchet: RatchetState, role: SessionRole) -> (r: Self)
        requires
            ratchet.wf(),
        ensures
            r@.ratchet == ratchet@,
            r@.established,
            r@.role == role,
            r@.replay.seen == Set::<u64>::empty(),
            r@.replay.last_sequence == 0,
            r.wf(),
    {
        SessionState { ratchet, established: true, role, replay: ReplayProtection::new() }
    }

    /// Whether the session can still carry messages.
    pub fn is_established(&self) -> (r: bool)
        ensures
            r == self@.established,
    {
        self.established
    }

    /// The side this session took.
    pub fn role(&self) -> (r: SessionRole)
        ensures
            r == self@.role,
    {
        self.role
    }

    /// The ratchet.
    pub fn ratchet(&self) -> (r: &RatchetState)
        ensures
            r@ == self@.ratchet,
            self.wf() ==> r.wf(),
    {
        &self.ratchet
    }

    /// Ends the session.
    pub fn mark_closed(&mut self)
        ensures
            final(self)@ == (SessionModel { established: false, ..old(self)@ }),
    {
        self.established = false;
    }

    /// Rotates the ratchet's chains at second `now`.
    pub fn rotate_at(&mut self, now: u64) -> (r: Result<(), NetworkError>)
        requires
            old(self).wf(),
        ensures
            r is Ok,
            final(self).wf(),
            final(self)@.ratchet == rotate_spec(old(self)@.ratchet, now),
            final(self)@.established == old(self)@.established,
            final(self)@.role == old(self)@.role,
            final(self)@.replay == old(self)@.replay,
    {
        match self.ratchet.rotate_at(now) {
            Ok(()) => Ok(()),
            Err(_) => Err(NetworkError::ConnectionError("key rotation failed".to_string())),
        }
    }

    /// Rotates the ratchet's chains by the wall clock.
    pub fn rotate(&mut self) -> (r: Result<(), NetworkError>)
        requires
            old(self).wf(),
        ensures
            r is Ok,
            final(self).wf(),
            exists|now: u64| final(self)@.ratchet == rotate_spec(old(self)@.ratchet, now),
            final(self)@.established == old(self)@.established,
            final(self)@.role == old(self)@.role,
            final(self)@.replay == old(self)@.replay,
    {
        self.rotate_at(current_timestamp())
    }

    /// Seconds until the ratchet's next rotation, by the wall clock.
    pub fn seconds_until_rotation(&self) -> (r: u64)
        ensures
            r <= 60,
            exists|now: u64| r == rotation_countdown(self@.ratchet.last_rotation, now),
    {
        let now = current_timestamp();
        let r = self.ratchet.seconds_until_rotation_at(now);
        proof {
            assert(r == rotation_countdown(self@.ratchet.last_rotation, now));
        }
        r
    }

    /// The send path at local time `now`: the next sending key and counter,
    /// the plaintext sealed under it with a fresh nonce, in an encrypted
    /// message of key generation 0.
    pub fn prepare_send_at(&mut self, plaintext: &[u8], now: u64) -> (r: Result<Message, NetworkError>)
        requires
            old(self).wf(),
        ensures
            final(self).wf(),
            send_outcome(old(self)@, final(self)@, plaintext@, now, r),
    {
        if !self.established {
            return Err(NetworkError::ConnectionError("session not established".to_string()));
        }
        let (message_key, counter) = match self.ratchet.next_send_key_at(now) {
            Ok(x) => x,
            Err(_) => return Err(NetworkError::ConnectionError("no sending key".to_string())),
        };
        let encrypted = match encrypt_simple(&message_key, plaintext) {
            Ok(e) => e,
            Err(CryptoError::RandomError) => return Err(NetworkError::RandomError),
            Err(_) => return Err(NetworkError::ConnectionError("plaintext too long".to_string())),
        };
        let EncryptedMessage { nonce, ciphertext } = encrypted;
        Ok(
            Message::new_at(
                MessageType::EncryptedMessage,
                MessagePayload::EncryptedData { nonce, ciphertext, message_counter: counter },
                now,
            ),
        )
    }

    /// The send path by the wall clock; see `prepare_send_at`.
    pub fn prepare_send(&mut self, plaintext: &[u8]) -> (r: Result<Message, NetworkError>)
        requires
            old(self).wf(),
        ensures
            final(self).wf(),
            exists|now: u64| send_outcome(old(self)@, final(self)@, plaintext@, now, r),
    {
        let now = current_timestamp();
        let r = self.prepare_send_at(plaintext, now);
        proof {
            assert(send_outcome(old(self)@, self@, plaintext@, now, r));
        }
        r
    }

    /// The receive path at local time `now`.
    ///
    /// An encrypted message is opened with the ratchet's key for its counter
    /// and then checked against the replay guard; a missing key or a failed
    /// tag ends the session. A heartbeat asks for one back; a disconnect ends
    /// the session. Anything else, or an invalid message, is a protocol error.
    #[verifier::rlimit(60)]
    pub fn process_incoming_at(&mut self, msg: Message, now: u64) -> (r: Result<Incoming, NetworkError>)
        requires
            old(self).wf(),
        ensures
            final(self).wf(),
            incoming_outcome(old(self)@, final(self)@, msg@, now, r),
    {
        let ghost s0 = self@;
        let ghost m0 = msg@;
        if !self.established {
            return Err(NetworkError::ConnectionError("session not established".to_string()));
        }
        match msg.validate_at(now) {
            Ok(()) => {},
            Err(e) => return Err(e),
        }
        let timestamp = msg.timestamp;
        match msg.payload {
            MessagePayload::EncryptedData { nonce, ciphertext, message_counter } => {
                let message_key = match self.ratchet.get_recv_key(message_counter) {
                    Ok(k) => k,
                    Err(_) => {
                        self.established = false;
                        return Err(NetworkError::ConnectionError("message key unavailable".to_string()));
                    },
                };
                let ghost ratchet1 = self.ratchet@;
                proof {
                    assert(recv_key_of(s0.ratchet, message_counter) == Some(message_key@));
                    assert(recv_state_step(s0.ratchet, ratchet1, message_counter));
                }
                let encrypted = EncryptedMessage { nonce, ciphertext };
                let ghost k = message_key@;
                let ghost n = encrypted.nonce@;
                let ghost c = encrypted.ciphertext@;
                let opened = decrypt_simple(&message_key, &encrypted);
                proof {
                    assert(crate::crypto::symmetric::opens_to(k, n, c, Seq::empty(), opened));
                }
                let plaintext = match opened {
                    Ok(p) => p,
                    Err(_) => {
                        self.established = false;
                        return Err(NetworkError::AuthenticationFailed);
                    },
                };
                proof {
                    assert(xchacha_sealed(k, n, plaintext@, Seq::empty()) == c);
                    assert(plaintext@.len() < MAX_PLAINTEXT_LEN);
                    assert(m0.payload == (PayloadModel::EncryptedData { nonce: n, ciphertext: c, message_counter }));
                    assert(!(forall|p: Seq<u8>|
                        #![trigger xchacha_sealed(k, n, p, Seq::empty())]
                        p.len() < MAX_PLAINTEXT_LEN ==> xchacha_sealed(k, n, p, Seq::empty()) != c));
                }
                let ghost replay0 = self.replay@;
                assert(replay0 == s0.replay);
                if !self.replay.check_message_at(message_counter, timestamp, now) {
                    let r = Err(NetworkError::ProtocolError("replayed message".to_string()));
                    proof {
                        assert(!replay_accepts(s0.replay, message_counter, m0.timestamp, now));
                        assert(recv_key_of(s0.ratchet, message_counter) == Some(k));
                        assert(self@.role == s0.role);
                        assert((forall|p: Seq<u8>|
                            #![trigger xchacha_sealed(k, n, p, Seq::empty())]
                            p.len() < MAX_PLAINTEXT_LEN ==> xchacha_sealed(k, n, p, Seq::empty()) != c) ==> (r matches Err(
                            NetworkError::AuthenticationFailed,
                        ) && !self@.established));
                        assert(keyed_outcome(s0, self@, k, n, c, message_counter, m0.timestamp, now, r));
                        assert(incoming_outcome(s0, self@, m0, now, r));
                    }
                    return r;
                }
                proof {
                    assert forall|p: Seq<u8>|
                        #![trigger xchacha_sealed(k, n, p, Seq::empty())]
                        p.len() < MAX_PLAINTEXT_LEN && xchacha_sealed(k, n, p, Seq::empty()) == c implies p
                            == plaintext@ by {}
                }
                let r = Ok(Incoming::Data(plaintext));
                proof {
                    assert(recv_key_of(s0.ratchet, message_counter) == Some(k));
                    assert(valid_at(m0, now as int));
                    assert(s0.established);
                    assert(self@.established);
                    assert(self@.role == s0.role);
                    assert(self@.replay == replay_after(s0.replay, message_counter));
                    assert(keyed_outcome(s0, self@, k, n, c, message_counter, m0.timestamp, now, r));
                    assert(incoming_outcome(s0, self@, m0, now, r));
                }
                r
            },
            MessagePayload::Heartbeat => Ok(Incoming::Heartbeat),
            MessagePayload::Disconnect { .. } => {
                self.established = false;
                Err(NetworkError::ConnectionClosed)
            },
            _ => Err(NetworkError::ProtocolError("unexpected message type".to_string())),
        }
    }

    /// The receive path by the wall clock; see `process_incoming_at`.
    pub fn process_incoming(&mut self, msg: Message) -> (r: Result<Incoming, NetworkError>)
        requires
            old(self).wf(),
        ensures
            final(self).wf(),
            exists|now: u64| incoming_outcome(old(self)@, final(self)@, msg@, now, r),
    {
        let now = current_timestamp();
        let ghost m = msg@;
        let r = self.process_incoming_at(msg, now);
        proof {
            assert(incoming_outcome(old(self)@, self@, m, now, r));
        }
        r
    }
}

} // verus!
