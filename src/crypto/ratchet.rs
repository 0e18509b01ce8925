//! Symmetric double ratchet with time-driven rotation.
//!
//! Two HKDF chains, one per direction, each step yielding a per-message key.
//! The receive side caches the keys of skipped counters so that messages may
//! arrive out of order. Both chains are mixed with the wall-clock second at
//! rotation, so two peers stay in step only if they rotate at the same
//! second; `rotate_at` lets the session's owner choose that second (for
//! instance one agreed on the wire) instead of reading the clock.
use vstd::prelude::*;
use vstd::bytes::*;
use vstd::string::*;
use vstd::utf8::*;
use std::collections::HashMap;
use zeroize::Zeroize;
use super::CryptoError;
use super::kdf::{chain_key_spec, derive_chain_key, derive_message_key, hmac_sha256, message_key_spec, ratchet_key_hmac};
use super::symmetric::SymmetricKey;
use crate::bytes::append_bytes;
use crate::clock::current_timestamp;

verus! {

broadcast use vstd::std_specs::hash::group_hash_axioms;

/// Seconds between automatic rotations.
pub const ROTATION_INTERVAL_SECS: u64 = 60;

/// Largest number of cached skipped keys; a received counter may run ahead
/// of the expected one only as far as the cache has room.
pub const MAX_SKIP: u64 = 1000;

/// Size of the skipped-key cache above which rotation empties it.
pub const SKIPPED_KEYS_RETAINED: usize = 100;

/// Errors of the ratchet.
#[derive(Debug, Clone, PartialEq, Eq)]
pub enum RatchetError {
    /// The counter is so far ahead that the skipped keys would overflow the
    /// cache of `MAX_SKIP` keys.
    TooManySkippedMessages,
    /// The counter is behind and its key is not cached.
    MessageKeyNotFound,
    /// A counter would leave the 64-bit range.
    InvalidState,
    /// The clock could not be read.
    TimeError(String),
}

/// Context of every chain step.
pub open spec fn chain_advance() -> Seq<u8> {
    encode_utf8("chain-advance"@)
}

/// Label of the initiator's sending chain.
pub open spec fn send_chain_label() -> Seq<u8> {
    encode_utf8("send-chain-v1"@)
}

/// Label of the initiator's receiving chain.
pub open spec fn recv_chain_label() -> Seq<u8> {
    encode_utf8("recv-chain-v1"@)
}

/// Context of a rotation at second `now`.
pub open spec fn rotation_context(now: u64) -> Seq<u8> {
    encode_utf8("rotation-v1-"@) + spec_u64_to_le_bytes(now)
}

/// The chain key `n` steps after `ck`.
pub open spec fn chain_iter(ck: Seq<u8>, n: nat) -> Seq<u8>
    decreases n,
{
    if n == 0 {
        ck
    } else {
        chain_key_spec(chain_iter(ck, (n - 1) as nat), chain_advance())
    }
}

/// Key of message `c` on a chain that stood at `origin` for counter `oc`.
pub open spec fn chain_message_key(origin: Seq<u8>, oc: u64, c: u64) -> Seq<u8> {
    message_key_spec(chain_iter(origin, (c - oc) as nat), c)
}

/// Mathematical value of a ratchet.
pub struct RatchetModel {
    pub root_key: Seq<u8>,
    pub send_chain_key: Seq<u8>,
    pub recv_chain_key: Seq<u8>,
    pub send_counter: u64,
    pub recv_counter: u64,
    pub last_rotation: u64,
    /// Cached keys of skipped counters.
    pub skipped: Map<u64, Seq<u8>>,
    /// Receiving chain key at the last (re)seed or rotation.
    pub recv_origin: Seq<u8>,
    /// Receive counter at the last (re)seed or rotation.
    pub recv_origin_counter: u64,
}

/// Ratchet state for one session.
pub struct RatchetState {
    root_key: [u8; 32],
    send_chain_key: [u8; 32],
    recv_chain_key: [u8; 32],
    send_counter: u64,
    recv_counter: u64,
    last_rotation: u64,
    skipped_message_keys: HashMap<u64, SymmetricKey>,
    recv_origin: Ghost<Seq<u8>>,
    recv_origin_counter: Ghost<u64>,
}

impl View for RatchetState {
    type V = RatchetModel;

    closed spec fn view(&self) -> RatchetModel {
        RatchetModel {
            root_key: self.root_key@,
            send_chain_key: self.send_chain_key@,
            recv_chain_key: self.recv_chain_key@,
            send_counter: self.send_counter,
            recv_counter: self.recv_counter,
            last_rotation: self.last_rotation,
            skipped: Map::new(
                |k: u64| self.skipped_message_keys@.contains_key(k),
                |k: u64| self.skipped_message_keys@[k]@,
            ),
            recv_origin: self.recv_origin@,
            recv_origin_counter: self.recv_origin_counter@,
        }
    }
}

impl Drop for RatchetState {
    /// Relies on `zeroize::Zeroize` for arrays: overwrites the root and chain keys.
    #[verifier::external_body]
    fn drop(&mut self)
        opens_invariants none
        no_unwind
    {
        self.root_key.zeroize();
        self.send_chain_key.zeroize();
        self.recv_chain_key.zeroize();
    }
}

/// The ratchet's invariant: the receiving chain is the origin advanced to the
/// receive counter, the cache holds at most `MAX_SKIP` keys, all for counters
/// already passed, and those of the current epoch are the chain's message keys.
pub open spec fn ratchet_wf(s: RatchetModel) -> bool {
    &&& s.skipped.dom().finite()
    &&& s.skipped.len() <= MAX_SKIP
    &&& s.recv_origin_counter <= s.recv_counter
    &&& s.recv_chain_key == chain_iter(s.recv_origin, (s.recv_counter - s.recv_origin_counter) as nat)
    &&& forall|k: u64| #[trigger] s.skipped.contains_key(k) ==> k < s.recv_counter
    &&& forall|k: u64|
        #[trigger] s.skipped.contains_key(k) && k >= s.recv_origin_counter ==> s.skipped[k] == chain_message_key(
            s.recv_origin,
            s.recv_origin_counter,
            k,
        )
}

/// A freshly seeded ratchet on `root` with the given chain labels.
pub open spec fn seeded(s: RatchetModel, root: Seq<u8>, send_label: Seq<u8>, recv_label: Seq<u8>) -> bool {
    &&& s.root_key == root
    &&& s.send_chain_key == hmac_sha256(root, send_label)
    &&& s.recv_chain_key == hmac_sha256(root, recv_label)
    &&& s.send_counter == 0
    &&& s.recv_counter == 0
    &&& s.skipped == Map::<u64, Seq<u8>>::empty()
}

/// `s` rotated at second `now`; the receiving chain's new key becomes the
/// origin of a new epoch.
pub open spec fn rotate_spec(s: RatchetModel, now: u64) -> RatchetModel {
    RatchetModel {
        send_chain_key: hmac_sha256(s.send_chain_key, rotation_context(now)),
        recv_chain_key: hmac_sha256(s.recv_chain_key, rotation_context(now)),
        last_rotation: now,
        skipped: if s.skipped.len() > SKIPPED_KEYS_RETAINED {
            Map::<u64, Seq<u8>>::empty()
        } else {
            s.skipped
        },
        recv_origin: hmac_sha256(s.recv_chain_key, rotation_context(now)),
        recv_origin_counter: s.recv_counter,
        ..s
    }
}

/// Whether a rotation is due at `now`.
pub open spec fn rotation_due(last_rotation: u64, now: u64) -> bool {
    now >= last_rotation + ROTATION_INTERVAL_SECS
}

/// Seconds left at `now` before a rotation is due, for a last rotation at
/// `last`; a clock that went back counts as no time elapsed.
pub open spec fn rotation_countdown(last: u64, now: u64) -> u64 {
    if now <= last {
        ROTATION_INTERVAL_SECS
    } else if now - last >= ROTATION_INTERVAL_SECS {
        0
    } else {
        (ROTATION_INTERVAL_SECS - (now - last)) as u64
    }
}

/// One send step from `s`: the message key and counter handed out, and the
/// state after the chain advanced.
pub open spec fn send_step(s: RatchetModel, new: RatchetModel, key: Seq<u8>, counter: u64) -> bool {
    &&& key == message_key_spec(s.send_chain_key, s.send_counter)
    &&& counter == s.send_counter
    &&& new == RatchetModel {
        send_chain_key: chain_key_spec(s.send_chain_key, chain_advance()),
        send_counter: (s.send_counter + 1) as u64,
        ..s
    }
}

/// The state in which `next_send_key` at `now` derives its key: rotated
/// first when a rotation is due.
pub open spec fn send_base(s: RatchetModel, now: u64) -> RatchetModel {
    if rotation_due(s.last_rotation, now) {
        rotate_spec(s, now)
    } else {
        s
    }
}

/// The outcome of `next_send_key` when the clock reads `now`.
pub open spec fn next_send_outcome(old: RatchetModel, new: RatchetModel, r: Result<(SymmetricKey, u64), CryptoError>, now: u64) -> bool {
    let mid = send_base(old, now);
    if mid.send_counter == u64::MAX {
        r == Err::<(SymmetricKey, u64), CryptoError>(CryptoError::RatchetError(RatchetError::InvalidState))
            && new == mid
    } else {
        r matches Ok((k, c)) && send_step(mid, new, k@, c)
    }
}

/// Message keys of counters `[start, end)` on the chain standing at `ck` for `start`.
pub open spec fn range_keys(ck: Seq<u8>, start: u64, end: u64) -> Map<u64, Seq<u8>> {
    Map::new(|k: u64| start <= k < end, |k: u64| message_key_spec(chain_iter(ck, (k - start) as nat), k))
}

/// The state after receiving counters `[s.recv_counter, c]` in order, caching
/// the keys of all but `c`.
pub open spec fn advanced_to(s: RatchetModel, new: RatchetModel, c: u64) -> bool {
    &&& new.recv_counter == c + 1
    &&& new.recv_chain_key == chain_iter(s.recv_chain_key, (c + 1 - s.recv_counter) as nat)
    &&& new.skipped == s.skipped.union_prefer_right(range_keys(s.recv_chain_key, s.recv_counter, c))
    &&& new.skipped.dom().finite()
    &&& new.skipped.len() == s.skipped.len() + (c - s.recv_counter)
    &&& new.root_key == s.root_key
    &&& new.send_chain_key == s.send_chain_key
    &&& new.send_counter == s.send_counter
    &&& new.last_rotation == s.last_rotation
    &&& new.recv_origin == s.recv_origin
    &&& new.recv_origin_counter == s.recv_origin_counter
}

/// The outcome of `get_recv_key(c)` from state `s`.
pub open spec fn recv_outcome(s: RatchetModel, new: RatchetModel, c: u64, r: Result<SymmetricKey, CryptoError>) -> bool {
    if s.skipped.contains_key(c) {
        &&& r matches Ok(k) && k@ == s.skipped[c]
        &&& new == RatchetModel { skipped: s.skipped.remove(c), ..s }
    } else if c < s.recv_counter {
        r == Err::<SymmetricKey, CryptoError>(CryptoError::RatchetError(RatchetError::MessageKeyNotFound))
            && new == s
    } else if s.skipped.len() + (c - s.recv_counter) > MAX_SKIP {
        r == Err::<SymmetricKey, CryptoError>(CryptoError::RatchetError(RatchetError::TooManySkippedMessages))
            && new == s
    } else if c == u64::MAX {
        r == Err::<SymmetricKey, CryptoError>(CryptoError::RatchetError(RatchetError::InvalidState)) && new == s
    } else {
        &&& r matches Ok(k) && k@ == message_key_spec(chain_iter(s.recv_chain_key, (c - s.recv_counter) as nat), c)
        &&& advanced_to(s, new, c)
    }
}

/// The state part of `recv_outcome`: what receiving counter `c` does to
/// the ratchet in state `s`.
pub open spec fn recv_state_step(s: RatchetModel, new: RatchetModel, c: u64) -> bool {
    if s.skipped.contains_key(c) {
        new == RatchetModel { skipped: s.skipped.remove(c), ..s }
    } else if c < s.recv_counter || s.skipped.len() + (c - s.recv_counter) > MAX_SKIP || c == u64::MAX {
        new == s
    } else {
        advanced_to(s, new, c)
    }
}

proof fn lemma_chain_iter_add(ck: Seq<u8>, a: nat, b: nat)
    ensures
        chain_iter(chain_iter(ck, a), b) == chain_iter(ck, a + b),
    decreases b,
{
    if b > 0 {
        lemma_chain_iter_add(ck, a, (b - 1) as nat);
    }
}

/// Order of arrival does not matter: in any well-formed state, the key that
/// receiving counter `c` yields, if `c` belongs to the current epoch, is the
/// key the chain gives `c` when counters arrive strictly in order.
pub proof fn lemma_recv_key_order_independent(
    s: RatchetModel,
    new: RatchetModel,
    c: u64,
    r: Result<SymmetricKey, CryptoError>,
)
    requires
        ratchet_wf(s),
        recv_outcome(s, new, c, r),
        c >= s.recv_origin_counter,
    ensures
        r matches Ok(k) ==> k@ == chain_message_key(s.recv_origin, s.recv_origin_counter, c),
        new.recv_origin == s.recv_origin,
        new.recv_origin_counter == s.recv_origin_counter,
{
    if !s.skipped.contains_key(c) && c >= s.recv_counter {
        lemma_chain_iter_add(
            s.recv_origin,
            (s.recv_counter - s.recv_origin_counter) as nat,
            (c - s.recv_counter) as nat,
        );
    }
}

/// What holds after the first `i` receipts of the counter sequence `cs`,
/// starting from `states[0]` with an empty cache.
pub open spec fn permutation_prefix(
    states: Seq<RatchetModel>,
    results: Seq<Result<SymmetricKey, CryptoError>>,
    cs: Seq<u64>,
    i: int,
) -> bool {
    let s = states[i];
    let b = states[0].recv_counter;
    let ck0 = states[0].recv_chain_key;
    &&& b <= s.recv_counter <= b + cs.len()
    &&& s.skipped.dom().finite()
    &&& s.skipped.len() + i == s.recv_counter - b
    &&& s.recv_chain_key == chain_iter(ck0, (s.recv_counter - b) as nat)
    &&& forall|j: int| 0 <= j < i ==> #[trigger] cs[j] < s.recv_counter
    &&& forall|k: u64| #[trigger]
        s.skipped.contains_key(k) <==> (b <= k < s.recv_counter && !cs.subrange(0, i).contains(k))
    &&& forall|k: u64| #[trigger] s.skipped.contains_key(k) ==> s.skipped[k] == chain_message_key(ck0, b, k)
    &&& forall|j: int|
        0 <= j < i ==> (#[trigger] results[j] matches Ok(key) && key@ == chain_message_key(ck0, b, cs[j]))
}

proof fn lemma_permutation_step(
    states: Seq<RatchetModel>,
    results: Seq<Result<SymmetricKey, CryptoError>>,
    cs: Seq<u64>,
    i: int,
)
    requires
        0 <= i < cs.len(),
        states.len() == cs.len() + 1,
        results.len() == cs.len(),
        cs.len() <= MAX_SKIP + 1,
        cs.no_duplicates(),
        forall|j: int|
            0 <= j < cs.len() ==> states[0].recv_counter <= #[trigger] cs[j] < states[0].recv_counter + cs.len(),
        states[0].recv_counter + cs.len() < u64::MAX,
        recv_outcome(states[i], states[i + 1], cs[i], results[i]),
        permutation_prefix(states, results, cs, i),
    ensures
        permutation_prefix(states, results, cs, i + 1),
{
    let s = states[i];
    let t = states[i + 1];
    let c = cs[i];
    let b = states[0].recv_counter;
    let ck0 = states[0].recv_chain_key;
    let before = cs.subrange(0, i);
    let after = cs.subrange(0, i + 1);
    assert(after =~= before.push(c));
    assert(!before.contains(c)) by {
        if before.contains(c) {
            let j = choose|j: int| 0 <= j < before.len() && before[j] == c;
            assert(cs[j] == cs[i]);
        }
    }
    assert forall|k: u64| after.contains(k) <==> (before.contains(k) || k == c) by {
        if after.contains(k) {
            let j = choose|j: int| 0 <= j < after.len() && after[j] == k;
            if j < i {
                assert(before[j] == k);
            }
        }
        if k == c {
            assert(after[i] == k);
        }
        if before.contains(k) {
            let j = choose|j: int| 0 <= j < before.len() && before[j] == k;
            assert(after[j] == k);
        }
    }
    if c < s.recv_counter {
        assert(s.skipped.contains_key(c));
        assert(t.skipped == s.skipped.remove(c));
        assert(t.skipped.dom() =~= s.skipped.dom().remove(c));
        assert forall|j: int| 0 <= j < i + 1 implies #[trigger] cs[j] < t.recv_counter by {}
        assert forall|k: u64| #[trigger]
            t.skipped.contains_key(k) <==> (b <= k < t.recv_counter && !after.contains(k)) by {
            assert(s.skipped.contains_key(k) <==> (b <= k < s.recv_counter && !before.contains(k)));
        }
        assert forall|k: u64| #[trigger] t.skipped.contains_key(k) implies t.skipped[k] == chain_message_key(
            ck0,
            b,
            k,
        ) by {
            assert(s.skipped.contains_key(k));
        }
    } else {
        assert(!s.skipped.contains_key(c));
        assert(c < b + cs.len());
        lemma_chain_iter_add(ck0, (s.recv_counter - b) as nat, (c - s.recv_counter) as nat);
        lemma_chain_iter_add(ck0, (s.recv_counter - b) as nat, (c + 1 - s.recv_counter) as nat);
        assert forall|j: int| 0 <= j < i + 1 implies #[trigger] cs[j] < t.recv_counter by {}
        assert forall|k: u64| #[trigger]
            t.skipped.contains_key(k) <==> (b <= k < t.recv_counter && !after.contains(k)) by {
            assert(s.skipped.contains_key(k) <==> (b <= k < s.recv_counter && !before.contains(k)));
            if s.recv_counter <= k && before.contains(k) {
                let j = choose|j: int| 0 <= j < before.len() && before[j] == k;
                assert(cs[j] < s.recv_counter);
            }
        }
        assert forall|k: u64| #[trigger] t.skipped.contains_key(k) implies t.skipped[k] == chain_message_key(
            ck0,
            b,
            k,
        ) by {
            if s.skipped.contains_key(k) {
            } else {
                lemma_chain_iter_add(ck0, (s.recv_counter - b) as nat, (k - s.recv_counter) as nat);
            }
        }
    }
}

/// Order of arrival does not matter for a whole window: from a state with
/// an empty cache, receiving the counters `[b, b + n)`, `n <= MAX_SKIP + 1`,
/// in any order (`cs`, a sequence of them without repeats) succeeds at every
/// step, yields for each counter the key the chain gives it in order, and
/// ends with the cache empty and `b + n` expected next.
pub proof fn lemma_recv_permutation(
    states: Seq<RatchetModel>,
    results: Seq<Result<SymmetricKey, CryptoError>>,
    cs: Seq<u64>,
)
    requires
        states.len() == cs.len() + 1,
        results.len() == cs.len(),
        cs.len() <= MAX_SKIP + 1,
        cs.no_duplicates(),
        forall|j: int|
            0 <= j < cs.len() ==> states[0].recv_counter <= #[trigger] cs[j] < states[0].recv_counter + cs.len(),
        states[0].recv_counter + cs.len() < u64::MAX,
        states[0].skipped == Map::<u64, Seq<u8>>::empty(),
        forall|i: int| 0 <= i < cs.len() ==> recv_outcome(#[trigger] states[i], states[i + 1], cs[i], results[i]),
    ensures
        forall|j: int|
            0 <= j < cs.len() ==> (#[trigger] results[j] matches Ok(key) && key@ == chain_message_key(
                states[0].recv_chain_key,
                states[0].recv_counter,
                cs[j],
            )),
        states[cs.len() as int].recv_counter == states[0].recv_counter + cs.len(),
        states[cs.len() as int].skipped.len() == 0,
{
    lemma_permutation_prefix(states, results, cs, cs.len() as int);
}

proof fn lemma_permutation_prefix(
    states: Seq<RatchetModel>,
    results: Seq<Result<SymmetricKey, CryptoError>>,
    cs: Seq<u64>,
    i: int,
)
    requires
        0 <= i <= cs.len(),
        states.len() == cs.len() + 1,
        results.len() == cs.len(),
        cs.len() <= MAX_SKIP + 1,
        cs.no_duplicates(),
        forall|j: int|
            0 <= j < cs.len() ==> states[0].recv_counter <= #[trigger] cs[j] < states[0].recv_counter + cs.len(),
        states[0].recv_counter + cs.len() < u64::MAX,
        states[0].skipped == Map::<u64, Seq<u8>>::empty(),
        forall|i: int| 0 <= i < cs.len() ==> recv_outcome(#[trigger] states[i], states[i + 1], cs[i], results[i]),
    ensures
        permutation_prefix(states, results, cs, i),
    decreases i,
{
    if i == 0 {
        assert(states[0].skipped.dom() =~= Set::<u64>::empty());
        assert forall|k: u64| #[trigger]
            states[0].skipped.contains_key(k) <==> (states[0].recv_counter <= k < states[0].recv_counter
                && !cs.subrange(0, 0).contains(k)) by {}
    } else {
        lemma_permutation_prefix(states, results, cs, i - 1);
        assert(recv_outcome(states[i - 1], states[i], cs[i - 1], results[i - 1]));
        lemma_permutation_step(states, results, cs, i - 1);
    }
}

impl RatchetState {
    proof fn lemma_skipped_dom(&self)
        ensures
            self@.skipped.dom() == self.skipped_message_keys@.dom(),
            self@.skipped.len() == self.skipped_message_keys@.len(),
    {
        assert(self@.skipped.dom() =~= self.skipped_message_keys@.dom());
    }

    /// The invariant of this state.
    pub open spec fn wf(&self) -> bool {
        ratchet_wf(self@)
    }

    fn seed(root_key: [u8; 32], send_label: &[u8], recv_label: &[u8], now: u64) -> (r: Self)
        ensures
            seeded(r@, root_key@, send_label@, recv_label@),
            r@.last_rotation == now,
            r.wf(),
    {
        let send_chain_key = match ratchet_key_hmac(&root_key, send_label) {
            Ok(k) => k,
            Err(_) => root_key,
        };
        let recv_chain_key = match ratchet_key_hmac(&root_key, recv_label) {
            Ok(k) => k,
            Err(_) => root_key,
        };
        let r = RatchetState {
            root_key,
            send_chain_key,
            recv_chain_key,
            send_counter: 0,
            recv_counter: 0,
            last_rotation: now,
            skipped_message_keys: HashMap::new(),
            recv_origin: Ghost(recv_chain_key@),
            recv_origin_counter: Ghost(0),
        };
        assert(r@.skipped =~= Map::<u64, Seq<u8>>::empty());
        r
    }

    /// A ratchet for the initiator: its sending chain is seeded with
    /// `send-chain-v1`, its receiving chain with `recv-chain-v1`. The rotation
    /// clock starts at the wall-clock time.
    pub fn new(root_key: [u8; 32]) -> (r: Self)
        ensures
            seeded(r@, root_key@, send_chain_label(), recv_chain_label()),
            r.wf(),
    {
        RatchetState::seed(root_key, "send-chain-v1".as_bytes(), "recv-chain-v1".as_bytes(), current_timestamp())
    }

    /// A ratchet for the responder: the labels are swapped, so that each
    /// side's sending chain is the other's receiving chain.
    pub fn new_responder(root_key: [u8; 32]) -> (r: Self)
        ensures
            seeded(r@, root_key@, recv_chain_label(), send_chain_label()),
            r.wf(),
    {
        RatchetState::seed(root_key, "recv-chain-v1".as_bytes(), "send-chain-v1".as_bytes(), current_timestamp())
    }

    /// Rotation at second `now`: both chain keys are mixed with
    /// `rotation-v1-` and `now`; the counters stay; a cache of more than
    /// `SKIPPED_KEYS_RETAINED` keys is emptied.
    pub fn rotate_at(&mut self, now: u64) -> (r: Result<(), CryptoError>)
        requires
            old(self).wf(),
        ensures
            r is Ok,
            final(self)@ == rotate_spec(old(self)@, now),
            final(self).wf(),
    {
        proof {
            self.lemma_skipped_dom();
        }
        let mut context: Vec<u8> = Vec::new();
        append_bytes(&mut context, "rotation-v1-".as_bytes());
        let t = u64_to_le_bytes(now);
        append_bytes(&mut context, t.as_slice());
        let s = ratchet_key_hmac(&self.send_chain_key, context.as_slice())?;
        let v = ratchet_key_hmac(&self.recv_chain_key, context.as_slice())?;
        self.send_chain_key = s;
        self.recv_chain_key = v;
        self.last_rotation = now;
        self.recv_origin = Ghost(v@);
        self.recv_origin_counter = Ghost(self.recv_counter);
        if self.skipped_message_keys.len() > SKIPPED_KEYS_RETAINED {
            self.skipped_message_keys.clear();
        }
        proof {
            assert(self@.skipped.dom() =~= self.skipped_message_keys@.dom());
            if old(self)@.skipped.len() > SKIPPED_KEYS_RETAINED {
                assert(self@.skipped =~= Map::<u64, Seq<u8>>::empty());
            } else {
                assert(self@.skipped =~= old(self)@.skipped);
            }
        }
        Ok(())
    }

    /// Rotation at the wall-clock second.
    pub fn rotate(&mut self) -> (r: Result<(), CryptoError>)
        requires
            old(self).wf(),
        ensures
            r is Ok,
            exists|now: u64| final(self)@ == rotate_spec(old(self)@, now),
            final(self).wf(),
    {
        let now = current_timestamp();
        self.rotate_at(now)
    }

    /// Rotates when `ROTATION_INTERVAL_SECS` have passed since the last rotation.
    fn check_and_rotate(&mut self, now: u64) -> (r: Result<(), CryptoError>)
        requires
            old(self).wf(),
        ensures
            r is Ok,
            final(self)@ == send_base(old(self)@, now),
            final(self).wf(),
    {
        if now >= self.last_rotation && now - self.last_rotation >= ROTATION_INTERVAL_SECS {
            self.rotate_at(now)?;
        }
        Ok(())
    }

    /// The next sending key at second `now`: rotates first when due, then
    /// hands out the key of the current counter and advances the chain.
    /// `InvalidState` once the counter space is spent.
    pub fn next_send_key_at(&mut self, now: u64) -> (r: Result<(SymmetricKey, u64), CryptoError>)
        requires
            old(self).wf(),
        ensures
            next_send_outcome(old(self)@, final(self)@, r, now),
            final(self).wf(),
    {
        self.check_and_rotate(now)?;
        let ghost mid = self@;
        if self.send_counter == u64::MAX {
            return Err(CryptoError::RatchetError(RatchetError::InvalidState));
        }
        let message_key = derive_message_key(&self.send_chain_key, self.send_counter)?;
        let counter = self.send_counter;
        self.send_chain_key = derive_chain_key(&self.send_chain_key, "chain-advance".as_bytes())?;
        self.send_counter = self.send_counter + 1;
        proof {
            assert(self@.skipped =~= mid.skipped);
            assert(send_step(mid, self@, message_key@, counter));
        }
        Ok((message_key, counter))
    }

    /// The next sending key by the wall clock.
    pub fn next_send_key(&mut self) -> (r: Result<(SymmetricKey, u64), CryptoError>)
        requires
            old(self).wf(),
        ensures
            exists|now: u64| next_send_outcome(old(self)@, final(self)@, r, now),
            final(self).wf(),
    {
        let now = current_timestamp();
        self.next_send_key_at(now)
    }

    /// The key of received message `message_counter`.
    ///
    /// A cached key is handed out and forgotten. A counter ahead of the
    /// expected one, by at most `MAX_SKIP`, caches the keys of the counters
    /// in between, and the chain moves past it. Otherwise the counter is an
    /// error: behind and not cached (`MessageKeyNotFound`), too far ahead
    /// (`TooManySkippedMessages`), or the last counter (`InvalidState`).
    ///
    /// Whatever the order of arrival, the key of a counter of the current
    /// epoch is the one the chain gives it in order.
    pub fn get_recv_key(&mut self, message_counter: u64) -> (r: Result<SymmetricKey, CryptoError>)
        requires
            old(self).wf(),
        ensures
            recv_outcome(old(self)@, final(self)@, message_counter, r),
            recv_state_step(old(self)@, final(self)@, message_counter),
            final(self).wf(),
            final(self)@.recv_origin == old(self)@.recv_origin,
            final(self)@.recv_origin_counter == old(self)@.recv_origin_counter,
            message_counter >= old(self)@.recv_origin_counter ==> (r matches Ok(k) ==> k@ == chain_message_key(
                old(self)@.recv_origin,
                old(self)@.recv_origin_counter,
                message_counter,
            )),
    {
        let ghost s = self@;
        match self.skipped_message_keys.remove(&message_counter) {
            Some(key) => {
                proof {
                    assert(s.skipped.contains_key(message_counter));
                    assert(self@.skipped =~= s.skipped.remove(message_counter));
                    assert(self@.skipped.dom() =~= s.skipped.dom().remove(message_counter));
                }
                return Ok(key);
            },
            None => {},
        }
        proof {
            assert(self@ == s) by {
                assert(self@.skipped =~= s.skipped);
            }
        }
        if message_counter < self.recv_counter {
            return Err(CryptoError::RatchetError(RatchetError::MessageKeyNotFound));
        }
        proof {
            self.lemma_skipped_dom();
        }
        let gap = message_counter - self.recv_counter;
        if gap > MAX_SKIP || self.skipped_message_keys.len() as u64 + gap > MAX_SKIP {
            return Err(CryptoError::RatchetError(RatchetError::TooManySkippedMessages));
        }
        if message_counter == u64::MAX {
            return Err(CryptoError::RatchetError(RatchetError::InvalidState));
        }
        let start = self.recv_counter;
        let ghost ck0 = self.recv_chain_key@;
        let mut i: u64 = start;
        assert(range_keys(ck0, start, start) =~= Map::<u64, Seq<u8>>::empty());
        assert(s.skipped.union_prefer_right(range_keys(ck0, start, start)) =~= s.skipped);
        while i < message_counter
            invariant
                start <= i <= message_counter,
                start == s.recv_counter,
                ck0 == s.recv_chain_key,
                self.recv_counter == start,
                self.recv_chain_key@ == chain_iter(ck0, (i - start) as nat),
                self@.skipped == s.skipped.union_prefer_right(range_keys(ck0, start, i)),
                self@.skipped.dom().finite(),
                self@.skipped.len() == s.skipped.len() + (i - start),
                forall|k: u64| #[trigger] s.skipped.contains_key(k) ==> k < start,
                self@.root_key == s.root_key,
                self@.send_chain_key == s.send_chain_key,
                self@.send_counter == s.send_counter,
                self@.last_rotation == s.last_rotation,
                self@.recv_origin == s.recv_origin,
                self@.recv_origin_counter == s.recv_origin_counter,
            decreases message_counter - i,
        {
            let skipped_key = derive_message_key(&self.recv_chain_key, i)?;
            let ghost before = self@.skipped;
            let ghost kv = skipped_key@;
            proof {
                assert(!before.contains_key(i));
            }
            self.skipped_message_keys.insert(i, skipped_key);
            proof {
                assert(self@.skipped =~= before.insert(i, kv));
                assert(self@.skipped.dom() =~= before.dom().insert(i));
                assert(range_keys(ck0, start, (i + 1) as u64) =~= range_keys(ck0, start, i).insert(i, kv));
                assert(s.skipped.union_prefer_right(range_keys(ck0, start, i).insert(i, kv)) =~= s.skipped.union_prefer_right(
                    range_keys(ck0, start, i),
                ).insert(i, kv));
            }
            self.recv_chain_key = derive_chain_key(&self.recv_chain_key, "chain-advance".as_bytes())?;
            i = i + 1;
        }
        let message_key = derive_message_key(&self.recv_chain_key, message_counter)?;
        self.recv_chain_key = derive_chain_key(&self.recv_chain_key, "chain-advance".as_bytes())?;
        self.recv_counter = message_counter + 1;
        proof {
            let n = self@;
            assert(n.recv_chain_key == chain_iter(ck0, (message_counter + 1 - start) as nat));
            assert(advanced_to(s, n, message_counter));
            let oc = s.recv_origin_counter;
            let o = s.recv_origin;
            lemma_chain_iter_add(o, (start - oc) as nat, (message_counter + 1 - start) as nat);
            lemma_chain_iter_add(o, (start - oc) as nat, (message_counter - start) as nat);
            assert forall|k: u64| #[trigger] n.skipped.contains_key(k) implies k < n.recv_counter by {}
            assert forall|k: u64|
                #[trigger] n.skipped.contains_key(k) && k >= oc implies n.skipped[k] == chain_message_key(
                o,
                oc,
                k,
            ) by {
                if start <= k < message_counter {
                    lemma_chain_iter_add(o, (start - oc) as nat, (k - start) as nat);
                }
            }
        }
        Ok(message_key)
    }

    /// The next counter this side will send.
    pub fn send_counter(&self) -> (r: u64)
        ensures
            r == self@.send_counter,
    {
        self.send_counter
    }

    /// The next counter expected from the peer.
    pub fn recv_counter(&self) -> (r: u64)
        ensures
            r == self@.recv_counter,
    {
        self.recv_counter
    }

    /// Number of cached skipped keys.
    pub fn skipped_key_count(&self) -> (r: usize)
        ensures
            r == self@.skipped.len(),
    {
        proof {
            assert(self@.skipped.dom() =~= self.skipped_message_keys@.dom());
        }
        self.skipped_message_keys.len()
    }

    /// Seconds left before rotation is due at `now`; a clock that went back
    /// counts as no time elapsed.
    pub fn seconds_until_rotation_at(&self, now: u64) -> (r: u64)
        ensures
            r == rotation_countdown(self@.last_rotation, now),
    {
        let elapsed = now.saturating_sub(self.last_rotation);
        ROTATION_INTERVAL_SECS.saturating_sub(elapsed)
    }

    /// Seconds left before rotation is due, by the wall clock.
    pub fn seconds_until_rotation(&self) -> (r: u64)
        ensures
            r <= ROTATION_INTERVAL_SECS,
            exists|now: u64| r == rotation_countdown(self@.last_rotation, now),
    {
        self.seconds_until_rotation_at(current_timestamp())
    }

    /// Replaces the root key: both chains are seeded again from it with the
    /// initiator's labels, the counters restart at 0 and the cache is emptied.
    pub fn rekey(&mut self, new_root_key: [u8; 32]) -> (r: Result<(), CryptoError>)
        requires
            old(self).wf(),
        ensures
            r is Ok,
            seeded(final(self)@, new_root_key@, send_chain_label(), recv_chain_label()),
            final(self).wf(),
    {
        let fresh = RatchetState::seed(
            new_root_key,
            "send-chain-v1".as_bytes(),
            "recv-chain-v1".as_bytes(),
            current_timestamp(),
        );
        self.root_key = fresh.root_key;
        self.send_chain_key = fresh.send_chain_key;
        self.recv_chain_key = fresh.recv_chain_key;
        self.send_counter = 0;
        self.recv_counter = 0;
        self.last_rotation = fresh.last_rotation;
        self.skipped_message_keys.clear();
        self.recv_origin = Ghost(fresh.recv_chain_key@);
        self.recv_origin_counter = Ghost(0);
        proof {
            assert(self@.skipped =~= Map::<u64, Seq<u8>>::empty());
        }
        Ok(())
    }
}

} // verus!
