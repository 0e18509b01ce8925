//! Sliding-window replay detection over (sequence, timestamp) pairs.
use vstd::prelude::*;
use std::collections::HashSet;
use crate::clock::current_timestamp;

verus! {

broadcast use vstd::std_specs::hash::group_hash_axioms;

/// Width of the window of acceptable sequence numbers, and the size of the
/// seen set above which old entries are evicted.
pub const MAX_WINDOW_SIZE: u64 = 10000;

/// Tolerated clock skew in either direction, in seconds.
pub const MAX_TIME_SKEW_SECS: u64 = 300;

/// Whether `timestamp` lies within `MAX_TIME_SKEW_SECS` of `now`.
pub open spec fn timestamp_ok(timestamp: u64, now: u64) -> bool {
    timestamp <= now + MAX_TIME_SKEW_SECS && timestamp + MAX_TIME_SKEW_SECS >= now
}

/// `x - y`, or 0 when `y > x`.
pub open spec fn sat_sub(x: u64, y: u64) -> u64 {
    if x >= y { (x - y) as u64 } else { 0 }
}

/// Mathematical value of a replay guard.
pub struct ReplayModel {
    pub seen: Set<u64>,
    pub last_sequence: u64,
}

/// Whether the guard in state `s` accepts `sequence` stamped `timestamp` at `now`.
pub open spec fn replay_accepts(s: ReplayModel, sequence: u64, timestamp: u64, now: u64) -> bool {
    &&& timestamp_ok(timestamp, now)
    &&& !s.seen.contains(sequence)
    &&& sequence >= sat_sub(s.last_sequence, MAX_WINDOW_SIZE)
}

/// The guard after accepting `sequence`: it is recorded, the last sequence
/// moves up to it, and when more than `MAX_WINDOW_SIZE` are recorded those at
/// or below the window's lower edge are forgotten.
pub open spec fn replay_after(s: ReplayModel, sequence: u64) -> ReplayModel {
    let last = if sequence > s.last_sequence { sequence } else { s.last_sequence };
    let seen = s.seen.insert(sequence);
    ReplayModel {
        seen: if seen.len() > MAX_WINDOW_SIZE {
            seen.filter(|x: u64| x > sat_sub(last, MAX_WINDOW_SIZE))
        } else {
            seen
        },
        last_sequence: last,
    }
}

/// A well-formed guard state: at most `MAX_WINDOW_SIZE` recorded sequences,
/// none above the last one.
pub open spec fn replay_model_wf(m: ReplayModel) -> bool {
    &&& m.seen.finite()
    &&& m.seen.len() <= MAX_WINDOW_SIZE
    &&& forall|x: u64| #[trigger] m.seen.contains(x) ==> x <= m.last_sequence
}

/// Replay protection state.
pub struct ReplayProtection {
    seen_messages: HashSet<u64>,
    last_sequence: u64,
    window_size: u64,
}

impl View for ReplayProtection {
    type V = ReplayModel;

    closed spec fn view(&self) -> ReplayModel {
        ReplayModel { seen: self.seen_messages@, last_sequence: self.last_sequence }
    }
}

impl ReplayProtection {
    /// The invariant: the window has its fixed width, and the state is
    /// well formed (`replay_model_wf`).
    pub closed spec fn wf(&self) -> bool {
        &&& self.window_size == MAX_WINDOW_SIZE
        &&& replay_model_wf(self@)
    }

    /// A guard that has seen nothing.
    pub fn new() -> (r: Self)
        ensures
            r@.seen == Set::<u64>::empty(),
            r@.last_sequence == 0,
            r.wf(),
            replay_model_wf(r@),
    {
        ReplayProtection { seen_messages: HashSet::new(), last_sequence: 0, window_size: MAX_WINDOW_SIZE }
    }

    /// Whether `timestamp` is within the tolerated skew of `now`.
    pub fn is_timestamp_valid_at(&self, timestamp: u64, now: u64) -> (r: bool)
        ensures
            r == timestamp_ok(timestamp, now),
    {
        if timestamp >= now {
            timestamp - now <= MAX_TIME_SKEW_SECS
        } else {
            now - timestamp <= MAX_TIME_SKEW_SECS
        }
    }

    /// Whether `timestamp` is within the tolerated skew of the wall clock.
    pub fn is_timestamp_valid(&self, timestamp: u64) -> (r: bool)
        ensures
            exists|now: u64| r == timestamp_ok(timestamp, now),
    {
        let now = current_timestamp();
        self.is_timestamp_valid_at(timestamp, now)
    }

    /// Checks a message at local time `now`: true, and recorded, when it is
    /// fresh, unseen and inside the window; false, with nothing changed,
    /// otherwise.
    pub fn check_message_at(&mut self, sequence: u64, timestamp: u64, now: u64) -> (r: bool)
        requires
            old(self).wf(),
        ensures
            r == replay_accepts(old(self)@, sequence, timestamp, now),
            r ==> final(self)@ == replay_after(old(self)@, sequence),
            !r ==> final(self)@ == old(self)@,
            final(self)@.last_sequence >= old(self)@.last_sequence,
            final(self).wf(),
            replay_model_wf(final(self)@),
    {
        if !self.is_timestamp_valid_at(timestamp, now) {
            return false;
        }
        if self.seen_messages.contains(&sequence) {
            return false;
        }
        if sequence < self.last_sequence.saturating_sub(self.window_size) {
            return false;
        }
        self.seen_messages.insert(sequence);
        if sequence > self.last_sequence {
            self.last_sequence = sequence;
        }
        if self.seen_messages.len() as u64 > MAX_WINDOW_SIZE {
            self.cleanup_old_entries();
        }
        true
    }

    /// Checks a message against the wall clock; see `check_message_at`.
    pub fn check_message(&mut self, sequence: u64, timestamp: u64) -> (r: bool)
        requires
            old(self).wf(),
        ensures
            exists|now: u64| r == replay_accepts(old(self)@, sequence, timestamp, now),
            old(self)@.seen.contains(sequence) ==> !r,
            r ==> final(self)@ == replay_after(old(self)@, sequence),
            !r ==> final(self)@ == old(self)@,
            final(self)@.last_sequence >= old(self)@.last_sequence,
            final(self).wf(),
            replay_model_wf(final(self)@),
    {
        let now = current_timestamp();
        self.check_message_at(sequence, timestamp, now)
    }

    /// Forgets the recorded sequences at or below the window's lower edge.
    fn cleanup_old_entries(&mut self)
        requires
            old(self).window_size == MAX_WINDOW_SIZE,
            old(self)@.seen.finite(),
            forall|x: u64| #[trigger] old(self)@.seen.contains(x) ==> x <= old(self)@.last_sequence,
        ensures
            final(self)@.seen == old(self)@.seen.filter(
                |x: u64| x > sat_sub(old(self)@.last_sequence, MAX_WINDOW_SIZE),
            ),
            final(self)@.last_sequence == old(self)@.last_sequence,
            final(self)@.seen.len() <= MAX_WINDOW_SIZE,
            final(self).wf(),
            replay_model_wf(final(self)@),
    {
        let cutoff = self.last_sequence.saturating_sub(self.window_size);
        let last = self.last_sequence;
        let mut kept: HashSet<u64> = HashSet::new();
        let mut k: u64 = cutoff;
        assert(kept@ =~= self.seen_messages@.filter(|x: u64| cutoff < x <= k));
        while k < last
            invariant
                cutoff <= k <= last,
                last == self.last_sequence,
                kept@ == self.seen_messages@.filter(|x: u64| cutoff < x <= k),
                kept@.finite(),
                kept@.len() <= k - cutoff,
            decreases last - k,
        {
            k = k + 1;
            if self.seen_messages.contains(&k) {
                kept.insert(k);
            }
            assert(kept@ =~= self.seen_messages@.filter(|x: u64| cutoff < x <= k));
        }
        assert(kept@ =~= self.seen_messages@.filter(|x: u64| x > cutoff));
        self.seen_messages = kept;
    }

    /// Forgets everything seen.
    pub fn reset(&mut self)
        requires
            old(self).wf(),
        ensures
            final(self)@.seen == Set::<u64>::empty(),
            final(self)@.last_sequence == 0,
            final(self).wf(),
            replay_model_wf(final(self)@),
    {
        self.seen_messages.clear();
        self.last_sequence = 0;
    }

    /// The highest sequence accepted so far.
    pub fn current_sequence(&self) -> (r: u64)
        ensures
            r == self@.last_sequence,
    {
        self.last_sequence
    }
}

impl Default for ReplayProtection {
    fn default() -> (r: Self)
        ensures
            r@.seen == Set::<u64>::empty(),
            r@.last_sequence == 0,
            r.wf(),
            replay_model_wf(r@),
    {
        ReplayProtection::new()
    }
}

/// A guard that has seen nothing accepts any sequence whose timestamp is
/// within the tolerated skew.
pub proof fn lemma_fresh_guard_accepts(sequence: u64, timestamp: u64, now: u64)
    ensures
        replay_accepts(ReplayModel { seen: Set::empty(), last_sequence: 0 }, sequence, timestamp, now)
            == timestamp_ok(timestamp, now),
{
}

/// A sequence the guard has just accepted is rejected when it comes again,
/// whatever its timestamp; the one exception is a sequence evicted at once
/// because it sits exactly on the window's lower edge.
pub proof fn lemma_replay_rejected_twice(
    s: ReplayModel,
    sequence: u64,
    timestamp: u64,
    now: u64,
    timestamp2: u64,
    now2: u64,
)
    requires
        replay_accepts(s, sequence, timestamp, now),
        replay_after(s, sequence).seen.contains(sequence) || sequence != sat_sub(
            replay_after(s, sequence).last_sequence,
            MAX_WINDOW_SIZE,
        ),
    ensures
        !replay_accepts(replay_after(s, sequence), sequence, timestamp2, now2),
{
    let t = replay_after(s, sequence);
    if !t.seen.contains(sequence) {
        assert(s.seen.insert(sequence).contains(sequence));
        assert(!(sequence > sat_sub(t.last_sequence, MAX_WINDOW_SIZE)));
    }
}

/// A sequence the guard remembers in state `s`: recorded, or below the
/// window's lower edge.
pub open spec fn remembered(s: ReplayModel, sequence: u64) -> bool {
    s.seen.contains(sequence) || sequence < sat_sub(s.last_sequence, MAX_WINDOW_SIZE)
}

/// Whether accepting `other` in state `s` evicts `sequence` exactly on the
/// new window's lower edge, the one place where eviction forgets more than
/// the window rejects.
pub open spec fn evicted_on_edge(s: ReplayModel, other: u64, sequence: u64) -> bool {
    let t = replay_after(s, other);
    !t.seen.contains(sequence) && sequence == sat_sub(t.last_sequence, MAX_WINDOW_SIZE)
}

/// A remembered sequence is rejected, whatever its timestamp.
pub proof fn lemma_remembered_rejected(s: ReplayModel, sequence: u64, timestamp: u64, now: u64)
    requires
        remembered(s, sequence),
    ensures
        !replay_accepts(s, sequence, timestamp, now),
{
}

/// An accepted sequence is remembered afterwards (unless evicted on the edge).
pub proof fn lemma_accepted_remembered(s: ReplayModel, sequence: u64, timestamp: u64, now: u64)
    requires
        replay_accepts(s, sequence, timestamp, now),
        !evicted_on_edge(s, sequence, sequence),
    ensures
        remembered(replay_after(s, sequence), sequence),
{
    assert(s.seen.insert(sequence).contains(sequence));
}

/// Every later check keeps a remembered sequence remembered: a refused
/// check changes nothing, and an accepted one only raises the window (the
/// edge eviction aside). So a sequence accepted once is refused at every
/// later check until `reset`.
pub proof fn lemma_remembered_kept(s: ReplayModel, sequence: u64, other: u64, timestamp: u64, now: u64)
    requires
        remembered(s, sequence),
        replay_accepts(s, other, timestamp, now),
        !evicted_on_edge(s, other, sequence),
    ensures
        remembered(replay_after(s, other), sequence),
{
    let t = replay_after(s, other);
    if s.seen.contains(sequence) {
        assert(s.seen.insert(other).contains(sequence));
    }
    assert(t.last_sequence >= s.last_sequence);
}

/// A timestamp outside the tolerated skew is rejected in every state.
pub proof fn lemma_skewed_timestamp_rejected(s: ReplayModel, sequence: u64, timestamp: u64, now: u64)
    requires
        !timestamp_ok(timestamp, now),
    ensures
        !replay_accepts(s, sequence, timestamp, now),
{
}

} // verus!
