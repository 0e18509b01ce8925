//! A byte buffer that is wiped when dropped.
use vstd::prelude::*;
use std::ops::{Deref, DerefMut};
use zeroize::Zeroize;

verus! {

/// A buffer for secret bytes; its contents are overwritten when it is
/// dropped. Pinning the pages in memory is left to the platform: the buffer
/// never claims to be locked.
pub struct SecureBuffer {
    data: Vec<u8>,
    locked: bool,
}

impl View for SecureBuffer {
    type V = Seq<u8>;

    closed spec fn view(&self) -> Seq<u8> {
        self.data@
    }
}

impl SecureBuffer {
    /// An empty buffer with room for `capacity` bytes.
    pub fn new(capacity: usize) -> (r: Self)
        ensures
            r@ == Seq::<u8>::empty(),
    {
        SecureBuffer { data: Vec::with_capacity(capacity), locked: false }
    }

    /// A buffer holding `data`.
    pub fn from_vec(data: Vec<u8>) -> (r: Self)
        ensures
            r@ == data@,
    {
        SecureBuffer { data, locked: false }
    }

    /// Whether the pages are pinned in memory.
    pub fn is_locked(&self) -> (r: bool) {
        self.locked
    }

    /// Number of bytes held.
    pub fn len(&self) -> (r: usize)
        ensures
            r == self@.len(),
    {
        self.data.len()
    }

    /// Whether no byte is held.
    pub fn is_empty(&self) -> (r: bool)
        ensures
            r == (self@.len() == 0),
    {
        self.data.len() == 0
    }

    /// The bytes held.
    pub fn as_slice(&self) -> (r: &[u8])
        ensures
            r@ == self@,
    {
        self.data.as_slice()
    }

    /// The bytes held, for writing in place.
    pub fn as_mut_slice(&mut self) -> (r: &mut [u8])
        ensures
            r@ == old(self)@,
    {
        self.data.as_mut_slice()
    }

    /// Appends a byte.
    pub fn push(&mut self, byte: u8)
        ensures
            final(self)@ == old(self)@.push(byte),
    {
        self.data.push(byte);
    }
}

impl Deref for SecureBuffer {
    type Target = Vec<u8>;

    fn deref(&self) -> (r: &Vec<u8>)
        ensures
            r@ == self@,
    {
        &self.data
    }
}

impl DerefMut for SecureBuffer {
    fn deref_mut(&mut self) -> (r: &mut Vec<u8>)
        ensures
            r@ == old(self)@,
    {
        &mut self.data
    }
}

impl Drop for SecureBuffer {
    /// Relies on `zeroize::Zeroize` for vectors: overwrites the bytes and the
    /// spare capacity.
    #[verifier::external_body]
    fn drop(&mut self)
        opens_invariants none
        no_unwind
    {
        self.data.zeroize();
    }
}

} // verus!
