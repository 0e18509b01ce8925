//! Constant-time helpers and length-hiding padding.
use vstd::prelude::*;
use crate::bytes::{append_bytes, copy_range};
use super::random::{random_in_range, thread_random_bytes};

verus! {

/// Big-endian encoding of a 16-bit length prefix.
pub open spec fn be16(n: u16) -> Seq<u8> {
    seq![(n / 256) as u8, (n % 256) as u8]
}

/// Value of a two-byte big-endian prefix.
pub open spec fn be16_value(hi: u8, lo: u8) -> nat {
    hi as nat * 256 + lo as nat
}

/// The length recorded in a padded buffer: the data length, capped at `u16::MAX`.
pub open spec fn recorded_len(n: nat) -> u16 {
    if n > 0xffff { 0xffff } else { n as u16 }
}

/// Number of zero bytes that bring `unpadded` up to a multiple of `block`.
pub open spec fn padding_len(unpadded: nat, block: nat) -> nat
    recommends
        block > 0,
{
    if unpadded % block == 0 { 0 } else { (block - unpadded % block) as nat }
}

/// Layout of a block-padded buffer: length prefix, data, zero fill.
pub open spec fn padded_spec(data: Seq<u8>, block: nat) -> Seq<u8> {
    be16(recorded_len(data.len())) + data + Seq::new(padding_len(data.len() + 2, block), |i: int| 0u8)
}

/// What `unpad` returns for a buffer.
pub open spec fn unpad_spec(padded: Seq<u8>) -> Option<Seq<u8>> {
    if padded.len() < 2 {
        None
    } else {
        let n = be16_value(padded[0], padded[1]);
        if n + 2 > padded.len() {
            None
        } else {
            Some(padded.subrange(2, (n + 2) as int))
        }
    }
}

/// Compares two byte strings; the running time depends on the length only.
pub fn constant_time_eq(a: &[u8], b: &[u8]) -> (r: bool)
    ensures
        r == (a@ == b@),
{
    if a.len() != b.len() {
        return false;
    }
    let mut diff: u8 = 0;
    let mut i: usize = 0;
    assert(a@.subrange(0, 0) =~= b@.subrange(0, 0));
    while i < a.len()
        invariant
            a@.len() == b@.len(),
            i <= a@.len(),
            (diff == 0) == (a@.subrange(0, i as int) == b@.subrange(0, i as int)),
        decreases a@.len() - i,
    {
        let x = a[i];
        let y = b[i];
        let d = diff | (x ^ y);
        assert((d == 0) == (diff == 0 && x == y)) by (bit_vector)
            requires
                d == diff | (x ^ y),
        ;
        assert(a@.subrange(0, i + 1) == a@.subrange(0, i as int).push(x));
        assert(b@.subrange(0, i + 1) == b@.subrange(0, i as int).push(y));
        if diff == 0 && x == y {
        } else if diff != 0 {
            assert(a@.subrange(0, i + 1).subrange(0, i as int) == a@.subrange(0, i as int));
            assert(b@.subrange(0, i + 1).subrange(0, i as int) == b@.subrange(0, i as int));
        } else {
            assert(a@.subrange(0, i + 1)[i as int] != b@.subrange(0, i + 1)[i as int]);
        }
        diff = d;
        i = i + 1;
    }
    assert(a@.subrange(0, a@.len() as int) == a@);
    assert(b@.subrange(0, b@.len() as int) == b@);
    diff == 0
}

/// Returns `a` when `choice` is non-zero and `b` otherwise, without branching.
pub fn constant_time_select(choice: u8, a: u8, b: u8) -> (r: u8)
    ensures
        r == if choice != 0 { a } else { b },
{
    let neg = 0u8.wrapping_sub(choice);
    let is_nonzero = ((choice | neg) >> 7u8) & 1u8;
    assert(choice == 0 ==> neg == 0);
    assert(choice != 0 ==> (choice >= 128 || neg >= 128));
    assert(is_nonzero == if choice == 0 { 0u8 } else { 1u8 }) by (bit_vector)
        requires
            is_nonzero == ((choice | neg) >> 7u8) & 1u8,
            choice == 0 ==> neg == 0,
            choice != 0 ==> (choice >= 128 || neg >= 128),
    ;
    let low = is_nonzero.wrapping_sub(1);
    assert(low == if choice == 0 { 255u8 } else { 0u8 });
    let mask = !low;
    let r = (a & mask) | (b & !mask);
    assert(r == if choice != 0 { a } else { b }) by (bit_vector)
        requires
            low == if choice == 0 { 255u8 } else { 0u8 },
            mask == !low,
            r == (a & mask) | (b & !mask),
    ;
    r
}

/// Pads `data` to a multiple of `block_size`: a two-byte big-endian length,
/// the data, then zero bytes. Lengths above `u16::MAX` are recorded as `u16::MAX`.
pub fn pad_to_block_size(data: &[u8], block_size: usize) -> (r: Vec<u8>)
    requires
        block_size > 0,
        data@.len() + 2 + block_size <= usize::MAX,
    ensures
        r@ == padded_spec(data@, block_size as nat),
        (r@.len() as int) % (block_size as int) == 0,
{
    let data_len: u16 = if data.len() > 0xffff { 0xffff } else { data.len() as u16 };
    let unpadded_size: usize = 2 + data.len();
    let padding_needed: usize = if unpadded_size % block_size == 0 {
        0
    } else {
        block_size - (unpadded_size % block_size)
    };
    let total_length: usize = unpadded_size + padding_needed;
    let mut padded: Vec<u8> = Vec::with_capacity(total_length);
    padded.push((data_len / 256) as u8);
    padded.push((data_len % 256) as u8);
    append_bytes(&mut padded, data);
    let ghost prefix = padded@;
    let mut k: usize = 0;
    while k < padding_needed
        invariant
            k <= padding_needed,
            padded@ == prefix + Seq::new(k as nat, |i: int| 0u8),
        decreases padding_needed - k,
    {
        padded.push(0u8);
        k = k + 1;
        assert(padded@ =~= prefix + Seq::new(k as nat, |i: int| 0u8));
    }
    assert(prefix =~= be16(recorded_len(data@.len())) + data@);
    assert(padded@ =~= padded_spec(data@, block_size as nat));
    assert(total_length % block_size == 0) by {
        let u = unpadded_size as int;
        let b = block_size as int;
        if u % b != 0 {
            vstd::arithmetic::div_mod::lemma_fundamental_div_mod(u, b);
            vstd::arithmetic::div_mod::lemma_mod_multiples_basic(u / b + 1, b);
            assert(u + (b - u % b) == (u / b + 1) * b) by (nonlinear_arith)
                requires
                    u == b * (u / b) + u % b,
            ;
        }
    }
    padded
}

/// Removes the padding added by `pad_to_block_size`; `None` when the buffer
/// is shorter than its recorded length.
pub fn unpad(padded: &[u8]) -> (r: Option<Vec<u8>>)
    ensures
        r matches Some(v) ==> unpad_spec(padded@) == Some(v@),
        r is None ==> unpad_spec(padded@) is None,
{
    if padded.len() < 2 {
        return None;
    }
    let data_len: usize = (padded[0] as usize) * 256 + padded[1] as usize;
    if data_len + 2 > padded.len() {
        return None;
    }
    Some(copy_range(padded, 2, 2 + data_len))
}

/// Padding is undone by `unpad` whenever the length fits the two-byte prefix.
pub proof fn lemma_unpad_pad(data: Seq<u8>, block: nat)
    requires
        block > 0,
        data.len() <= 0xffff,
    ensures
        unpad_spec(padded_spec(data, block)) == Some(data),
{
    let p = padded_spec(data, block);
    let n = data.len() as u16;
    assert(be16_value(p[0], p[1]) == data.len()) by {
        assert(p[0] == (n / 256) as u8);
        assert(p[1] == (n % 256) as u8);
    }
    assert(p.subrange(2, data.len() + 2 as int) =~= data);
}

/// Compares two 64-bit values by folding every bit of their difference.
pub fn constant_time_eq_u64(a: u64, b: u64) -> (r: bool)
    ensures
        r == (a == b),
{
    let diff = a ^ b;
    let mut result: u64 = 0;
    let mut i: u64 = 0;
    while i < 64
        invariant
            i <= 64,
            diff == a ^ b,
            (result == 0) == (i == 0 || (diff << ((64 - i) as u64)) == 0),
        decreases 64 - i,
    {
        let bit = (diff >> i) & 1;
        assert(bit <= 1) by (bit_vector)
            requires
                bit == (diff >> i) & 1,
        ;
        let next = result | bit;
        assert((next == 0) == ((result == 0) && bit == 0)) by (bit_vector)
            requires
                next == result | bit,
                bit <= 1,
        ;
        assert(((diff << ((63 - i) as u64)) == 0) == ((i == 0 || (diff << ((64 - i) as u64)) == 0) && bit == 0)) by (bit_vector)
            requires
                i < 64,
                bit == (diff >> i) & 1,
        ;
        result = next;
        i = i + 1;
    }
    assert((diff << 0u64) == diff) by (bit_vector);
    assert((diff == 0) == (a == b)) by (bit_vector)
        requires
            diff == a ^ b,
    ;
    result == 0
}

/// Returns 1 when `a > b` and 0 otherwise.
pub fn constant_time_gt_u64(a: u64, b: u64) -> (r: u8)
    ensures
        r == if a > b { 1u8 } else { 0u8 },
{
    let diff = a.wrapping_sub(b);
    let underflow = a < b;
    let not_under: u8 = if underflow { 0 } else { 1 };
    let nonzero: u8 = if diff != 0 { 1 } else { 0 };
    assert(a >= b ==> diff == a - b);
    let r = not_under & nonzero;
    assert(r == if not_under == 1 && nonzero == 1 { 1u8 } else { 0u8 }) by (bit_vector)
        requires
            not_under <= 1,
            nonzero <= 1,
            r == not_under & nonzero,
    ;
    r
}

/// Prefixes `data` with its two-byte big-endian length (capped at
/// `u16::MAX`) and appends between `min_padding` and `max_padding` random
/// bytes (exactly `min_padding` when the range is empty).
pub fn add_random_padding(data: &[u8], min_padding: usize, max_padding: usize) -> (r: Vec<u8>)
    requires
        data@.len() + 2 + min_padding <= usize::MAX,
        data@.len() + 2 + max_padding <= usize::MAX,
    ensures
        r@.subrange(0, data@.len() + 2 as int) == be16(recorded_len(data@.len())) + data@,
        min_padding <= r@.len() - data@.len() - 2,
        max_padding > min_padding ==> r@.len() - data@.len() - 2 <= max_padding,
        max_padding <= min_padding ==> r@.len() == data@.len() + 2 + min_padding,
{
    let padding_len: usize = if max_padding > min_padding {
        random_in_range(min_padding, max_padding)
    } else {
        min_padding
    };
    let data_len: u16 = if data.len() > 0xffff { 0xffff } else { data.len() as u16 };
    let mut padded: Vec<u8> = Vec::with_capacity(data.len() + padding_len + 2);
    padded.push((data_len / 256) as u8);
    padded.push((data_len % 256) as u8);
    append_bytes(&mut padded, data);
    let ghost head = padded@;
    let padding = thread_random_bytes(padding_len);
    append_bytes(&mut padded, padding.as_slice());
    assert(head =~= be16(recorded_len(data@.len())) + data@);
    assert(padded@.subrange(0, data@.len() + 2 as int) =~= head);
    padded
}

/// Random padding is undone by `unpad` whenever the length fits the prefix.
pub proof fn lemma_unpad_random_padding(data: Seq<u8>, padded: Seq<u8>)
    requires
        data.len() <= 0xffff,
        padded.len() >= data.len() + 2,
        padded.subrange(0, data.len() + 2 as int) == be16(recorded_len(data.len())) + data,
    ensures
        unpad_spec(padded) == Some(data),
{
    let n = data.len() as u16;
    let head = padded.subrange(0, data.len() + 2 as int);
    assert(padded[0] == head[0] && padded[1] == head[1]);
    assert(head[0] == (n / 256) as u8);
    assert(head[1] == (n % 256) as u8);
    assert(padded.subrange(2, data.len() + 2 as int) =~= data) by {
        assert forall|i: int| 0 <= i < data.len() implies padded.subrange(2, data.len() + 2 as int)[i] == data[i] by {
            assert(padded[i + 2] == head[i + 2]);
        }
    }
}

} // verus!
