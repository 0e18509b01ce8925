//! Byte-string helpers shared by the key schedule and the wire codec.
use vstd::prelude::*;

verus! {

/// Appends `src` to `out`.
pub fn append_bytes(out: &mut Vec<u8>, src: &[u8])
    ensures
        final(out)@ == old(out)@ + src@,
{
    let ghost start = out@;
    let mut i: usize = 0;
    while i < src.len()
        invariant
            i <= src@.len(),
            out@ == start + src@.subrange(0, i as int),
        decreases src@.len() - i,
    {
        out.push(src[i]);
        i = i + 1;
        assert(out@ =~= start + src@.subrange(0, i as int));
    }
    assert(src@.subrange(0, src@.len() as int) =~= src@);
}

/// Copies `src[from..to]` into a new vector.
pub fn copy_range(src: &[u8], from: usize, to: usize) -> (r: Vec<u8>)
    requires
        from <= to <= src@.len(),
    ensures
        r@ == src@.subrange(from as int, to as int),
{
    let mut r: Vec<u8> = Vec::with_capacity(to - from);
    let mut i: usize = from;
    while i < to
        invariant
            from <= i <= to <= src@.len(),
            r@ == src@.subrange(from as int, i as int),
        decreases to - i,
    {
        r.push(src[i]);
        i = i + 1;
        assert(r@ =~= src@.subrange(from as int, i as int));
    }
    r
}

/// Copies a 32-byte string into an array.
pub fn to_array32(src: &[u8]) -> (r: [u8; 32])
    requires
        src@.len() == 32,
    ensures
        r@ == src@,
{
    let mut r: [u8; 32] = [0u8; 32];
    let mut i: usize = 0;
    while i < 32
        invariant
            src@.len() == 32,
            i <= 32,
            r@.len() == 32,
            forall|j: int| 0 <= j < i ==> r@[j] == src@[j],
        decreases 32 - i,
    {
        r[i] = src[i];
        i = i + 1;
    }
    assert(r@ =~= src@);
    r
}

/// Copies a 24-byte string into an array.
pub fn to_array24(src: &[u8]) -> (r: [u8; 24])
    requires
        src@.len() == 24,
    ensures
        r@ == src@,
{
    let mut r: [u8; 24] = [0u8; 24];
    let mut i: usize = 0;
    while i < 24
        invariant
            src@.len() == 24,
            i <= 24,
            r@.len() == 24,
            forall|j: int| 0 <= j < i ==> r@[j] == src@[j],
        decreases 24 - i,
    {
        r[i] = src[i];
        i = i + 1;
    }
    assert(r@ =~= src@);
    r
}

/// Big-endian encoding of a 32-bit value.
pub open spec fn be32_bytes(x: u32) -> Seq<u8> {
    seq![(x >> 24u32) as u8, ((x >> 16u32) & 0xffu32) as u8, ((x >> 8u32) & 0xffu32) as u8, (x & 0xffu32) as u8]
}

/// Value of four big-endian bytes.
pub open spec fn be32_value(b0: u8, b1: u8, b2: u8, b3: u8) -> u32 {
    ((b0 as u32) << 24u32) | ((b1 as u32) << 16u32) | ((b2 as u32) << 8u32) | (b3 as u32)
}

/// Encodes a 32-bit value in big-endian order.
pub fn u32_to_be_bytes(x: u32) -> (r: Vec<u8>)
    ensures
        r@ == be32_bytes(x),
{
    let mut r: Vec<u8> = Vec::with_capacity(4);
    r.push((x >> 24u32) as u8);
    r.push(((x >> 16u32) & 0xffu32) as u8);
    r.push(((x >> 8u32) & 0xffu32) as u8);
    r.push((x & 0xffu32) as u8);
    assert(r@ =~= be32_bytes(x));
    r
}

/// Decodes four big-endian bytes.
pub fn u32_from_be_bytes(b0: u8, b1: u8, b2: u8, b3: u8) -> (r: u32)
    ensures
        r == be32_value(b0, b1, b2, b3),
{
    ((b0 as u32) << 24u32) | ((b1 as u32) << 16u32) | ((b2 as u32) << 8u32) | (b3 as u32)
}

/// Decoding the big-endian encoding of a value gives the value back.
pub proof fn lemma_be32_round_trip(x: u32)
    ensures
        be32_value(be32_bytes(x)[0], be32_bytes(x)[1], be32_bytes(x)[2], be32_bytes(x)[3]) == x,
{
    let b0 = (x >> 24u32) as u8;
    let b1 = ((x >> 16u32) & 0xffu32) as u8;
    let b2 = ((x >> 8u32) & 0xffu32) as u8;
    let b3 = (x & 0xffu32) as u8;
    assert(((b0 as u32) << 24u32) | ((b1 as u32) << 16u32) | ((b2 as u32) << 8u32) | (b3 as u32) == x) by (bit_vector)
        requires
            b0 == (x >> 24u32) as u8,
            b1 == ((x >> 16u32) & 0xffu32) as u8,
            b2 == ((x >> 8u32) & 0xffu32) as u8,
            b3 == (x & 0xffu32) as u8,
    ;
}

} // verus!
