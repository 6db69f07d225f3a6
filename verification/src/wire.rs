//! Byte-level building blocks of the wire format: big-endian encodings of
//! the fixed-width integers, and the helpers that read and write them.

use vstd::prelude::*;

verus! {

/// Big-endian bytes of a `u16`.
pub open spec fn spec_be16(x: u16) -> Seq<u8> {
    seq![(x >> 8) as u8, x as u8]
}

/// Big-endian bytes of a `u32`.
pub open spec fn spec_be32(x: u32) -> Seq<u8> {
    seq![(x >> 24) as u8, (x >> 16) as u8, (x >> 8) as u8, x as u8]
}

/// Big-endian bytes of a `u64`.
pub open spec fn spec_be64(x: u64) -> Seq<u8> {
    seq![
        (x >> 56) as u8,
        (x >> 48) as u8,
        (x >> 40) as u8,
        (x >> 32) as u8,
        (x >> 24) as u8,
        (x >> 16) as u8,
        (x >> 8) as u8,
        x as u8,
    ]
}

/// The `u16` denoted by two big-endian bytes.
pub open spec fn spec_u16_from_be(b0: u8, b1: u8) -> u16 {
    ((b0 as u16) << 8) | (b1 as u16)
}

/// The `u32` denoted by four big-endian bytes.
pub open spec fn spec_u32_from_be(b0: u8, b1: u8, b2: u8, b3: u8) -> u32 {
    ((b0 as u32) << 24) | ((b1 as u32) << 16) | ((b2 as u32) << 8) | (b3 as u32)
}

/// The `u64` denoted by eight big-endian bytes.
pub open spec fn spec_u64_from_be(
    b0: u8,
    b1: u8,
    b2: u8,
    b3: u8,
    b4: u8,
    b5: u8,
    b6: u8,
    b7: u8,
) -> u64 {
    ((b0 as u64) << 56) | ((b1 as u64) << 48) | ((b2 as u64) << 40) | ((b3 as u64) << 32)
        | ((b4 as u64) << 24) | ((b5 as u64) << 16) | ((b6 as u64) << 8) | (b7 as u64)
}

/// Reading back the big-endian bytes of a `u16` yields the number again.
pub proof fn lemma_be16_round_trip(x: u16)
    ensures
        spec_u16_from_be(spec_be16(x)[0], spec_be16(x)[1]) == x,
{
    assert((((x >> 8) as u8 as u16) << 8) | (x as u8 as u16) == x) by (bit_vector);
}

/// Reading back the big-endian bytes of a `u32` yields the number again.
pub proof fn lemma_be32_round_trip(x: u32)
    ensures
        spec_u32_from_be(spec_be32(x)[0], spec_be32(x)[1], spec_be32(x)[2], spec_be32(x)[3]) == x,
{
    assert((((x >> 24) as u8 as u32) << 24) | (((x >> 16) as u8 as u32) << 16) | (((x
        >> 8) as u8 as u32) << 8) | (x as u8 as u32) == x) by (bit_vector);
}

/// Reading back the big-endian bytes of a `u64` yields the number again.
pub proof fn lemma_be64_round_trip(x: u64)
    ensures
        spec_u64_from_be(
            spec_be64(x)[0],
            spec_be64(x)[1],
            spec_be64(x)[2],
            spec_be64(x)[3],
            spec_be64(x)[4],
            spec_be64(x)[5],
            spec_be64(x)[6],
            spec_be64(x)[7],
        ) == x,
{
    assert((((x >> 56) as u8 as u64) << 56) | (((x >> 48) as u8 as u64) << 48) | (((x
        >> 40) as u8 as u64) << 40) | (((x >> 32) as u8 as u64) << 32) | (((x
        >> 24) as u8 as u64) << 24) | (((x >> 16) as u8 as u64) << 16) | (((x
        >> 8) as u8 as u64) << 8) | (x as u8 as u64) == x) by (bit_vector);
}

/// Appends one byte to the output.
pub fn write_u8(out: &mut Vec<u8>, x: u8)
    ensures
        final(out)@ == old(out)@ + seq![x],
{
    out.push(x);
}

/// Appends the big-endian bytes of a `u16` to the output.
pub fn write_u16_be(out: &mut Vec<u8>, x: u16)
    ensures
        final(out)@ == old(out)@ + spec_be16(x),
{
    out.push((x >> 8) as u8);
    out.push(x as u8);
    assert(out@ =~= old(out)@ + spec_be16(x));
}

/// Appends the big-endian bytes of a `u32` to the output.
pub fn write_u32_be(out: &mut Vec<u8>, x: u32)
    ensures
        final(out)@ == old(out)@ + spec_be32(x),
{
    out.push((x >> 24) as u8);
    out.push((x >> 16) as u8);
    out.push((x >> 8) as u8);
    out.push(x as u8);
    assert(out@ =~= old(out)@ + spec_be32(x));
}

/// Appends the big-endian bytes of a `u64` to the output.
pub fn write_u64_be(out: &mut Vec<u8>, x: u64)
    ensures
        final(out)@ == old(out)@ + spec_be64(x),
{
    out.push((x >> 56) as u8);
    out.push((x >> 48) as u8);
    out.push((x >> 40) as u8);
    out.push((x >> 32) as u8);
    out.push((x >> 24) as u8);
    out.push((x >> 16) as u8);
    out.push((x >> 8) as u8);
    out.push(x as u8);
    assert(out@ =~= old(out)@ + spec_be64(x));
}

/// Appends all bytes of `src` to the output.
pub fn append_bytes(out: &mut Vec<u8>, src: &Vec<u8>)
    ensures
        final(out)@ == old(out)@ + src@,
{
    let mut i: usize = 0;
    assert(out@ =~= old(out)@ + src@.subrange(0, 0));
    while i < src.len()
        invariant
            i <= src.len(),
            out@ == old(out)@ + src@.subrange(0, i as int),
        decreases src.len() - i,
    {
        out.push(src[i]);
        assert(out@ =~= old(out)@ + src@.subrange(0, i + 1));
        i = i + 1;
    }
    assert(src@.subrange(0, src.len() as int) =~= src@);
}

/// Appends all bytes of a slice to the output.
pub fn append_slice(out: &mut Vec<u8>, src: &[u8])
    ensures
        final(out)@ == old(out)@ + src@,
{
    let mut i: usize = 0;
    assert(out@ =~= old(out)@ + src@.subrange(0, 0));
    while i < src.len()
        invariant
            i <= src.len(),
            out@ == old(out)@ + src@.subrange(0, i as int),
        decreases src.len() - i,
    {
        out.push(src[i]);
        assert(out@ =~= old(out)@ + src@.subrange(0, i + 1));
        i = i + 1;
    }
    assert(src@.subrange(0, src@.len() as int) =~= src@);
}

/// Copies `buf[from..to]` into a fresh vector.
pub fn copy_range(buf: &Vec<u8>, from: usize, to: usize) -> (r: Vec<u8>)
    requires
        from <= to <= buf.len(),
    ensures
        r@ == buf@.subrange(from as int, to as int),
{
    let mut r: Vec<u8> = Vec::new();
    let mut i = from;
    assert(r@ =~= buf@.subrange(from as int, from as int));
    while i < to
        invariant
            from <= i <= to <= buf.len(),
            r@ == buf@.subrange(from as int, i as int),
        decreases to - i,
    {
        r.push(buf[i]);
        assert(r@ =~= buf@.subrange(from as int, i + 1));
        i = i + 1;
    }
    r
}

/// Reads a big-endian `u16` at `pos`.
pub fn read_u16_be(buf: &Vec<u8>, pos: usize) -> (r: u16)
    requires
        pos + 2 <= buf.len(),
    ensures
        r == spec_u16_from_be(buf@[pos as int], buf@[pos as int + 1]),
{
    let b0 = buf[pos];
    let b1 = buf[pos + 1];
    ((b0 as u16) << 8) | (b1 as u16)
}

/// Reads a big-endian `u32` at `pos`.
pub fn read_u32_be(buf: &Vec<u8>, pos: usize) -> (r: u32)
    requires
        pos + 4 <= buf.len(),
    ensures
        r == spec_u32_from_be(
            buf@[pos as int],
            buf@[pos as int + 1],
            buf@[pos as int + 2],
            buf@[pos as int + 3],
        ),
{
    let b0 = buf[pos];
    let b1 = buf[pos + 1];
    let b2 = buf[pos + 2];
    let b3 = buf[pos + 3];
    ((b0 as u32) << 24) | ((b1 as u32) << 16) | ((b2 as u32) << 8) | (b3 as u32)
}

/// Reads a big-endian `u64` at `pos`.
pub fn read_u64_be(buf: &Vec<u8>, pos: usize) -> (r: u64)
    requires
        pos + 8 <= buf.len(),
    ensures
        r == spec_u64_from_be(
            buf@[pos as int],
            buf@[pos as int + 1],
            buf@[pos as int + 2],
            buf@[pos as int + 3],
            buf@[pos as int + 4],
            buf@[pos as int + 5],
            buf@[pos as int + 6],
            buf@[pos as int + 7],
        ),
{
    let b0 = buf[pos];
    let b1 = buf[pos + 1];
    let b2 = buf[pos + 2];
    let b3 = buf[pos + 3];
    let b4 = buf[pos + 4];
    let b5 = buf[pos + 5];
    let b6 = buf[pos + 6];
    let b7 = buf[pos + 7];
    ((b0 as u64) << 56) | ((b1 as u64) << 48) | ((b2 as u64) << 40) | ((b3 as u64) << 32) | ((
    b4 as u64) << 24) | ((b5 as u64) << 16) | ((b6 as u64) << 8) | (b7 as u64)
}

} // verus!
