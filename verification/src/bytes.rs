//! Little-endian integers inside byte sequences, and the tail of a byte sequence.

use vstd::prelude::*;

verus! {

/// The unsigned 16-bit integer stored little-endian at `at`.
pub open spec fn u16_le(s: Seq<u8>, at: int) -> int {
    s[at] as int + 256 * (s[at + 1] as int)
}

/// The unsigned 32-bit integer stored little-endian at `at`.
pub open spec fn u32_le(s: Seq<u8>, at: int) -> int {
    s[at] as int + 256 * (s[at + 1] as int) + 65536 * (s[at + 2] as int) + 16777216 * (s[at
        + 3] as int)
}

/// The two bytes of `x`, least significant first.
pub open spec fn le_bytes_u16(x: u16) -> Seq<u8> {
    seq![(x % 256) as u8, (x / 256) as u8]
}

/// The four bytes of `x`, least significant first.
pub open spec fn le_bytes_u32(x: u32) -> Seq<u8> {
    seq![
        (x % 256) as u8,
        (x / 256 % 256) as u8,
        (x / 65536 % 256) as u8,
        (x / 16777216) as u8,
    ]
}

/// The eight bytes of `x`, least significant first.
pub open spec fn le_bytes_u64(x: u64) -> Seq<u8> {
    le_bytes_u32((x % 4294967296) as u32) + le_bytes_u32((x / 4294967296) as u32)
}

/// The last `n` elements of `s`.
pub open spec fn tail_of(s: Seq<u8>, n: int) -> Seq<u8> {
    s.subrange(s.len() - n, s.len() as int)
}

/// Writing a 16-bit integer and reading it back gives the integer.
pub proof fn lemma_u16_round_trip(x: u16)
    ensures
        le_bytes_u16(x).len() == 2,
        u16_le(le_bytes_u16(x), 0) == x,
{
}

/// Writing a 32-bit integer and reading it back gives the integer.
pub proof fn lemma_u32_round_trip(x: u32)
    ensures
        le_bytes_u32(x).len() == 4,
        u32_le(le_bytes_u32(x), 0) == x,
{
}

/// Reads the 16-bit little-endian integer at `at`, if two bytes are there.
pub fn read_u16_le(data: &[u8], at: usize) -> (value: Option<u16>)
    ensures
        at + 2 <= data@.len() ==> value == Some(u16_le(data@, at as int) as u16),
        at + 2 > data@.len() ==> value is None,
        value is Some ==> value->0 == u16_le(data@, at as int),
{
    if data.len() < 2 || at > data.len() - 2 {
        return None;
    }
    let b0: u16 = data[at] as u16;
    let b1: u16 = data[at + 1] as u16;
    Some(b0 + 256 * b1)
}

/// Reads the 32-bit little-endian integer at `at`, if four bytes are there.
pub fn read_u32_le(data: &[u8], at: usize) -> (value: Option<u32>)
    ensures
        at + 4 <= data@.len() ==> value == Some(u32_le(data@, at as int) as u32),
        at + 4 > data@.len() ==> value is None,
        value is Some ==> value->0 == u32_le(data@, at as int),
{
    if data.len() < 4 || at > data.len() - 4 {
        return None;
    }
    let b0: u32 = data[at] as u32;
    let b1: u32 = data[at + 1] as u32;
    let b2: u32 = data[at + 2] as u32;
    let b3: u32 = data[at + 3] as u32;
    Some(b0 + 256 * b1 + 65536 * b2 + 16777216 * b3)
}

/// Appends the two little-endian bytes of `x`.
pub fn push_u16_le(out: &mut Vec<u8>, x: u16)
    ensures
        final(out)@ == old(out)@ + le_bytes_u16(x),
{
    out.push((x % 256) as u8);
    out.push((x / 256) as u8);
    assert(out@ =~= old(out)@ + le_bytes_u16(x));
}

/// Appends the four little-endian bytes of `x`.
pub fn push_u32_le(out: &mut Vec<u8>, x: u32)
    ensures
        final(out)@ == old(out)@ + le_bytes_u32(x),
{
    out.push((x % 256) as u8);
    out.push((x / 256 % 256) as u8);
    out.push((x / 65536 % 256) as u8);
    out.push((x / 16777216) as u8);
    assert(out@ =~= old(out)@ + le_bytes_u32(x));
}

/// Appends the eight little-endian bytes of `x`.
pub fn push_u64_le(out: &mut Vec<u8>, x: u64)
    ensures
        final(out)@ == old(out)@ + le_bytes_u64(x),
{
    push_u32_le(out, (x % 4294967296) as u32);
    push_u32_le(out, (x / 4294967296) as u32);
    assert(out@ =~= old(out)@ + le_bytes_u64(x));
}

/// Appends every byte of `src`.
pub fn push_bytes(out: &mut Vec<u8>, src: &[u8])
    ensures
        final(out)@ == old(out)@ + src@,
{
    let mut i: usize = 0;
    while i < src.len()
        invariant
            0 <= i <= src@.len(),
            out@ == old(out)@ + src@.take(i as int),
        decreases src@.len() - i,
    {
        out.push(src[i]);
        i += 1;
        assert(out@ =~= old(out)@ + src@.take(i as int));
    }
    assert(src@.take(src@.len() as int) =~= src@);
}

/// Copies `data[from..to]`.
pub fn copy_range(data: &[u8], from: usize, to: usize) -> (out: Vec<u8>)
    requires
        from <= to <= data@.len(),
    ensures
        out@ == data@.subrange(from as int, to as int),
{
    let mut out: Vec<u8> = Vec::new();
    let mut i: usize = from;
    while i < to
        invariant
            from <= i <= to <= data@.len(),
            out@ == data@.subrange(from as int, i as int),
        decreases to - i,
    {
        out.push(data[i]);
        i += 1;
        assert(out@ =~= data@.subrange(from as int, i as int));
    }
    out
}

/// Copies the last `n` bytes of `data`.
pub fn tail(data: &[u8], n: usize) -> (out: Vec<u8>)
    requires
        n <= data@.len(),
    ensures
        out@ == tail_of(data@, n as int),
        out@.len() == n,
{
    copy_range(data, data.len() - n, data.len())
}

} // verus!
