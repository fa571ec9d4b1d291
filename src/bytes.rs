//! Little-endian byte encodings and writes of them into byte buffers.

use vstd::prelude::*;

verus! {

/// The two little-endian bytes of `v`.
pub open spec fn le_u16(v: u16) -> Seq<u8> {
    seq![(v % 0x100) as u8, (v / 0x100) as u8]
}

/// The four little-endian bytes of `v`.
pub open spec fn le_u32(v: u32) -> Seq<u8> {
    seq![
        (v % 0x100) as u8,
        ((v / 0x100) % 0x100) as u8,
        ((v / 0x1_0000) % 0x100) as u8,
        (v / 0x100_0000) as u8,
    ]
}

/// The value of two little-endian bytes.
pub open spec fn read_le_u16(b: Seq<u8>) -> u16 {
    (b[0] + b[1] * 0x100) as u16
}

/// The value of four little-endian bytes.
pub open spec fn read_le_u32(b: Seq<u8>) -> u32 {
    (b[0] + b[1] * 0x100 + b[2] * 0x1_0000 + b[3] * 0x100_0000) as u32
}

/// `n` zero bytes.
pub open spec fn zeros(n: nat) -> Seq<u8> {
    Seq::new(n, |i: int| 0u8)
}

/// `buf` with `bytes` written over it from offset `at` on.
pub open spec fn written(buf: Seq<u8>, at: int, bytes: Seq<u8>) -> Seq<u8> {
    buf.subrange(0, at) + bytes + buf.subrange(at + bytes.len(), buf.len() as int)
}

/// Reading back the bytes of a 16-bit value gives the value.
pub proof fn lemma_le_u16_round_trip(v: u16)
    ensures
        read_le_u16(le_u16(v)) == v,
{
}

/// Reading back the bytes of a 32-bit value gives the value.
pub proof fn lemma_le_u32_round_trip(v: u32)
    ensures
        read_le_u32(le_u32(v)) == v,
{
}

/// Two writes side by side are one write of both.
pub proof fn lemma_written_concat(buf: Seq<u8>, at: int, a: Seq<u8>, b: Seq<u8>)
    requires
        0 <= at,
        at + a.len() + b.len() <= buf.len(),
    ensures
        written(written(buf, at, a), at + a.len(), b) == written(buf, at, a + b),
{
    assert(written(written(buf, at, a), at + a.len(), b) =~= written(buf, at, a + b));
}

/// Writes the two little-endian bytes of `v` at offset `at`.
pub fn put_u16_le(buf: &mut [u8], at: usize, v: u16)
    requires
        at + 2 <= old(buf)@.len(),
    ensures
        final(buf)@ == written(old(buf)@, at as int, le_u16(v)),
{
    buf[at] = (v & 0xff) as u8;
    buf[at + 1] = (v >> 8u16) as u8;
    assert((v & 0xff) as u8 == (v % 0x100) as u8 && (v >> 8u16) as u8 == (v / 0x100) as u8)
        by (bit_vector);
    assert(buf@ =~= written(old(buf)@, at as int, le_u16(v)));
}

/// Writes the four little-endian bytes of `v` at offset `at`.
pub fn put_u32_le(buf: &mut [u8], at: usize, v: u32)
    requires
        at + 4 <= old(buf)@.len(),
    ensures
        final(buf)@ == written(old(buf)@, at as int, le_u32(v)),
{
    buf[at] = (v & 0xff) as u8;
    buf[at + 1] = ((v >> 8u32) & 0xff) as u8;
    buf[at + 2] = ((v >> 16u32) & 0xff) as u8;
    buf[at + 3] = (v >> 24u32) as u8;
    assert((v & 0xff) as u8 == (v % 0x100) as u8 && ((v >> 8u32) & 0xff) as u8 == ((v / 0x100)
        % 0x100) as u8 && ((v >> 16u32) & 0xff) as u8 == ((v / 0x1_0000) % 0x100) as u8 && (v
        >> 24u32) as u8 == (v / 0x100_0000) as u8) by (bit_vector);
    assert(buf@ =~= written(old(buf)@, at as int, le_u32(v)));
}

/// Writes `n` zero bytes at offset `at`.
pub fn put_zeros(buf: &mut [u8], at: usize, n: usize)
    requires
        at + n <= old(buf)@.len(),
    ensures
        final(buf)@ == written(old(buf)@, at as int, zeros(n as nat)),
{
    let len = buf.len();
    let mut k: usize = 0;
    while k < n
        invariant
            k <= n,
            len == old(buf)@.len(),
            at + n <= old(buf)@.len(),
            buf@ == written(old(buf)@, at as int, zeros(k as nat)),
        decreases n - k,
    {
        buf[at + k] = 0;
        k = k + 1;
        assert(buf@ =~= written(old(buf)@, at as int, zeros(k as nat)));
    }
}

/// Copies `src` into `buf` at offset `at`.
pub fn put_bytes(buf: &mut [u8], at: usize, src: &[u8])
    requires
        at + src@.len() <= old(buf)@.len(),
    ensures
        final(buf)@ == written(old(buf)@, at as int, src@),
{
    let len = buf.len();
    let mut k: usize = 0;
    while k < src.len()
        invariant
            k <= src@.len(),
            len == old(buf)@.len(),
            at + src@.len() <= old(buf)@.len(),
            buf@ == written(old(buf)@, at as int, src@.subrange(0, k as int)),
        decreases src@.len() - k,
    {
        buf[at + k] = src[k];
        k = k + 1;
        assert(buf@ =~= written(old(buf)@, at as int, src@.subrange(0, k as int)));
    }
    assert(src@.subrange(0, src@.len() as int) =~= src@);
}

} // verus!
