//! Little-endian fields of request and response packets.

use vstd::prelude::*;
use vstd::bytes::{
    spec_u16_from_le_bytes, spec_u16_to_le_bytes, spec_u32_from_le_bytes, spec_u32_to_le_bytes,
    spec_u64_from_le_bytes, spec_u64_to_le_bytes, u16_from_le_bytes, u16_to_le_bytes,
    u32_from_le_bytes, u32_to_le_bytes, u64_from_le_bytes, u64_to_le_bytes,
    lemma_auto_spec_u16_to_from_le_bytes, lemma_auto_spec_u32_to_from_le_bytes,
    lemma_auto_spec_u64_to_from_le_bytes,
};

verus! {

/// The little-endian bytes of a 16-bit value.
pub open spec fn le16(v: u16) -> Seq<u8> {
    spec_u16_to_le_bytes(v)
}

/// The little-endian bytes of a 32-bit value.
pub open spec fn le32(v: u32) -> Seq<u8> {
    spec_u32_to_le_bytes(v)
}

/// The little-endian bytes of a 64-bit value.
pub open spec fn le64(v: u64) -> Seq<u8> {
    spec_u64_to_le_bytes(v)
}

/// The 16-bit value stored little-endian at `s[off..off + 2]`.
pub open spec fn get_le16(s: Seq<u8>, off: int) -> u16 {
    spec_u16_from_le_bytes(s.subrange(off, off + 2))
}

/// The 32-bit value stored little-endian at `s[off..off + 4]`.
pub open spec fn get_le32(s: Seq<u8>, off: int) -> u32 {
    spec_u32_from_le_bytes(s.subrange(off, off + 4))
}

/// The 64-bit value stored little-endian at `s[off..off + 8]`.
pub open spec fn get_le64(s: Seq<u8>, off: int) -> u64 {
    spec_u64_from_le_bytes(s.subrange(off, off + 8))
}

/// `n` zero bytes.
pub open spec fn zeros(n: nat) -> Seq<u8> {
    Seq::new(n, |i: int| 0u8)
}

/// A sequence of 32-bit words stored little-endian one after the other.
pub open spec fn le_words(ws: Seq<u32>) -> Seq<u8>
    decreases ws.len(),
{
    if ws.len() == 0 {
        Seq::empty()
    } else {
        le_words(ws.drop_last()) + le32(ws.last())
    }
}

/// Encoding a 16-bit value and reading it back gives the value.
pub proof fn lemma_le16_roundtrip(v: u16)
    ensures
        le16(v).len() == 2,
        spec_u16_from_le_bytes(le16(v)) == v,
{
    lemma_auto_spec_u16_to_from_le_bytes();
    assert(spec_u16_to_le_bytes(v).len() == 2);
}

/// Encoding a 32-bit value and reading it back gives the value.
pub proof fn lemma_le32_roundtrip(v: u32)
    ensures
        le32(v).len() == 4,
        spec_u32_from_le_bytes(le32(v)) == v,
{
    lemma_auto_spec_u32_to_from_le_bytes();
    assert(spec_u32_to_le_bytes(v).len() == 4);
}

/// Encoding a 64-bit value and reading it back gives the value.
pub proof fn lemma_le64_roundtrip(v: u64)
    ensures
        le64(v).len() == 8,
        spec_u64_from_le_bytes(le64(v)) == v,
{
    lemma_auto_spec_u64_to_from_le_bytes();
    assert(spec_u64_to_le_bytes(v).len() == 8);
}

/// Word `i` of a word sequence stands at bytes `4 * i .. 4 * i + 4`.
pub proof fn lemma_le_words(ws: Seq<u32>)
    ensures
        le_words(ws).len() == 4 * ws.len(),
        forall|i: int|
            0 <= i < ws.len() ==> #[trigger] get_le32(le_words(ws), 4 * i) == ws[i],
    decreases ws.len(),
{
    if ws.len() > 0 {
        let init = ws.drop_last();
        lemma_le_words(init);
        lemma_le32_roundtrip(ws.last());
        let s = le_words(ws);
        assert forall|i: int| 0 <= i < ws.len() implies #[trigger] get_le32(s, 4 * i) == ws[i] by {
            if i < init.len() {
                assert(s.subrange(4 * i, 4 * i + 4) =~= le_words(init).subrange(4 * i, 4 * i + 4));
                assert(get_le32(le_words(init), 4 * i) == init[i]);
            } else {
                assert(s.subrange(4 * i, 4 * i + 4) =~= le32(ws.last()));
            }
        }
    }
}

/// Appends the little-endian bytes of a 16-bit value.
pub fn push_le16(out: &mut Vec<u8>, v: u16)
    ensures
        final(out)@ == old(out)@ + le16(v),
{
    let mut b = u16_to_le_bytes(v);
    out.append(&mut b);
}

/// Appends the little-endian bytes of a 32-bit value.
pub fn push_le32(out: &mut Vec<u8>, v: u32)
    ensures
        final(out)@ == old(out)@ + le32(v),
{
    let mut b = u32_to_le_bytes(v);
    out.append(&mut b);
}

/// Appends the little-endian bytes of a 64-bit value.
pub fn push_le64(out: &mut Vec<u8>, v: u64)
    ensures
        final(out)@ == old(out)@ + le64(v),
{
    let mut b = u64_to_le_bytes(v);
    out.append(&mut b);
}

/// Appends `n` zero bytes.
pub fn push_zeros(out: &mut Vec<u8>, n: usize)
    ensures
        final(out)@ == old(out)@ + zeros(n as nat),
{
    let ghost start = out@;
    let mut i: usize = 0;
    while i < n
        invariant
            i <= n,
            out@ == start + zeros(i as nat),
        decreases n - i,
    {
        out.push(0);
        i = i + 1;
        assert(out@ =~= start + zeros(i as nat));
    }
}

/// Appends bytes `src[from..to]`.
pub fn push_range(out: &mut Vec<u8>, src: &[u8], from: usize, to: usize)
    requires
        from <= to <= src@.len(),
    ensures
        final(out)@ == old(out)@ + src@.subrange(from as int, to as int),
{
    let ghost start = out@;
    let mut i: usize = from;
    while i < to
        invariant
            from <= i <= to <= src@.len(),
            out@ == start + src@.subrange(from as int, i as int),
        decreases to - i,
    {
        out.push(src[i]);
        i = i + 1;
        assert(out@ =~= start + src@.subrange(from as int, i as int));
    }
}

/// Reads the little-endian 16-bit value at `bytes[off..off + 2]`.
pub fn read_le16(bytes: &[u8], off: usize) -> (v: u16)
    requires
        off + 2 <= bytes@.len(),
    ensures
        v == get_le16(bytes@, off as int),
{
    let len = bytes.len();
    assert(off + 2 <= len);
    u16_from_le_bytes(&bytes[off..off + 2])
}

/// Reads the little-endian 32-bit value at `bytes[off..off + 4]`.
pub fn read_le32(bytes: &[u8], off: usize) -> (v: u32)
    requires
        off + 4 <= bytes@.len(),
    ensures
        v == get_le32(bytes@, off as int),
{
    let len = bytes.len();
    assert(off + 4 <= len);
    u32_from_le_bytes(&bytes[off..off + 4])
}

/// Reads the little-endian 64-bit value at `bytes[off..off + 8]`.
pub fn read_le64(bytes: &[u8], off: usize) -> (v: u64)
    requires
        off + 8 <= bytes@.len(),
    ensures
        v == get_le64(bytes@, off as int),
{
    let len = bytes.len();
    assert(off + 8 <= len);
    u64_from_le_bytes(&bytes[off..off + 8])
}

} // verus!
