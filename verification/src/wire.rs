//! Little-endian field codecs over byte sequences, used for every structure
//! that crosses the shared ring mapping.
use vstd::prelude::*;
use vstd::bytes::*;
use vstd::slice::slice_subrange;

verus! {

/// The little-endian `u16` stored at `off`.
pub open spec fn le_u16_at(s: Seq<u8>, off: int) -> u16 {
    spec_u16_from_le_bytes(s.subrange(off, off + 2))
}

/// The little-endian `u32` stored at `off`.
pub open spec fn le_u32_at(s: Seq<u8>, off: int) -> u32 {
    spec_u32_from_le_bytes(s.subrange(off, off + 4))
}

/// The little-endian `u64` stored at `off`.
pub open spec fn le_u64_at(s: Seq<u8>, off: int) -> u64 {
    spec_u64_from_le_bytes(s.subrange(off, off + 8))
}

/// Reads the little-endian `u16` at `off`.
pub fn read_u16_le(s: &[u8], off: usize) -> (r: u16)
    requires
        off + 2 <= s@.len(),
    ensures
        r == le_u16_at(s@, off as int),
{
    let _n = s.len();
    u16_from_le_bytes(slice_subrange(s, off, off + 2))
}

/// Reads the little-endian `u32` at `off`.
pub fn read_u32_le(s: &[u8], off: usize) -> (r: u32)
    requires
        off + 4 <= s@.len(),
    ensures
        r == le_u32_at(s@, off as int),
{
    let _n = s.len();
    u32_from_le_bytes(slice_subrange(s, off, off + 4))
}

/// Reads the little-endian `u64` at `off`.
pub fn read_u64_le(s: &[u8], off: usize) -> (r: u64)
    requires
        off + 8 <= s@.len(),
    ensures
        r == le_u64_at(s@, off as int),
{
    let _n = s.len();
    u64_from_le_bytes(slice_subrange(s, off, off + 8))
}

/// Appends the little-endian bytes of `x`.
pub fn push_u32_le(out: &mut Vec<u8>, x: u32)
    ensures
        final(out)@ == old(out)@ + spec_u32_to_le_bytes(x),
        spec_u32_to_le_bytes(x).len() == 4,
{
    proof {
        lemma_auto_spec_u32_to_from_le_bytes();
    }
    let mut b = u32_to_le_bytes(x);
    out.append(&mut b);
}

/// Appends the little-endian bytes of `x`.
pub fn push_u64_le(out: &mut Vec<u8>, x: u64)
    ensures
        final(out)@ == old(out)@ + spec_u64_to_le_bytes(x),
        spec_u64_to_le_bytes(x).len() == 8,
{
    proof {
        lemma_auto_spec_u64_to_from_le_bytes();
    }
    let mut b = u64_to_le_bytes(x);
    out.append(&mut b);
}

/// The encoding of a `u32` reads back as the same `u32` wherever it is placed.
pub proof fn lemma_u32_roundtrip(s: Seq<u8>, off: int, x: u32)
    requires
        0 <= off,
        off + 4 <= s.len(),
        s.subrange(off, off + 4) == spec_u32_to_le_bytes(x),
    ensures
        le_u32_at(s, off) == x,
{
    lemma_auto_spec_u32_to_from_le_bytes();
    assert(spec_u32_to_le_bytes(x).len() == 4);
}

/// The encoding of a `u64` reads back as the same `u64` wherever it is placed.
pub proof fn lemma_u64_roundtrip(s: Seq<u8>, off: int, x: u64)
    requires
        0 <= off,
        off + 8 <= s.len(),
        s.subrange(off, off + 8) == spec_u64_to_le_bytes(x),
    ensures
        le_u64_at(s, off) == x,
{
    lemma_auto_spec_u64_to_from_le_bytes();
}

/// `s` with the bytes at `off` replaced by `src`.
pub open spec fn seq_write(s: Seq<u8>, off: int, src: Seq<u8>) -> Seq<u8> {
    s.subrange(0, off) + src + s.subrange(off + src.len(), s.len() as int)
}

/// `len` zero bytes.
pub open spec fn zeros(len: int) -> Seq<u8> {
    Seq::new(len as nat, |i: int| 0u8)
}

/// Overwrites `src.len()` bytes of `buf` starting at `off`.
pub fn write_bytes_at(buf: &mut Vec<u8>, off: usize, src: &[u8])
    requires
        off + src@.len() <= old(buf)@.len(),
    ensures
        final(buf)@ == seq_write(old(buf)@, off as int, src@),
        final(buf)@.len() == old(buf)@.len(),
{
    let ghost orig = buf@;
    let _n = buf.len();
    let mut i: usize = 0;
    while i < src.len()
        invariant
            0 <= i <= src@.len(),
            off + src@.len() <= orig.len(),
            orig.len() <= usize::MAX,
            buf@.len() == orig.len(),
            forall|k: int| 0 <= k < off ==> buf@[k] == orig[k],
            forall|k: int| off <= k < off + i ==> buf@[k] == src@[k - off],
            forall|k: int| off + i <= k < orig.len() ==> buf@[k] == orig[k],
        decreases src@.len() - i,
    {
        buf.set(off + i, src[i]);
        i = i + 1;
    }
    assert(buf@ =~= orig.subrange(0, off as int) + src@ + orig.subrange(
        off + src@.len(),
        orig.len() as int,
    ));
}

/// Overwrites `len` bytes of `buf` starting at `off` with zero.
pub fn zero_bytes_at(buf: &mut Vec<u8>, off: usize, len: usize)
    requires
        off + len <= old(buf)@.len(),
    ensures
        final(buf)@ == seq_write(old(buf)@, off as int, zeros(len as int)),
        final(buf)@.len() == old(buf)@.len(),
        forall|k: int| 0 <= k < off ==> final(buf)@[k] == old(buf)@[k],
        forall|k: int| off <= k < off + len ==> final(buf)@[k] == 0,
        forall|k: int| off + len <= k < old(buf)@.len() ==> final(buf)@[k] == old(buf)@[k],
{
    let ghost orig = buf@;
    let _n = buf.len();
    let mut i: usize = 0;
    while i < len
        invariant
            0 <= i <= len,
            off + len <= orig.len(),
            orig.len() <= usize::MAX,
            buf@.len() == orig.len(),
            forall|k: int| 0 <= k < off ==> buf@[k] == orig[k],
            forall|k: int| off <= k < off + i ==> buf@[k] == 0,
            forall|k: int| off + i <= k < orig.len() ==> buf@[k] == orig[k],
        decreases len - i,
    {
        buf.set(off + i, 0);
        i = i + 1;
    }
    assert(buf@ =~= seq_write(orig, off as int, zeros(len as int)));
}

} // verus!

verus! {

/// If the bytes at `off` are `prefix + piece`, then the bytes at `off` are
/// `prefix` and the bytes right after it are `piece`.
pub proof fn lemma_peel(s: Seq<u8>, off: int, prefix: Seq<u8>, piece: Seq<u8>)
    requires
        0 <= off,
        off + prefix.len() + piece.len() <= s.len(),
        s.subrange(off, off + prefix.len() + piece.len()) == prefix + piece,
    ensures
        s.subrange(off, off + prefix.len()) == prefix,
        s.subrange(off + prefix.len(), off + prefix.len() + piece.len()) == piece,
{
    let t = s.subrange(off, off + prefix.len() + piece.len());
    assert forall|k: int| 0 <= k < prefix.len() implies s.subrange(off, off + prefix.len())[k]
        == prefix[k] by {
        assert(t[k] == (prefix + piece)[k]);
    }
    assert forall|k: int| 0 <= k < piece.len() implies s.subrange(
        off + prefix.len(),
        off + prefix.len() + piece.len(),
    )[k] == piece[k] by {
        assert(t[prefix.len() + k] == (prefix + piece)[prefix.len() + k]);
    }
    assert(s.subrange(off, off + prefix.len()) =~= prefix);
    assert(s.subrange(off + prefix.len(), off + prefix.len() + piece.len()) =~= piece);
}

/// Bytes outside a write are those of the sequence before it.
pub proof fn lemma_write_outside(s: Seq<u8>, off: int, src: Seq<u8>, a: int, b: int)
    requires
        0 <= off,
        off + src.len() <= s.len(),
        0 <= a <= b <= s.len(),
        b <= off || off + src.len() <= a,
    ensures
        seq_write(s, off, src).subrange(a, b) == s.subrange(a, b),
        seq_write(s, off, src).len() == s.len(),
{
    assert(seq_write(s, off, src).subrange(a, b) =~= s.subrange(a, b));
}

/// The bytes of a write are the written bytes.
pub proof fn lemma_write_inside(s: Seq<u8>, off: int, src: Seq<u8>)
    requires
        0 <= off,
        off + src.len() <= s.len(),
    ensures
        seq_write(s, off, src).subrange(off, off + src.len()) == src,
        seq_write(s, off, src).len() == s.len(),
{
    assert(seq_write(s, off, src).subrange(off, off + src.len()) =~= src);
}

/// A window inside a write shows the matching window of the written bytes.
pub proof fn lemma_write_sub(s: Seq<u8>, off: int, src: Seq<u8>, a: int, b: int)
    requires
        0 <= off <= a <= b <= off + src.len(),
        off + src.len() <= s.len(),
    ensures
        seq_write(s, off, src).subrange(a, b) == src.subrange(a - off, b - off),
{
    assert(seq_write(s, off, src).subrange(a, b) =~= src.subrange(a - off, b - off));
}

} // verus!

verus! {

/// Reads the little-endian `i32` at `off`.
pub fn read_i32_le(s: &[u8], off: usize) -> (r: i32)
    requires
        off + 4 <= s@.len(),
    ensures
        r == le_u32_at(s@, off as int) as i32,
{
    read_u32_le(s, off) as i32
}

/// Reads the little-endian `i16` at `off`.
pub fn read_i16_le(s: &[u8], off: usize) -> (r: i16)
    requires
        off + 2 <= s@.len(),
    ensures
        r == le_u16_at(s@, off as int) as i16,
{
    read_u16_le(s, off) as i16
}

} // verus!
