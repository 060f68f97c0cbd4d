//! Big-endian integer encoding on byte sequences.
use vstd::prelude::*;

verus! {

/// The two bytes of `x`, most significant first.
pub open spec fn be16(x: u16) -> Seq<u8> {
    seq![(x / 256) as u8, (x % 256) as u8]
}

/// The four bytes of `x`, most significant first.
pub open spec fn be32(x: u32) -> Seq<u8> {
    be16((x / 0x10000) as u16) + be16((x % 0x10000) as u16)
}

/// The eight bytes of `x`, most significant first.
pub open spec fn be64(x: u64) -> Seq<u8> {
    be32((x / 0x1_0000_0000) as u32) + be32((x % 0x1_0000_0000) as u32)
}

/// The big-endian `u16` stored at `b[i..i + 2]`.
pub open spec fn read_be16(b: Seq<u8>, i: int) -> u16 {
    (b[i] * 256 + b[i + 1]) as u16
}

/// The big-endian `u32` stored at `b[i..i + 4]`.
pub open spec fn read_be32(b: Seq<u8>, i: int) -> u32 {
    (read_be16(b, i) * 0x10000 + read_be16(b, i + 2)) as u32
}

/// The big-endian `u64` stored at `b[i..i + 8]`.
pub open spec fn read_be64(b: Seq<u8>, i: int) -> u64 {
    (read_be32(b, i) * 0x1_0000_0000 + read_be32(b, i + 4)) as u64
}

/// The two bytes of `x`, wherever they stand, read back as `x`.
pub proof fn lemma_be16(x: u16, pre: Seq<u8>, post: Seq<u8>)
    ensures
        be16(x).len() == 2,
        read_be16(pre + be16(x) + post, pre.len() as int) == x,
{
    let b = pre + be16(x) + post;
    assert(b[pre.len() as int] == (x / 256) as u8);
    assert(b[pre.len() as int + 1] == (x % 256) as u8);
}

/// The four bytes of `x`, wherever they stand, read back as `x`.
pub proof fn lemma_be32(x: u32, pre: Seq<u8>, post: Seq<u8>)
    ensures
        be32(x).len() == 4,
        read_be32(pre + be32(x) + post, pre.len() as int) == x,
{
    let hi = (x / 0x10000) as u16;
    let lo = (x % 0x10000) as u16;
    lemma_be16(hi, pre, be16(lo) + post);
    lemma_be16(lo, pre + be16(hi), post);
    assert(pre + be32(x) + post == pre + be16(hi) + (be16(lo) + post));
    assert(pre + be32(x) + post == pre + be16(hi) + be16(lo) + post);
}

/// The eight bytes of `x`, wherever they stand, read back as `x`.
pub proof fn lemma_be64(x: u64, pre: Seq<u8>, post: Seq<u8>)
    ensures
        be64(x).len() == 8,
        read_be64(pre + be64(x) + post, pre.len() as int) == x,
{
    let hi = (x / 0x1_0000_0000) as u32;
    let lo = (x % 0x1_0000_0000) as u32;
    lemma_be32(hi, pre, be32(lo) + post);
    lemma_be32(lo, pre + be32(hi), post);
    assert(pre + be64(x) + post == pre + be32(hi) + (be32(lo) + post));
    assert(pre + be64(x) + post == pre + be32(hi) + be32(lo) + post);
}

/// Bytes equal to the encoding of `x` read as `x`.
pub proof fn lemma_read_be16_at(s: Seq<u8>, i: int, x: u16)
    requires
        0 <= i,
        i + 2 <= s.len(),
        s.subrange(i, i + 2) == be16(x),
    ensures
        read_be16(s, i) == x,
{
    lemma_be16(x, Seq::empty(), Seq::empty());
    assert(Seq::<u8>::empty() + be16(x) + Seq::<u8>::empty() =~= be16(x));
    assert(s[i] == s.subrange(i, i + 2)[0]);
    assert(s[i + 1] == s.subrange(i, i + 2)[1]);
}

/// Bytes equal to the encoding of `x` read as `x`.
pub proof fn lemma_read_be32_at(s: Seq<u8>, i: int, x: u32)
    requires
        0 <= i,
        i + 4 <= s.len(),
        s.subrange(i, i + 4) == be32(x),
    ensures
        read_be32(s, i) == x,
{
    lemma_be32(x, Seq::empty(), Seq::empty());
    assert(Seq::<u8>::empty() + be32(x) + Seq::<u8>::empty() =~= be32(x));
    assert(forall|k: int| 0 <= k < 4 ==> s[i + k] == #[trigger] s.subrange(i, i + 4)[k]);
}

/// Bytes equal to the encoding of `x` read as `x`.
pub proof fn lemma_read_be64_at(s: Seq<u8>, i: int, x: u64)
    requires
        0 <= i,
        i + 8 <= s.len(),
        s.subrange(i, i + 8) == be64(x),
    ensures
        read_be64(s, i) == x,
{
    lemma_be64(x, Seq::empty(), Seq::empty());
    assert(Seq::<u8>::empty() + be64(x) + Seq::<u8>::empty() =~= be64(x));
    assert(forall|k: int| 0 <= k < 8 ==> s[i + k] == #[trigger] s.subrange(i, i + 8)[k]);
}

/// Appends `x`, most significant byte first.
pub fn push_u16(buf: &mut Vec<u8>, x: u16)
    ensures
        final(buf)@ == old(buf)@ + be16(x),
{
    buf.push((x / 256) as u8);
    buf.push((x % 256) as u8);
}

/// Appends `x`, most significant byte first.
pub fn push_u32(buf: &mut Vec<u8>, x: u32)
    ensures
        final(buf)@ == old(buf)@ + be32(x),
{
    push_u16(buf, (x / 0x10000) as u16);
    push_u16(buf, (x % 0x10000) as u16);
}

/// Appends `x`, most significant byte first.
pub fn push_u64(buf: &mut Vec<u8>, x: u64)
    ensures
        final(buf)@ == old(buf)@ + be64(x),
{
    push_u32(buf, (x / 0x1_0000_0000) as u32);
    push_u32(buf, (x % 0x1_0000_0000) as u32);
}

/// Appends every byte of `src` to `buf`.
pub fn push_bytes(buf: &mut Vec<u8>, src: &[u8])
    ensures
        final(buf)@ == old(buf)@ + src@,
{
    let mut i: usize = 0;
    while i < src.len()
        invariant
            i <= src@.len(),
            buf@ == old(buf)@ + src@.subrange(0, i as int),
        decreases src@.len() - i,
    {
        buf.push(src[i]);
        i = i + 1;
        assert(src@.subrange(0, i as int) == src@.subrange(0, i - 1) + seq![src@[i - 1]]);
    }
    assert(src@.subrange(0, src@.len() as int) == src@);
}

/// The big-endian `u16` at `b[i..i + 2]`.
pub fn get_u16(b: &[u8], i: usize) -> (r: u16)
    requires
        i + 2 <= b@.len(),
    ensures
        r == read_be16(b@, i as int),
{
    (b[i] as u16) * 256 + (b[i + 1] as u16)
}

/// The big-endian `u32` at `b[i..i + 4]`.
pub fn get_u32(b: &[u8], i: usize) -> (r: u32)
    requires
        i + 4 <= b@.len(),
    ensures
        r == read_be32(b@, i as int),
{
    let _n = b.len();
    (get_u16(b, i) as u32) * 0x10000 + (get_u16(b, i + 2) as u32)
}

/// The big-endian `u64` at `b[i..i + 8]`.
pub fn get_u64(b: &[u8], i: usize) -> (r: u64)
    requires
        i + 8 <= b@.len(),
    ensures
        r == read_be64(b@, i as int),
{
    let _n = b.len();
    (get_u32(b, i) as u64) * 0x1_0000_0000 + (get_u32(b, i + 4) as u64)
}

/// A copy of `b[from..to]`.
pub fn copy_range(b: &[u8], from: usize, to: usize) -> (r: Vec<u8>)
    requires
        from <= to <= b@.len(),
    ensures
        r@ == b@.subrange(from as int, to as int),
{
    let mut r: Vec<u8> = Vec::new();
    let mut i: usize = from;
    while i < to
        invariant
            from <= i <= to <= b@.len(),
            r@ == b@.subrange(from as int, i as int),
        decreases to - i,
    {
        r.push(b[i]);
        i = i + 1;
        assert(b@.subrange(from as int, i as int) == b@.subrange(from as int, i - 1) + seq![b@[i - 1]]);
    }
    r
}

} // verus!
