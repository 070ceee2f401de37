//! Byte-sequence helpers shared by the vault format.
use vstd::prelude::*;

verus! {

/// Appends all of `src` to `dst`.
pub fn append_bytes(dst: &mut Vec<u8>, src: &[u8])
    ensures
        final(dst)@ == old(dst)@ + src@,
{
    let mut i: usize = 0;
    while i < src.len()
        invariant
            i <= src@.len(),
            dst@ == old(dst)@ + src@.take(i as int),
        decreases src@.len() - i,
    {
        dst.push(src[i]);
        i = i + 1;
        assert(src@.take(i as int) =~= src@.take(i - 1).push(src@[i - 1]));
    }
    assert(src@.take(src@.len() as int) =~= src@);
}

} // verus!

verus! {

/// Big-endian bytes of a 16-bit value.
pub open spec fn be16(v: u16) -> Seq<u8> {
    seq![(v >> 8u16) as u8, (v & 0xFFu16) as u8]
}

/// Big-endian bytes of a 32-bit value.
pub open spec fn be32(v: u32) -> Seq<u8> {
    seq![
        (v >> 24u32) as u8,
        ((v >> 16u32) & 0xFFu32) as u8,
        ((v >> 8u32) & 0xFFu32) as u8,
        (v & 0xFFu32) as u8,
    ]
}

/// The 16-bit value of the first two bytes of `b`, big-endian.
pub open spec fn from_be16(b: Seq<u8>) -> u16 {
    ((b[0] as u16) << 8u16) | (b[1] as u16)
}

/// The 32-bit value of the first four bytes of `b`, big-endian.
pub open spec fn from_be32(b: Seq<u8>) -> u32 {
    ((b[0] as u32) << 24u32) | ((b[1] as u32) << 16u32) | ((b[2] as u32) << 8u32) | (b[3] as u32)
}

pub proof fn lemma_be16_roundtrip(v: u16)
    ensures
        from_be16(be16(v)) == v,
{
    let b0 = (v >> 8u16) as u8;
    let b1 = (v & 0xFFu16) as u8;
    assert(((b0 as u16) << 8u16) | (b1 as u16) == v) by (bit_vector)
        requires
            b0 == (v >> 8u16) as u8,
            b1 == (v & 0xFFu16) as u8,
    ;
}

pub proof fn lemma_be32_roundtrip(v: u32)
    ensures
        from_be32(be32(v)) == v,
{
    let b0 = (v >> 24u32) as u8;
    let b1 = ((v >> 16u32) & 0xFFu32) as u8;
    let b2 = ((v >> 8u32) & 0xFFu32) as u8;
    let b3 = (v & 0xFFu32) as u8;
    assert(((b0 as u32) << 24u32) | ((b1 as u32) << 16u32) | ((b2 as u32) << 8u32) | (b3 as u32)
        == v) by (bit_vector)
        requires
            b0 == (v >> 24u32) as u8,
            b1 == ((v >> 16u32) & 0xFFu32) as u8,
            b2 == ((v >> 8u32) & 0xFFu32) as u8,
            b3 == (v & 0xFFu32) as u8,
    ;
}

/// Appends the big-endian bytes of `v`.
pub fn push_be16(out: &mut Vec<u8>, v: u16)
    ensures
        final(out)@ == old(out)@ + be16(v),
{
    out.push((v >> 8u16) as u8);
    out.push((v & 0xFFu16) as u8);
    assert(final(out)@ =~= old(out)@ + be16(v));
}

/// Appends the big-endian bytes of `v`.
pub fn push_be32(out: &mut Vec<u8>, v: u32)
    ensures
        final(out)@ == old(out)@ + be32(v),
{
    out.push((v >> 24u32) as u8);
    out.push(((v >> 16u32) & 0xFFu32) as u8);
    out.push(((v >> 8u32) & 0xFFu32) as u8);
    out.push((v & 0xFFu32) as u8);
    assert(final(out)@ =~= old(out)@ + be32(v));
}

/// The 16-bit big-endian value at `data[at..at + 2]`.
pub fn get_be16(data: &[u8], at: usize) -> (v: u16)
    requires
        at + 2 <= data.len(),
    ensures
        v == from_be16(data@.subrange(at as int, at + 2)),
{
    ((data[at] as u16) << 8u16) | (data[at + 1] as u16)
}

/// The 32-bit big-endian value at `data[at..at + 4]`.
pub fn get_be32(data: &[u8], at: usize) -> (v: u32)
    requires
        at + 4 <= data.len(),
    ensures
        v == from_be32(data@.subrange(at as int, at + 4)),
{
    ((data[at] as u32) << 24u32) | ((data[at + 1] as u32) << 16u32) | ((data[at + 2] as u32)
        << 8u32) | (data[at + 3] as u32)
}

/// Copy of `data[at..at + n]`.
pub fn copy_range(data: &[u8], at: usize, n: usize) -> (out: Vec<u8>)
    requires
        at + n <= data.len(),
    ensures
        out@ == data@.subrange(at as int, at + n),
{
    vstd::slice::slice_to_vec(vstd::slice::slice_subrange(data, at, at + n))
}

/// The 12 bytes at `data[at..at + 12]`.
pub fn copy_array12(data: &[u8], at: usize) -> (out: [u8; 12])
    requires
        at + 12 <= data.len(),
    ensures
        out@ == data@.subrange(at as int, at + 12),
{
    let mut out = [0u8; 12];
    let mut i: usize = 0;
    while i < 12
        invariant
            i <= 12,
            at + 12 <= data.len(),
            out@.len() == 12,
            forall|j: int| 0 <= j < i ==> out@[j] == data@[at + j],
        decreases 12 - i,
    {
        out[i] = data[at + i];
        i = i + 1;
    }
    assert(out@ =~= data@.subrange(at as int, at + 12));
    out
}

/// The 16 bytes at `data[at..at + 16]`.
pub fn copy_array16(data: &[u8], at: usize) -> (out: [u8; 16])
    requires
        at + 16 <= data.len(),
    ensures
        out@ == data@.subrange(at as int, at + 16),
{
    let mut out = [0u8; 16];
    let mut i: usize = 0;
    while i < 16
        invariant
            i <= 16,
            at + 16 <= data.len(),
            out@.len() == 16,
            forall|j: int| 0 <= j < i ==> out@[j] == data@[at + j],
        decreases 16 - i,
    {
        out[i] = data[at + i];
        i = i + 1;
    }
    assert(out@ =~= data@.subrange(at as int, at + 16));
    out
}

/// The 32 bytes at `data[at..at + 32]`.
pub fn copy_array32(data: &[u8], at: usize) -> (out: [u8; 32])
    requires
        at + 32 <= data.len(),
    ensures
        out@ == data@.subrange(at as int, at + 32),
{
    let mut out = [0u8; 32];
    let mut i: usize = 0;
    while i < 32
        invariant
            i <= 32,
            at + 32 <= data.len(),
            out@.len() == 32,
            forall|j: int| 0 <= j < i ==> out@[j] == data@[at + j],
        decreases 32 - i,
    {
        out[i] = data[at + i];
        i = i + 1;
    }
    assert(out@ =~= data@.subrange(at as int, at + 32));
    out
}

/// Whether every byte of `s` is zero.
pub fn all_zero(s: &[u8]) -> (b: bool)
    ensures
        b <==> (forall|i: int| 0 <= i < s@.len() ==> s@[i] == 0),
{
    let mut i: usize = 0;
    while i < s.len()
        invariant
            i <= s@.len(),
            forall|j: int| 0 <= j < i ==> s@[j] == 0,
        decreases s@.len() - i,
    {
        if s[i] != 0 {
            return false;
        }
        i = i + 1;
    }
    true
}

/// Whether two byte slices hold the same bytes.
pub fn bytes_eq(a: &[u8], b: &[u8]) -> (eq: bool)
    ensures
        eq <==> a@ == b@,
{
    if a.len() != b.len() {
        return false;
    }
    let mut i: usize = 0;
    while i < a.len()
        invariant
            i <= a@.len(),
            a@.len() == b@.len(),
            forall|j: int| 0 <= j < i ==> a@[j] == b@[j],
        decreases a@.len() - i,
    {
        if a[i] != b[i] {
            return false;
        }
        i = i + 1;
    }
    assert(a@ =~= b@);
    true
}

/// `Zeroize::zeroize` of the zeroize crate on a byte vector: it writes zeros
/// over the bytes and the spare capacity with volatile writes, then empties
/// the vector.
#[verifier::external_body]
pub fn wipe_vec(v: &mut Vec<u8>)
    ensures
        final(v)@.len() == 0,
{
    zeroize::Zeroize::zeroize(v);
}

/// `Zeroize::zeroize` of the zeroize crate on a 12-byte array: every byte
/// becomes zero.
#[verifier::external_body]
pub fn wipe_array12(a: &mut [u8; 12])
    ensures
        forall|i: int| 0 <= i < 12 ==> final(a)@[i] == 0,
{
    zeroize::Zeroize::zeroize(a);
}

/// `Zeroize::zeroize` of the zeroize crate on a 16-byte array: every byte
/// becomes zero.
#[verifier::external_body]
pub fn wipe_array16(a: &mut [u8; 16])
    ensures
        forall|i: int| 0 <= i < 16 ==> final(a)@[i] == 0,
{
    zeroize::Zeroize::zeroize(a);
}

/// `Zeroize::zeroize` of the zeroize crate on a 32-byte array: every byte
/// becomes zero.
#[verifier::external_body]
pub fn wipe_array32(a: &mut [u8; 32])
    ensures
        forall|i: int| 0 <= i < 32 ==> final(a)@[i] == 0,
{
    zeroize::Zeroize::zeroize(a);
}

} // verus!
