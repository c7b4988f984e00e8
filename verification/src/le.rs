//! Little-endian encoding of the fixed-width integers that ACPI tables hold,
//! and small helpers that append encoded values to a byte buffer.
use vstd::prelude::*;

verus! {

/// The bytes of `v`, least significant first.
pub open spec fn le16(v: u16) -> Seq<u8> {
    seq![(v % 256) as u8, (v / 256) as u8]
}

/// The bytes of `v`, least significant first.
pub open spec fn le32(v: u32) -> Seq<u8> {
    seq![
        (v % 0x100) as u8,
        ((v / 0x100) % 0x100) as u8,
        ((v / 0x1_0000) % 0x100) as u8,
        (v / 0x100_0000) as u8,
    ]
}

/// The bytes of `v`, least significant first.
pub open spec fn le64(v: u64) -> Seq<u8> {
    le32((v % 0x1_0000_0000) as u32) + le32((v / 0x1_0000_0000) as u32)
}

/// `n` zero bytes.
pub open spec fn zeros(n: nat) -> Seq<u8> {
    Seq::new(n, |i: int| 0u8)
}

/// Little-endian bytes of a `u16`, through `zerocopy::byteorder::U16<LE>`:
/// `U16::<LE>::new` stores `v.to_le_bytes()` and `to_bytes` hands them out.
#[verifier::external_body]
pub(crate) fn le16_bytes(v: u16) -> (b: [u8; 2])
    ensures
        b@ == le16(v),
{
    zerocopy::byteorder::U16::<zerocopy::byteorder::LE>::new(v).to_bytes()
}

/// Little-endian bytes of a `u32`, through `zerocopy::byteorder::U32<LE>`:
/// `U32::<LE>::new` stores `v.to_le_bytes()` and `to_bytes` hands them out.
#[verifier::external_body]
pub(crate) fn le32_bytes(v: u32) -> (b: [u8; 4])
    ensures
        b@ == le32(v),
{
    zerocopy::byteorder::U32::<zerocopy::byteorder::LE>::new(v).to_bytes()
}

/// Little-endian bytes of a `u64`, through `zerocopy::byteorder::U64<LE>`:
/// `U64::<LE>::new` stores `v.to_le_bytes()` and `to_bytes` hands them out.
#[verifier::external_body]
pub(crate) fn le64_bytes(v: u64) -> (b: [u8; 8])
    ensures
        b@ == le64(v),
{
    zerocopy::byteorder::U64::<zerocopy::byteorder::LE>::new(v).to_bytes()
}

/// Appends every byte of `s` to `out`.
pub fn push_slice(out: &mut Vec<u8>, s: &[u8])
    ensures
        final(out)@ == old(out)@ + s@,
{
    let ghost start = out@;
    let mut i: usize = 0;
    while i < s.len()
        invariant
            i <= s.len(),
            out@ == start + s@.subrange(0, i as int),
        decreases s.len() - i,
    {
        out.push(s[i]);
        i = i + 1;
        assert(out@ =~= start + s@.subrange(0, i as int));
    }
    assert(s@.subrange(0, s@.len() as int) =~= s@);
}

/// Appends `n` zero bytes to `out`.
pub fn push_zeros(out: &mut Vec<u8>, n: usize)
    ensures
        final(out)@ == old(out)@ + zeros(n as nat),
{
    let ghost start = out@;
    let mut i: usize = 0;
    while i < n
        invariant
            i <= n,
            out@ == start + zeros(i as nat),
        decreases n - i,
    {
        out.push(0u8);
        i = i + 1;
        assert(out@ =~= start + zeros(i as nat));
    }
}

/// Appends the little-endian bytes of `v` to `out`.
pub fn push_u16(out: &mut Vec<u8>, v: u16)
    ensures
        final(out)@ == old(out)@ + le16(v),
{
    let b = le16_bytes(v);
    push_slice(out, &b);
}

/// Appends the little-endian bytes of `v` to `out`.
pub fn push_u32(out: &mut Vec<u8>, v: u32)
    ensures
        final(out)@ == old(out)@ + le32(v),
{
    let b = le32_bytes(v);
    push_slice(out, &b);
}

/// Appends the little-endian bytes of `v` to `out`.
pub fn push_u64(out: &mut Vec<u8>, v: u64)
    ensures
        final(out)@ == old(out)@ + le64(v),
{
    let b = le64_bytes(v);
    push_slice(out, &b);
}

} // verus!
