//! Little-endian integer fields and byte-string splicing for the wire
//! formats.

use vstd::prelude::*;
use vstd::arithmetic::div_mod::lemma_fundamental_div_mod;
use vstd::arithmetic::div_mod::lemma_div_denominator;

verus! {

/// The integer a 4-byte little-endian field denotes.
pub open spec fn le32(b: Seq<u8>) -> int
    recommends b.len() == 4,
{
    b[0] + 0x100 * b[1] + 0x10000 * b[2] + 0x1000000 * b[3]
}

/// The integer an 8-byte little-endian field denotes.
pub open spec fn le64(b: Seq<u8>) -> int
    recommends b.len() == 8,
{
    b[0] + 0x100 * b[1] + 0x10000 * b[2] + 0x1000000 * b[3]
        + 0x100000000 * b[4] + 0x10000000000 * b[5]
        + 0x1000000000000 * b[6] + 0x100000000000000 * b[7]
}

/// The 4-byte little-endian encoding of `v`.
pub open spec fn le32_bytes(v: u32) -> Seq<u8> {
    seq![
        (v % 0x100) as u8,
        ((v / 0x100) % 0x100) as u8,
        ((v / 0x10000) % 0x100) as u8,
        ((v / 0x1000000) % 0x100) as u8,
    ]
}

/// The 8-byte little-endian encoding of `v`.
#[verifier::opaque]
pub open spec fn le64_bytes(v: u64) -> Seq<u8> {
    seq![
        (v % 0x100) as u8,
        ((v / 0x100) % 0x100) as u8,
        ((v / 0x10000) % 0x100) as u8,
        ((v / 0x1000000) % 0x100) as u8,
        ((v / 0x100000000) % 0x100) as u8,
        ((v / 0x10000000000) % 0x100) as u8,
        ((v / 0x1000000000000) % 0x100) as u8,
        ((v / 0x100000000000000) % 0x100) as u8,
    ]
}

/// Encoding then decoding a 32-bit field is the identity.
pub proof fn lemma_le32_roundtrip(v: u32)
    ensures le32(le32_bytes(v)) == v,
{
    let x = v as int;
    let a1 = x / 0x100;
    let a2 = x / 0x10000;
    let a3 = x / 0x1000000;
    lemma_div_denominator(x, 0x100, 0x100);
    lemma_div_denominator(x, 0x10000, 0x100);
    assert(a2 == a1 / 0x100);
    assert(a3 == a2 / 0x100);
    lemma_fundamental_div_mod(x, 0x100);
    lemma_fundamental_div_mod(a1, 0x100);
    lemma_fundamental_div_mod(a2, 0x100);
    lemma_fundamental_div_mod(a3, 0x100);
    assert(a3 < 0x100);
    assert(a3 % 0x100 == a3);
}

/// Read the 4-byte little-endian field at `off`.
pub fn read_u32_le(b: &[u8], off: usize) -> (r: u32)
    requires off + 4 <= b@.len(),
    ensures r == le32(b@.subrange(off as int, off + 4)),
{
    let r: u32 = (b[off] as u32)
        + 0x100 * (b[off + 1] as u32)
        + 0x10000 * (b[off + 2] as u32)
        + 0x1000000 * (b[off + 3] as u32);
    proof {
        let s = b@.subrange(off as int, off + 4);
        assert(s[0] == b@[off as int] && s[1] == b@[off + 1]
            && s[2] == b@[off + 2] && s[3] == b@[off + 3]);
    }
    r
}

/// Read the 8-byte little-endian field at `off`.
pub fn read_u64_le(b: &[u8], off: usize) -> (r: u64)
    requires off + 8 <= b@.len(),
    ensures r == le64(b@.subrange(off as int, off + 8)),
{
    let r: u64 = (b[off] as u64)
        + 0x100 * (b[off + 1] as u64)
        + 0x10000 * (b[off + 2] as u64)
        + 0x1000000 * (b[off + 3] as u64)
        + 0x100000000 * (b[off + 4] as u64)
        + 0x10000000000 * (b[off + 5] as u64)
        + 0x1000000000000 * (b[off + 6] as u64)
        + 0x100000000000000 * (b[off + 7] as u64);
    proof {
        let s = b@.subrange(off as int, off + 8);
        assert(s[0] == b@[off as int] && s[1] == b@[off + 1]
            && s[2] == b@[off + 2] && s[3] == b@[off + 3]
            && s[4] == b@[off + 4] && s[5] == b@[off + 5]
            && s[6] == b@[off + 6] && s[7] == b@[off + 7]);
    }
    r
}

/// Append the 4-byte little-endian encoding of `v` to `out`.
pub fn put_u32_le(out: &mut Vec<u8>, v: u32)
    ensures final(out)@ == old(out)@ + le32_bytes(v),
{
    out.push((v % 0x100) as u8);
    out.push(((v / 0x100) % 0x100) as u8);
    out.push(((v / 0x10000) % 0x100) as u8);
    out.push(((v / 0x1000000) % 0x100) as u8);
    proof {
        assert(out@ =~= old(out)@ + le32_bytes(v));
    }
}

/// Append the 8-byte little-endian encoding of `v` to `out`.
pub fn put_u64_le(out: &mut Vec<u8>, v: u64)
    ensures
        final(out)@ == old(out)@ + le64_bytes(v),
        final(out)@.len() == old(out)@.len() + 8,
{
    proof {
        reveal(crate::bytes::le64_bytes);
    }
    out.push((v % 0x100) as u8);
    out.push(((v / 0x100) % 0x100) as u8);
    out.push(((v / 0x10000) % 0x100) as u8);
    out.push(((v / 0x1000000) % 0x100) as u8);
    out.push(((v / 0x100000000) % 0x100) as u8);
    out.push(((v / 0x10000000000) % 0x100) as u8);
    out.push(((v / 0x1000000000000) % 0x100) as u8);
    out.push(((v / 0x100000000000000) % 0x100) as u8);
    proof {
        reveal(crate::bytes::le64_bytes);
        assert(out@ =~= old(out)@ + le64_bytes(v));
    }
}


/// The integer an 8-byte big-endian field denotes.
pub open spec fn be64(b: Seq<u8>) -> int
    recommends b.len() == 8,
{
    0x100000000000000 * b[0] + 0x1000000000000 * b[1] + 0x10000000000 * b[2]
        + 0x100000000 * b[3] + 0x1000000 * b[4] + 0x10000 * b[5] + 0x100 * b[6] + b[7]
}

/// The 8-byte big-endian encoding of `v`.
#[verifier::opaque]
pub open spec fn be64_bytes(v: u64) -> Seq<u8> {
    seq![
        ((v / 0x100000000000000) % 0x100) as u8,
        ((v / 0x1000000000000) % 0x100) as u8,
        ((v / 0x10000000000) % 0x100) as u8,
        ((v / 0x100000000) % 0x100) as u8,
        ((v / 0x1000000) % 0x100) as u8,
        ((v / 0x10000) % 0x100) as u8,
        ((v / 0x100) % 0x100) as u8,
        (v % 0x100) as u8,
    ]
}

/// Encoding then decoding a big-endian 64-bit field is the identity.
pub proof fn lemma_be64_roundtrip(v: u64)
    ensures be64(be64_bytes(v)) == v,
{
    reveal(crate::bytes::be64_bytes);
    let x = v as int;
    let a1 = x / 0x100;
    let a2 = x / 0x10000;
    let a3 = x / 0x1000000;
    let a4 = x / 0x100000000;
    let a5 = x / 0x10000000000;
    let a6 = x / 0x1000000000000;
    let a7 = x / 0x100000000000000;
    lemma_div_denominator(x, 0x100, 0x100);
    lemma_div_denominator(x, 0x10000, 0x100);
    lemma_div_denominator(x, 0x1000000, 0x100);
    lemma_div_denominator(x, 0x100000000, 0x100);
    lemma_div_denominator(x, 0x10000000000, 0x100);
    lemma_div_denominator(x, 0x1000000000000, 0x100);
    assert(a2 == a1 / 0x100);
    assert(a3 == a2 / 0x100);
    assert(a4 == a3 / 0x100);
    assert(a5 == a4 / 0x100);
    assert(a6 == a5 / 0x100);
    assert(a7 == a6 / 0x100);
    lemma_fundamental_div_mod(x, 0x100);
    lemma_fundamental_div_mod(a1, 0x100);
    lemma_fundamental_div_mod(a2, 0x100);
    lemma_fundamental_div_mod(a3, 0x100);
    lemma_fundamental_div_mod(a4, 0x100);
    lemma_fundamental_div_mod(a5, 0x100);
    lemma_fundamental_div_mod(a6, 0x100);
    lemma_fundamental_div_mod(a7, 0x100);
    assert(a7 < 0x100);
    assert(a7 % 0x100 == a7);
}

/// Read the 8-byte big-endian field at `off`.
pub fn read_u64_be(b: &[u8], off: usize) -> (r: u64)
    requires off + 8 <= b@.len(),
    ensures r == be64(b@.subrange(off as int, off + 8)),
{
    let r: u64 = 0x100000000000000 * (b[off] as u64)
        + 0x1000000000000 * (b[off + 1] as u64)
        + 0x10000000000 * (b[off + 2] as u64)
        + 0x100000000 * (b[off + 3] as u64)
        + 0x1000000 * (b[off + 4] as u64)
        + 0x10000 * (b[off + 5] as u64)
        + 0x100 * (b[off + 6] as u64)
        + (b[off + 7] as u64);
    proof {
        let s = b@.subrange(off as int, off + 8);
        assert(s[0] == b@[off as int] && s[1] == b@[off + 1]
            && s[2] == b@[off + 2] && s[3] == b@[off + 3]
            && s[4] == b@[off + 4] && s[5] == b@[off + 5]
            && s[6] == b@[off + 6] && s[7] == b@[off + 7]);
    }
    r
}

/// Append the 8-byte big-endian encoding of `v` to `out`.
pub fn put_u64_be(out: &mut Vec<u8>, v: u64)
    ensures
        final(out)@ == old(out)@ + be64_bytes(v),
        final(out)@.len() == old(out)@.len() + 8,
{
    proof {
        reveal(crate::bytes::be64_bytes);
    }
    out.push(((v / 0x100000000000000) % 0x100) as u8);
    out.push(((v / 0x1000000000000) % 0x100) as u8);
    out.push(((v / 0x10000000000) % 0x100) as u8);
    out.push(((v / 0x100000000) % 0x100) as u8);
    out.push(((v / 0x1000000) % 0x100) as u8);
    out.push(((v / 0x10000) % 0x100) as u8);
    out.push(((v / 0x100) % 0x100) as u8);
    out.push((v % 0x100) as u8);
    proof {
        reveal(crate::bytes::be64_bytes);
        assert(out@ =~= old(out)@ + be64_bytes(v));
    }
}

/// Append every byte of `src` to `dst`.
pub fn push_all(dst: &mut Vec<u8>, src: &[u8])
    ensures final(dst)@ == old(dst)@ + src@,
{
    let mut i: usize = 0;
    while i < src.len()
        invariant
            i <= src@.len(),
            dst@ == old(dst)@ + src@.subrange(0, i as int),
        decreases src@.len() - i,
    {
        dst.push(src[i]);
        i = i + 1;
        proof {
            assert(dst@ =~= old(dst)@ + src@.subrange(0, i as int));
        }
    }
    proof {
        assert(src@.subrange(0, src@.len() as int) =~= src@);
    }
}

/// The bytes of `src` from `from` (inclusive) to `to` (exclusive), copied.
pub fn copy_range(src: &[u8], from: usize, to: usize) -> (r: Vec<u8>)
    requires from <= to && to <= src@.len(),
    ensures r@ == src@.subrange(from as int, to as int),
{
    let mut out: Vec<u8> = Vec::new();
    let mut i: usize = from;
    while i < to
        invariant
            from <= i <= to <= src@.len(),
            out@ == src@.subrange(from as int, i as int),
        decreases to - i,
    {
        out.push(src[i]);
        i = i + 1;
        proof {
            assert(out@ =~= src@.subrange(from as int, i as int));
        }
    }
    out
}

/// The 32 bytes of `src` starting at `off`, as an array.
pub fn take_32(src: &[u8], off: usize) -> (r: [u8; 32])
    requires off + 32 <= src@.len(),
    ensures r@ == src@.subrange(off as int, off + 32),
{
    let mut out: [u8; 32] = [0; 32];
    let n = src.len();
    let mut i: usize = 0;
    while i < 32
        invariant
            i <= 32,
            off + 32 <= n && n == src@.len(),
            forall|j: int| 0 <= j < i ==> out@[j] == src@[off + j],
        decreases 32 - i,
    {
        out[i] = src[off + i];
        i = i + 1;
    }
    proof {
        assert(out@ =~= src@.subrange(off as int, off + 32));
    }
    out
}

} // verus!
