//! Little-endian integer and length-prefixed field encodings shared by the
//! wire protocol, with the lemmas that read each encoding back.

use vstd::prelude::*;
use vstd::utf8::*;

verus! {

/// The four little-endian bytes of `v`.
pub open spec fn le_u32(v: u32) -> Seq<u8> {
    seq![
        (v & 0xff) as u8,
        ((v >> 8u32) & 0xff) as u8,
        ((v >> 16u32) & 0xff) as u8,
        ((v >> 24u32) & 0xff) as u8,
    ]
}

/// The value of four little-endian bytes.
pub open spec fn u32_from_le(b0: u8, b1: u8, b2: u8, b3: u8) -> u32 {
    (b0 as u32) | ((b1 as u32) << 8u32) | ((b2 as u32) << 16u32) | ((b3 as u32) << 24u32)
}

/// The four little-endian bytes of the two's-complement form of `v`.
pub open spec fn le_i32(v: i32) -> Seq<u8> {
    le_u32(v as u32)
}

/// The eight little-endian bytes of `v`.
pub open spec fn le_u64(v: u64) -> Seq<u8> {
    le_u32((v & 0xffff_ffff) as u32) + le_u32((v >> 32u64) as u32)
}

/// The value of eight little-endian bytes, given as its low and high halves.
pub open spec fn u64_from_halves(lo: u32, hi: u32) -> u64 {
    (lo as u64) | ((hi as u64) << 32u64)
}

/// A byte string prefixed by its length as a little-endian `u32`.
pub open spec fn enc_bytes(b: Seq<u8>) -> Seq<u8> {
    le_u32(b.len() as u32) + b
}

/// A string as a length-prefixed run of UTF-8 bytes.
pub open spec fn enc_str(s: Seq<char>) -> Seq<u8> {
    enc_bytes(encode_utf8(s))
}

/// A boolean as one byte, `1` for true and `0` for false.
pub open spec fn enc_bool(b: bool) -> Seq<u8> {
    seq![if b { 1u8 } else { 0u8 }]
}

/// An optional string: a presence byte, then the string when present.
pub open spec fn enc_opt_str(o: Option<Seq<char>>) -> Seq<u8> {
    match o {
        None => seq![0u8],
        Some(s) => seq![1u8] + enc_str(s),
    }
}

/// True when a string's UTF-8 form is short enough for its `u32` length prefix.
pub open spec fn str_fits(s: Seq<char>) -> bool {
    encode_utf8(s).len() <= u32::MAX
}

/// True when an optional string fits its length prefix.
pub open spec fn opt_str_fits(o: Option<Seq<char>>) -> bool {
    match o {
        None => true,
        Some(s) => str_fits(s),
    }
}

pub proof fn lemma_u32_roundtrip(v: u32)
    ensures
        u32_from_le(le_u32(v)[0], le_u32(v)[1], le_u32(v)[2], le_u32(v)[3]) == v,
{
    let b0 = (v & 0xff) as u8;
    let b1 = ((v >> 8u32) & 0xff) as u8;
    let b2 = ((v >> 16u32) & 0xff) as u8;
    let b3 = ((v >> 24u32) & 0xff) as u8;
    assert((b0 as u32) | ((b1 as u32) << 8u32) | ((b2 as u32) << 16u32) | ((b3 as u32) << 24u32)
        == v) by (bit_vector)
        requires
            b0 == (v & 0xff) as u8,
            b1 == ((v >> 8u32) & 0xff) as u8,
            b2 == ((v >> 16u32) & 0xff) as u8,
            b3 == ((v >> 24u32) & 0xff) as u8,
    ;
}

pub proof fn lemma_i32_roundtrip(v: i32)
    ensures
        (u32_from_le(le_i32(v)[0], le_i32(v)[1], le_i32(v)[2], le_i32(v)[3]) as i32) == v,
{
    lemma_u32_roundtrip(v as u32);
    assert(((v as u32) as i32) == v) by (bit_vector);
}

pub proof fn lemma_u64_roundtrip(v: u64)
    ensures
        u64_from_halves(
            u32_from_le(le_u64(v)[0], le_u64(v)[1], le_u64(v)[2], le_u64(v)[3]),
            u32_from_le(le_u64(v)[4], le_u64(v)[5], le_u64(v)[6], le_u64(v)[7]),
        ) == v,
{
    let lo = (v & 0xffff_ffff) as u32;
    let hi = (v >> 32u64) as u32;
    lemma_u32_roundtrip(lo);
    lemma_u32_roundtrip(hi);
    assert(le_u64(v) =~= le_u32(lo) + le_u32(hi));
    assert(((lo as u64) | ((hi as u64) << 32u64)) == v) by (bit_vector)
        requires
            lo == (v & 0xffff_ffff) as u32,
            hi == (v >> 32u64) as u32,
    ;
}

/// Appends every byte of `data` to `buf`.
pub fn push_all(buf: &mut Vec<u8>, data: &[u8])
    ensures
        final(buf)@ == old(buf)@ + data@,
{
    let mut i: usize = 0;
    while i < data.len()
        invariant
            i <= data@.len(),
            buf@ == old(buf)@ + data@.subrange(0, i as int),
        decreases data@.len() - i,
    {
        buf.push(data[i]);
        i = i + 1;
        assert(data@.subrange(0, i as int) =~= data@.subrange(0, i - 1) + seq![data@[i - 1]]);
    }
    assert(data@.subrange(0, data@.len() as int) =~= data@);
}

/// Appends the little-endian bytes of `v` to `buf`.
pub fn push_u32_le(buf: &mut Vec<u8>, v: u32)
    ensures
        final(buf)@ == old(buf)@ + le_u32(v),
{
    buf.push((v & 0xff) as u8);
    buf.push(((v >> 8u32) & 0xff) as u8);
    buf.push(((v >> 16u32) & 0xff) as u8);
    buf.push(((v >> 24u32) & 0xff) as u8);
    assert(buf@ =~= old(buf)@ + le_u32(v));
}

/// Appends the little-endian two's-complement bytes of `v` to `buf`.
pub fn push_i32_le(buf: &mut Vec<u8>, v: i32)
    ensures
        final(buf)@ == old(buf)@ + le_i32(v),
{
    push_u32_le(buf, v as u32);
}

/// Appends the little-endian bytes of `v` to `buf`.
pub fn push_u64_le(buf: &mut Vec<u8>, v: u64)
    ensures
        final(buf)@ == old(buf)@ + le_u64(v),
{
    push_u32_le(buf, (v & 0xffff_ffff) as u32);
    push_u32_le(buf, (v >> 32u64) as u32);
    assert(buf@ =~= old(buf)@ + le_u64(v));
}

} // verus!
