//! A fixed, seedless 64-bit content hash (FNV-1a), stable across processes.
use vstd::prelude::*;
use vstd::utf8::encode_utf8;

verus! {

pub const FNV_OFFSET: u64 = 0xcbf29ce484222325;

pub const FNV_PRIME: u64 = 0x100000001b3;

/// One FNV-1a round: xor the byte in, then multiply modulo 2^64.
pub open spec fn fnv_step(h: u64, b: u8) -> u64 {
    (((h ^ (b as u64)) as int * FNV_PRIME as int) % 0x1_0000_0000_0000_0000) as u64
}

/// The FNV-1a hash of a byte sequence.
pub open spec fn fnv_of(bytes: Seq<u8>) -> u64
    decreases bytes.len(),
{
    if bytes.len() == 0 {
        FNV_OFFSET
    } else {
        fnv_step(fnv_of(bytes.drop_last()), bytes.last())
    }
}

/// The hash of a text: FNV-1a over its UTF-8 encoding.
pub open spec fn text_hash(t: Seq<char>) -> u64 {
    fnv_of(encode_utf8(t))
}

fn step(h: u64, b: u8) -> (r: u64)
    ensures
        r == fnv_step(h, b),
{
    let x: u64 = h ^ (b as u64);
    let p: u128 = (x as u128) * (FNV_PRIME as u128);
    assert((x as u128) * (FNV_PRIME as u128) == x as int * FNV_PRIME as int) by (nonlinear_arith)
        requires x <= u64::MAX;
    (p % 0x1_0000_0000_0000_0000u128) as u64
}

/// Hashes raw bytes (used for image pixel buffers).
pub fn hash_bytes(bytes: &[u8]) -> (r: u64)
    ensures
        r == fnv_of(bytes@),
{
    let mut h: u64 = FNV_OFFSET;
    let mut i: usize = 0;
    while i < bytes.len()
        invariant
            0 <= i <= bytes@.len(),
            h == fnv_of(bytes@.take(i as int)),
        decreases bytes@.len() - i,
    {
        assert(bytes@.take(i + 1).drop_last() =~= bytes@.take(i as int));
        h = step(h, bytes[i]);
        i += 1;
    }
    assert(bytes@.take(i as int) =~= bytes@);
    h
}

/// Hashes a text through its UTF-8 bytes.
pub fn hash_text(s: &str) -> (r: u64)
    ensures
        r == text_hash(s@),
{
    hash_bytes(s.as_bytes())
}

} // verus!
