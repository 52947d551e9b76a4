//! A 64-bit content hash over byte buffers (FNV-1a), used for the
//! last-written marker and the watcher's last-seen state. The hash is
//! process-internal: it is never persisted, so any fixed 64-bit hash of
//! the bytes alone serves.
use vstd::prelude::*;

verus! {

pub const FNV_OFFSET: u64 = 0xcbf29ce484222325;

pub const FNV_PRIME: u64 = 0x100000001b3;

/// One FNV-1a step: fold the byte in, then multiply modulo 2^64.
pub open spec fn spec_fnv1a_step(acc: u64, c: u8) -> u64 {
    (((acc ^ (c as u64)) as nat * FNV_PRIME as nat) % 0x10000000000000000nat) as u64
}

/// FNV-1a over `b` starting from accumulator `acc` at position `i`.
pub open spec fn spec_fnv1a_at(b: Seq<u8>, i: int, acc: u64) -> u64
    decreases b.len() - i,
{
    if i < 0 || i >= b.len() {
        acc
    } else {
        spec_fnv1a_at(b, i + 1, spec_fnv1a_step(acc, b[i]))
    }
}

/// The 64-bit content hash of a byte buffer.
pub open spec fn spec_content_hash(b: Seq<u8>) -> u64 {
    spec_fnv1a_at(b, 0, FNV_OFFSET)
}

/// Hash a byte buffer. Deterministic: equal buffers hash equal.
pub fn content_hash(b: &[u8]) -> (h: u64)
    ensures
        h == spec_content_hash(b@),
{
    let n = b.len();
    let mut acc: u64 = FNV_OFFSET;
    let mut i: usize = 0;
    while i < n
        invariant
            0 <= i <= n,
            n == b@.len(),
            spec_fnv1a_at(b@, i as int, acc) == spec_content_hash(b@),
        decreases n - i,
    {
        acc = (acc ^ (b[i] as u64)).wrapping_mul(FNV_PRIME);
        i = i + 1;
    }
    acc
}

} // verus!
