//! Deterministic routing of keys to shards.
//!
//! A key is hashed with 64-bit FNV-1a over its UTF-8 bytes, and the
//! hash is reduced modulo the shard count. The hash is a pure function
//! of the key's characters, so a key routes to the same shard for the
//! whole lifetime of a store.

use vstd::prelude::*;
use vstd::string::StringSliceAdditionalSpecFns;

verus! {

/// FNV-1a 64-bit offset basis.
pub const FNV_OFFSET: u64 = 0xcbf2_9ce4_8422_2325;

/// FNV-1a 64-bit prime.
pub const FNV_PRIME: u64 = 0x0000_0100_0000_01b3;

/// One FNV-1a step: fold one byte into the running hash.
pub open spec fn fnv_step(h: u64, b: u8) -> u64 {
    (h ^ (b as u64)).wrapping_mul(FNV_PRIME)
}

/// The FNV-1a hash of the first `i` bytes of `b`.
pub open spec fn fnv_prefix(b: Seq<u8>, i: int) -> u64
    decreases i,
{
    if i <= 0 {
        FNV_OFFSET
    } else {
        fnv_step(fnv_prefix(b, i - 1), b[i - 1])
    }
}

/// The FNV-1a hash of a whole byte sequence.
pub open spec fn fnv_hash(b: Seq<u8>) -> u64 {
    fnv_prefix(b, b.len() as int)
}

/// The shard that key `k` belongs to in a store of `n` shards. Opaque:
/// callers reason about routing as a pure function, through
/// [`lemma_route_in_range`]; only `route` itself computes it.
#[verifier::opaque]
pub open spec fn route_spec(k: Seq<char>, n: int) -> int
    recommends
        n > 0,
{
    (fnv_hash(vstd::utf8::encode_utf8(k)) as int) % n
}

/// Computes the shard index for `key` in a store of `shard_count` shards.
pub fn route(key: &str, shard_count: usize) -> (idx: usize)
    requires
        shard_count > 0,
    ensures
        idx == route_spec(key@, shard_count as int),
        idx < shard_count,
{
    let bytes: &[u8] = key.as_bytes();
    let n: usize = bytes.len();
    let mut h: u64 = FNV_OFFSET;
    let mut i: usize = 0;
    while i < n
        invariant
            n == bytes@.len(),
            bytes@ == key.spec_bytes(),
            i <= n,
            h == fnv_prefix(bytes@, i as int),
        decreases n - i,
    {
        h = (h ^ (bytes[i] as u64)).wrapping_mul(FNV_PRIME);
        i = i + 1;
    }
    let m: u64 = h % (shard_count as u64);
    assert(m < shard_count as u64);
    proof {
        reveal(route_spec);
    }
    m as usize
}

/// Every key routes to a shard that exists: the index is at least zero
/// and below the shard count.
pub broadcast proof fn lemma_route_in_range(k: Seq<char>, n: int)
    requires
        n > 0,
    ensures
        0 <= #[trigger] route_spec(k, n) < n,
{
    reveal(route_spec);
}

/// Routing determinism: the shard index is a pure function of the key's
/// characters and the shard count, so any two lookups of equal keys
/// within one store's lifetime land on the same shard, and that shard
/// exists.
pub proof fn lemma_route_deterministic(k1: Seq<char>, k2: Seq<char>, n: int)
    requires
        k1 == k2,
        n > 0,
    ensures
        route_spec(k1, n) == route_spec(k2, n),
        0 <= route_spec(k1, n) < n,
{
    lemma_route_in_range(k1, n);
}

} // verus!
