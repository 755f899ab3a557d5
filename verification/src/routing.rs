//! Where a job goes: the shard of its ordering key, the stripe of its queue,
//! the bucket of its terminal counter.
use std::collections::hash_map::DefaultHasher;
use std::hash::{Hash, Hasher};
use vstd::prelude::*;
use vstd::string::*;

verus! {

pub const TERMINAL_COUNTER_BUCKETS: i16 = 256;

/// The portable 64-bit hash of an ordering key: starting from the offset basis,
/// each byte in turn multiplies by the prime and is added, modulo 2^64.
pub open spec fn key_hash(key: Seq<u8>) -> nat
    decreases key.len(),
{
    if key.len() == 0 {
        14_695_981_039_346_656_037
    } else {
        (key_hash(key.drop_last()) * 1_099_511_628_211 + key.last() as nat)
            % 0x1_0000_0000_0000_0000
    }
}

proof fn lemma_key_hash_bound(key: Seq<u8>)
    ensures
        key_hash(key) < 0x1_0000_0000_0000_0000,
    decreases key.len(),
{
    if key.len() > 0 {
        lemma_key_hash_bound(key.drop_last());
    }
}

/// Hashes the bytes of an ordering key. The hash is simple enough to be
/// written down in SQL as well, so that every producer that passes the same
/// bytes routes alike.
pub fn ordering_key_hash64(ordering_key: &[u8]) -> (r: u64)
    ensures
        r == key_hash(ordering_key@),
{
    let mut hash: u128 = 14_695_981_039_346_656_037;
    let mut i: usize = 0;
    while i < ordering_key.len()
        invariant
            i <= ordering_key.len(),
            hash == key_hash(ordering_key@.subrange(0, i as int)),
            hash < 0x1_0000_0000_0000_0000,
        decreases ordering_key.len() - i,
    {
        proof {
            let next = ordering_key@.subrange(0, i as int + 1);
            assert(next.drop_last() =~= ordering_key@.subrange(0, i as int));
            assert(next.last() == ordering_key@[i as int]);
        }
        hash = (hash * 1_099_511_628_211 + ordering_key[i] as u128) % 0x1_0000_0000_0000_0000;
        i = i + 1;
    }
    assert(ordering_key@.subrange(0, ordering_key@.len() as int) =~= ordering_key@);
    hash as u64
}

/// The shard of an ordering key on a queue with `shards` shards.
pub open spec fn shard_of_key(key: Seq<u8>, shards: int) -> int {
    if shards <= 1 {
        0
    } else {
        key_hash(key) as int % shards
    }
}

/// Maps an ordering key to a shard.
pub fn shard_for_ordering_key(ordering_key: &[u8], shards: i16) -> (r: i16)
    ensures
        r == shard_of_key(ordering_key@, shards as int),
{
    if shards <= 1 {
        return 0;
    }
    let shard: u64 = ordering_key_hash64(ordering_key) % (shards as u64);
    assert(shard < shards);
    shard as i16
}

/// The shard of a key is one of the queue's shards.
pub proof fn law_shard_in_range(key: Seq<u8>, shards: int)
    ensures
        0 <= shard_of_key(key, shards),
        shard_of_key(key, shards) < (if shards <= 1 {
            1
        } else {
            shards
        }),
{
}

/// The shard that a raw rotor value stands for.
pub open spec fn shard_of_rotor(raw: u16, shards: int) -> int {
    if shards <= 1 {
        0
    } else {
        raw as int % shards
    }
}

/// The shard for a batch without ordering keys, from a raw rotor value.
pub fn shard_for_rotor(raw: u16, shards: i16) -> (r: i16)
    ensures
        r == shard_of_rotor(raw, shards as int),
{
    if shards <= 1 {
        return 0;
    }
    let shard: i32 = (raw as i32) % (shards as i32);
    assert(0 <= shard < shards);
    shard as i16
}

/// The terminal counter bucket of a job.
pub fn terminal_counter_bucket(job_id: i64) -> (r: i16)
    ensures
        r == job_id as int % 256,
{
    match job_id.checked_rem_euclid(256) {
        Some(bucket) => bucket as i16,
        None => 0,
    }
}

/// Calls `Hash::hash` of `Vec<u8>`, which feeds the key to the hasher. Nothing is
/// claimed of what it feeds: the length that goes in has the machine's word size.
#[verifier::external_body]
fn feed_key(key: &Vec<u8>, hasher: &mut DefaultHasher) {
    key.hash(hasher)
}

/// Hashes a unique key with `DefaultHasher`, as `Hash` for `Vec<u8>` feeds it.
pub(crate) fn unique_key_hash(key: &Vec<u8>) -> (r: u64) {
    let mut hasher = DefaultHasher::new();
    feed_key(key, &mut hasher);
    hasher.finish()
}

/// The stripe for the hash of a unique key.
pub fn stripe_for_hash(hash: u64, stripes: usize) -> (r: usize)
    requires
        stripes > 0,
    ensures
        r == (hash as usize) % stripes,
        r < stripes,
{
    (hash as usize) % stripes
}

/// The stripe for a job without a unique key.
pub fn stripe_for_salt(salt: i64, stripes: usize) -> (r: usize)
    requires
        0 < stripes <= i64::MAX,
    ensures
        r == salt as int % stripes as int,
        r < stripes,
{
    match salt.checked_rem_euclid(stripes as i64) {
        Some(stripe) => stripe as usize,
        None => 0,
    }
}

} // verus!
