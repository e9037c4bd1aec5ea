//! Distribution of packets over aggregator workers.

use vstd::prelude::*;
use std::hash::{Hash, Hasher};
use crate::packet::{law_reversed_packet_has_same_key, FlowId, FlowKey, PacketEvent};

verus! {

/// Hashes a flow key, as a tuple of integers, with `ahash::AHasher::default`. The hasher's
/// keys are drawn once per process, so nothing is claimed of the value.
#[verifier::external_body]
fn hash_key(id: FlowId) -> u64 {
    let mut hasher = ahash::AHasher::default();
    id.hash(&mut hasher);
    hasher.finish()
}

/// `hash` is a value that hashing `key` may give.
pub closed spec fn may_hash_to(key: FlowKey, hash: u64) -> bool {
    call_ensures(hash_key, (key.spec_id(),), hash)
}

/// The worker that a hash value belongs to.
pub fn worker_index(hash: u64, workers: usize) -> (r: usize)
    requires
        workers > 0,
    ensures
        r == hash as int % workers as int,
        r < workers,
{
    (hash % workers as u64) as usize
}

/// The worker that the packets of a flow go to: the one that a hash of the flow key belongs
/// to. Only the flow key is hashed, so both directions of a conversation are handed to the
/// hasher as the same value. That they go to the same worker for as long as the process runs
/// is left unsaid, because the hash of a key differs from process to process.
pub fn route(event: &PacketEvent, workers: usize) -> (r: usize)
    requires
        workers > 0,
    ensures
        r < workers,
        exists|hash: u64| #[trigger]
            may_hash_to(event.spec_flow_key(), hash) && r == hash as int % workers as int,
{
    let hash = hash_key(event.flow_key().id());
    assert(may_hash_to(event.spec_flow_key(), hash));
    worker_index(hash, workers)
}

/// A packet and the same packet travelling the other way are hashed to the same possible values.
pub proof fn law_directions_hash_alike(event: PacketEvent, hash: u64)
    ensures
        may_hash_to(event.reversed().spec_flow_key(), hash) == may_hash_to(
            event.spec_flow_key(),
            hash,
        ),
{
    law_reversed_packet_has_same_key(event);
}

/// All of a flow key goes into its hash: both addresses, both ports and the protocol.
proof fn law_whole_key_is_hashed(key: FlowKey, hash: u64)
    ensures
        may_hash_to(key, hash) == call_ensures(
            hash_key,
            ((key.ip_min.spec_id(), key.ip_max.spec_id(), key.port_min, key.port_max, key.protocol),),
            hash,
        ),
{
}

/// The hash values of one worker are those that leave the same remainder.
pub proof fn law_workers_take_remainder_classes(hash: u64, workers: usize, r: usize)
    requires
        workers > 0,
        call_ensures(worker_index, (hash, workers), r),
    ensures
        r < workers,
        (hash - r) % (workers as int) == 0,
{
    vstd::arithmetic::div_mod::lemma_fundamental_div_mod(hash as int, workers as int);
    let q = hash as int / workers as int;
    vstd::arithmetic::div_mod::lemma_mod_multiples_basic(q, workers as int);
    assert(workers as int * q == q * workers as int) by (nonlinear_arith);
}

} // verus!
