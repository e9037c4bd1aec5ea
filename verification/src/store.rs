//! The two outside collections under the flow table: a slab of nodes and a hash index from
//! flows to slots. Everything here but the node type and the names is trusted: the contracts
//! state what the collections' own sources show.

use vstd::prelude::*;
use slab::Slab;
use crate::flow::FlowState;
use crate::packet::{FlowId, FlowKey};

verus! {

/// A flow in the slab, with its neighbours in the recency list.
#[derive(Debug, Clone)]
pub struct LruNode {
    pub key: FlowKey,
    pub state: FlowState,
    pub prev: Option<usize>,
    pub next: Option<usize>,
}

/// Twice a bound on the bytes that one slot of the slab takes up.
pub const SLOT_BYTES: usize = 8192;

/// `slots` slots, and as many again, can be laid out in memory.
pub open spec fn addressable(slots: int) -> bool {
    slots * SLOT_BYTES <= isize::MAX
}

/// `slab::Slab`, an arena that hands out integer keys.
#[verifier::external_type_specification]
#[verifier::external_body]
#[verifier::reject_recursive_types(T)]
pub struct ExSlab<T>(slab::Slab<T>);

/// The occupied slots of a slab, by key.
pub uninterp spec fn slab_nodes(slab: Slab<LruNode>) -> Map<usize, LruNode>;

/// The key that the next insertion into a slab will use.
pub uninterp spec fn slab_next_key(slab: Slab<LruNode>) -> usize;

/// `Slab::with_capacity`: the new slab is empty. It reserves room for `capacity` nodes at
/// once, which panics where so many bytes cannot be addressed.
#[verifier::external_body]
pub(crate) fn slab_with_capacity(capacity: usize) -> (r: Slab<LruNode>)
    requires
        addressable(capacity as int),
    ensures
        slab_nodes(r).is_empty(),
{
    Slab::with_capacity(capacity)
}

/// `Slab::len`: the number of occupied slots.
#[verifier::external_body]
pub(crate) fn slab_len(slab: &Slab<LruNode>) -> (r: usize)
    ensures
        r == slab_nodes(*slab).len(),
{
    slab.len()
}

/// `Slab::contains`: whether a slot is occupied.
#[verifier::external_body]
pub(crate) fn slab_contains(slab: &Slab<LruNode>, key: usize) -> (r: bool)
    ensures
        r == slab_nodes(*slab).contains_key(key),
{
    slab.contains(key)
}

/// Indexing a slab: the node in an occupied slot. It panics on a vacant one.
#[verifier::external_body]
pub(crate) fn slab_node(slab: &Slab<LruNode>, key: usize) -> (r: &LruNode)
    requires
        slab_nodes(*slab).contains_key(key),
    ensures
        *r == slab_nodes(*slab)[key],
{
    &slab[key]
}

/// Mutable indexing of a slab: the node in an occupied slot can be changed in place, and
/// nothing else changes. It panics on a vacant slot.
#[verifier::external_body]
pub(crate) fn slab_node_mut(slab: &mut Slab<LruNode>, key: usize) -> (r: &mut LruNode)
    requires
        slab_nodes(*old(slab)).contains_key(key),
    ensures
        *r == slab_nodes(*old(slab))[key],
        slab_nodes(*final(slab)) == slab_nodes(*old(slab)).insert(key, *final(r)),
        slab_next_key(*final(slab)) == slab_next_key(*old(slab)),
{
    &mut slab[key]
}

/// `Slab::vacant_entry` and the key of the entry: the vacant slot that the next insertion
/// will fill. The slab itself does not change.
#[verifier::external_body]
pub(crate) fn slab_vacant_key(slab: &mut Slab<LruNode>) -> (r: usize)
    ensures
        r == slab_next_key(*old(slab)),
        !slab_nodes(*old(slab)).contains_key(r),
        slab_nodes(*final(slab)) == slab_nodes(*old(slab)),
        slab_next_key(*final(slab)) == slab_next_key(*old(slab)),
{
    slab.vacant_entry().key()
}

/// `Slab::insert`: the node goes into the slot that was next, which was vacant, and its key
/// is returned. It may have to grow the slab, which panics where the bytes cannot be
/// addressed.
#[verifier::external_body]
pub(crate) fn slab_insert(slab: &mut Slab<LruNode>, node: LruNode) -> (r: usize)
    requires
        addressable(slab_nodes(*old(slab)).len() as int),
    ensures
        r == slab_next_key(*old(slab)),
        !slab_nodes(*old(slab)).contains_key(r),
        slab_nodes(*final(slab)) == slab_nodes(*old(slab)).insert(r, node),
{
    slab.insert(node)
}

/// A `hashbrown::HashMap` from flows, as integer tuples, to slots. The map type's allocator
/// parameter is bound by a trait that cannot be named from outside, so the map is held in a
/// field.
#[verifier::external_body]
pub struct FlowIndex {
    map: hashbrown::HashMap<FlowId, usize>,
}

/// What an index maps to what.
pub uninterp spec fn index_slots(index: FlowIndex) -> Map<FlowId, usize>;

/// `hashbrown::HashMap::with_capacity`: the new map is empty. It reserves room at once, which
/// panics where so many buckets cannot be addressed.
#[verifier::external_body]
pub(crate) fn index_with_capacity(capacity: usize) -> (r: FlowIndex)
    requires
        addressable(capacity as int),
    ensures
        index_slots(r).is_empty(),
{
    FlowIndex { map: hashbrown::HashMap::with_capacity(capacity) }
}

/// `hashbrown::HashMap::get`, with the slot copied out.
#[verifier::external_body]
pub(crate) fn index_get(index: &FlowIndex, id: &FlowId) -> (r: Option<usize>)
    ensures
        r == (if index_slots(*index).contains_key(*id) {
            Some(index_slots(*index)[*id])
        } else {
            None
        }),
{
    index.map.get(id).copied()
}

/// `hashbrown::HashMap::insert`, with the value that was replaced dropped. It may have to
/// grow the map, which panics where so many buckets cannot be addressed.
#[verifier::external_body]
pub(crate) fn index_insert(index: &mut FlowIndex, id: FlowId, slot: usize)
    requires
        addressable(index_slots(*old(index)).len() as int),
    ensures
        index_slots(*final(index)) == index_slots(*old(index)).insert(id, slot),
{
    index.map.insert(id, slot);
}

/// `hashbrown::HashMap::remove`, with the value that was removed dropped.
#[verifier::external_body]
pub(crate) fn index_remove(index: &mut FlowIndex, id: &FlowId)
    ensures
        index_slots(*final(index)) == index_slots(*old(index)).remove(*id),
{
    index.map.remove(id);
}

/// `hashbrown::HashMap::len`: the number of keys.
#[verifier::external_body]
pub(crate) fn index_len(index: &FlowIndex) -> (r: usize)
    ensures
        r == index_slots(*index).len(),
{
    index.map.len()
}

/// `hashbrown::HashMap::is_empty`: whether there is no key.
#[verifier::external_body]
pub(crate) fn index_is_empty(index: &FlowIndex) -> (r: bool)
    ensures
        r == (index_slots(*index).len() == 0),
{
    index.map.is_empty()
}

} // verus!
