//! The flow table: a bounded number of flows, found by key and ordered by recency.

use vstd::prelude::*;
use slab::Slab;
use crate::addr::IpAddr;
use crate::flow::{
    law_features_are_statistics_of_window, law_flow_takes_packet_as_it_is,
    law_intervals_span_window, law_time_features_follow_timestamps, law_window_holds_most_recent,
    replay, FlowMetrics, FlowState, FlowView,
};
use crate::packet::{
    law_flow_id_is_injective, law_reversed_packet_has_same_key, Direction, FlowId, FlowKey, PacketEvent,
    PacketSummary,
};
use crate::store::{
    addressable, index_get, index_insert, index_is_empty, index_len, index_remove, index_slots,
    index_with_capacity, slab_contains, slab_insert, slab_len, slab_next_key, slab_node,
    slab_node_mut, slab_nodes, slab_vacant_key, slab_with_capacity, FlowIndex, LruNode,
};
use crate::time::Timestamp;
use crate::window::{lemma_timestamp_in_range, sum};

verus! {

/// A flow table as a mathematical object: its flows, most recently used first.
pub struct TableView {
    pub capacity: nat,
    pub flows: Seq<(FlowKey, FlowView)>,
}

impl TableView {
    /// A table without flows.
    pub open spec fn empty(capacity: nat) -> TableView {
        TableView { capacity, flows: Seq::empty() }
    }

    /// `i` is the place of the flow `key` in the order of recency.
    pub open spec fn is_at(self, key: FlowKey, i: int) -> bool {
        0 <= i < self.flows.len() && self.flows[i].0 == key
    }

    /// The table tracks the flow `key`.
    pub open spec fn contains(self, key: FlowKey) -> bool {
        exists|i: int| self.is_at(key, i)
    }

    /// The place of a tracked flow in the order of recency.
    pub open spec fn place(self, key: FlowKey) -> int {
        choose|i: int| self.is_at(key, i)
    }

    /// A tracked flow.
    pub open spec fn flow(self, key: FlowKey) -> FlowView {
        self.flows[self.place(key)].1
    }

    /// No key occurs twice, and the table keeps within its capacity.
    pub open spec fn valid(self) -> bool {
        &&& self.flows.len() <= self.capacity
        &&& forall|i: int, j: int|
            0 <= i < j < self.flows.len() ==> (#[trigger] self.flows[i]).0 != (
            #[trigger] self.flows[j]).0
    }

    /// The flow that a packet belongs to, after the packet: a tracked flow takes it in the
    /// direction that its initiator decides, a new flow opens with it as a forward packet.
    pub open spec fn flow_after(self, event: PacketEvent) -> FlowView {
        let key = event.spec_flow_key();
        if self.contains(key) {
            let flow = self.flow(key);
            flow.updated(event.summary(flow.direction_of(event.src_ip)))
        } else {
            FlowView::fresh(event.src_ip).updated(event.summary(Direction::Forward))
        }
    }

    /// The flows that a packet of flow `key` leaves as they are, in their order: all others,
    /// but for the least recently used one where a new flow meets a full table.
    pub open spec fn flows_kept(self, key: FlowKey) -> Seq<(FlowKey, FlowView)> {
        if self.contains(key) {
            self.flows.remove(self.place(key))
        } else if self.flows.len() >= self.capacity {
            self.flows.drop_last()
        } else {
            self.flows
        }
    }

    /// The table after a packet: its flow comes first, the flows kept follow.
    pub open spec fn processed(self, event: PacketEvent) -> TableView {
        let key = event.spec_flow_key();
        TableView {
            capacity: self.capacity,
            flows: seq![(key, self.flow_after(event))] + self.flows_kept(key),
        }
    }

    /// The table can take the packet: it has room for a flow at all, and the counters of the
    /// packet's flow do not overflow.
    pub open spec fn accepts(self, event: PacketEvent) -> bool {
        let key = event.spec_flow_key();
        &&& self.capacity > 0
        &&& self.contains(key) ==> self.flow(key).has_room_for(event.len)
    }
}

/// The node at `order[i]` points to its neighbours in `order`.
spec fn linked_at(nodes: Map<usize, LruNode>, order: Seq<usize>, i: int) -> bool {
    &&& nodes.contains_key(order[i])
    &&& nodes[order[i]].prev == (if i == 0 { None } else { Some(order[i - 1]) })
    &&& nodes[order[i]].next == (if i == order.len() - 1 { None } else { Some(order[i + 1]) })
}

/// The nodes at `order` form a doubly linked list from `head` to `tail`.
spec fn linked(
    nodes: Map<usize, LruNode>,
    head: Option<usize>,
    tail: Option<usize>,
    order: Seq<usize>,
) -> bool {
    &&& order.no_duplicates()
    &&& head == (if order.len() == 0 { None } else { Some(order[0]) })
    &&& tail == (if order.len() == 0 { None } else { Some(order.last()) })
    &&& forall|i: int| 0 <= i < order.len() ==> #[trigger] linked_at(nodes, order, i)
}

/// `after` has the same slots as `before`, with the same flows in them; only the links of
/// the recency list may differ.
spec fn same_flows(before: Map<usize, LruNode>, after: Map<usize, LruNode>) -> bool {
    &&& after.dom() == before.dom()
    &&& forall|k: usize| #[trigger]
        after.contains_key(k) ==> after[k].key == before[k].key && after[k].state == before[k].state
}

/// Thread-local pre-allocated flow table with constant memory footprint and LRU eviction.
pub struct FlowTable {
    index: FlowIndex,  // Map FlowKey to Slab index
    slab: Slab<LruNode>,  // Pre-allocated slab storing flow state and LRU links
    capacity: usize,
    lru_head: Option<usize>,  // Index of most recently used node
    lru_tail: Option<usize>,  // Index of least recently used node
    order: Ghost<Seq<usize>>,  // Slab indices from most to least recently used
}

impl View for FlowTable {
    type V = TableView;

    closed spec fn view(&self) -> TableView {
        TableView {
            capacity: self.capacity as nat,
            flows: Seq::new(
                self.order@.len(),
                |i: int|
                    {
                        let node = slab_nodes(self.slab)[self.order@[i]];
                        (node.key, node.state@)
                    },
            ),
        }
    }
}

impl FlowTable {
    /// The index holds exactly the flows of the nodes at `order`.
    spec fn indexed(&self, order: Seq<usize>) -> bool {
        let nodes = slab_nodes(self.slab);
        let slots = index_slots(self.index);
        &&& forall|k: usize| #[trigger]
            order.contains(k) ==> slots.contains_key(nodes[k].key.spec_id())
                && slots[nodes[k].key.spec_id()] == k
        &&& forall|id: FlowId| #[trigger]
            slots.contains_key(id) ==> order.contains(slots[id]) && nodes[slots[id]].key.spec_id()
                == id
    }

    /// The recency list, the slab and the index agree, and every flow is in order.
    pub closed spec fn wf(&self) -> bool {
        let nodes = slab_nodes(self.slab);
        &&& addressable(self.capacity as int)
        &&& self.order@.len() <= self.capacity
        &&& linked(nodes, self.lru_head, self.lru_tail, self.order@)
        &&& forall|k: usize| #[trigger] nodes.contains_key(k) ==> self.order@.contains(k)
        &&& self.indexed(self.order@)
        &&& forall|k: usize| #[trigger] nodes.contains_key(k) ==> nodes[k].state.wf()
    }

    /// Creates a new FlowTable with a fixed capacity limit.
    pub fn new(capacity: usize) -> (r: FlowTable)
        requires
            addressable(capacity as int),
        ensures
            r.wf(),
            r@ == TableView::empty(capacity as nat),
    {
        let r = FlowTable {
            index: index_with_capacity(capacity),
            slab: slab_with_capacity(capacity),
            capacity,
            lru_head: None,
            lru_tail: None,
            order: Ghost(Seq::empty()),
        };
        proof {
            assert(r@.flows =~= Seq::empty());
        }
        r
    }

    /// Link a node as the new LRU head.
    fn link_lru_head(&mut self, idx: usize)
        requires
            linked(
                slab_nodes(old(self).slab),
                old(self).lru_head,
                old(self).lru_tail,
                old(self).order@,
            ),
            slab_nodes(old(self).slab).contains_key(idx),
            !old(self).order@.contains(idx),
        ensures
            final(self).order@ == seq![idx] + old(self).order@,
            linked(
                slab_nodes(final(self).slab),
                final(self).lru_head,
                final(self).lru_tail,
                final(self).order@,
            ),
            same_flows(slab_nodes(old(self).slab), slab_nodes(final(self).slab)),
            final(self).index == old(self).index,
            final(self).capacity == old(self).capacity,
    {
        let ghost before = self.order@;
        let old_head = self.lru_head;
        slab_node_mut(&mut self.slab, idx).prev = None;
        slab_node_mut(&mut self.slab, idx).next = old_head;

        if let Some(h) = old_head {
            assert(linked_at(slab_nodes(old(self).slab), before, 0));
            slab_node_mut(&mut self.slab, h).prev = Some(idx);
        } else {
            // First node in the list
            self.lru_tail = Some(idx);
        }
        self.lru_head = Some(idx);
        proof {
            self.order@ = seq![idx] + before;
            let order = self.order@;
            let nodes = slab_nodes(self.slab);
            assert(nodes.dom() =~= slab_nodes(old(self).slab).dom());
            assert forall|i: int| 0 <= i < order.len() implies #[trigger] linked_at(
                nodes,
                order,
                i,
            ) by {
                if i > 0 {
                    assert(linked_at(slab_nodes(old(self).slab), before, i - 1));
                    assert(order[i] == before[i - 1]);
                    assert(before.contains(before[i - 1]));
                }
            }
            assert(order.no_duplicates());
        }
    }

    /// Unlink a node from its current position in the LRU list.
    fn unlink_lru(&mut self, idx: usize)
        requires
            linked(
                slab_nodes(old(self).slab),
                old(self).lru_head,
                old(self).lru_tail,
                old(self).order@,
            ),
            old(self).order@.contains(idx),
        ensures
            final(self).order@ == old(self).order@.remove(old(self).order@.index_of(idx)),
            linked(
                slab_nodes(final(self).slab),
                final(self).lru_head,
                final(self).lru_tail,
                final(self).order@,
            ),
            same_flows(slab_nodes(old(self).slab), slab_nodes(final(self).slab)),
            final(self).index == old(self).index,
            final(self).capacity == old(self).capacity,
    {
        let ghost before = self.order@;
        let ghost at = before.index_of(idx);
        let ghost was = slab_nodes(self.slab);
        assert(before[at] == idx && 0 <= at < before.len());
        assert(linked_at(was, before, at));

        let prev = slab_node(&self.slab, idx).prev;
        let next = slab_node(&self.slab, idx).next;

        if let Some(p) = prev {
            assert(linked_at(was, before, at - 1));
            slab_node_mut(&mut self.slab, p).next = next;
        } else {
            self.lru_head = next;
        }

        if let Some(n) = next {
            assert(linked_at(was, before, at + 1));
            slab_node_mut(&mut self.slab, n).prev = prev;
        } else {
            self.lru_tail = prev;
        }

        slab_node_mut(&mut self.slab, idx).prev = None;
        slab_node_mut(&mut self.slab, idx).next = None;
        proof {
            self.order@ = before.remove(at);
            let order = self.order@;
            let nodes = slab_nodes(self.slab);
            assert(nodes.dom() =~= slab_nodes(old(self).slab).dom());
            assert forall|i: int| 0 <= i < order.len() implies #[trigger] linked_at(
                nodes,
                order,
                i,
            ) by {
                let j = if i < at { i } else { i + 1 };
                assert(linked_at(was, before, j));
                assert(order[i] == before[j]);
            }
            assert(order.no_duplicates());
        }
    }

    /// Promote a node to the head of the LRU list (most recently used).
    fn promote_lru(&mut self, idx: usize)
        requires
            linked(
                slab_nodes(old(self).slab),
                old(self).lru_head,
                old(self).lru_tail,
                old(self).order@,
            ),
            old(self).order@.contains(idx),
        ensures
            final(self).order@ == seq![idx] + old(self).order@.remove(
                old(self).order@.index_of(idx),
            ),
            linked(
                slab_nodes(final(self).slab),
                final(self).lru_head,
                final(self).lru_tail,
                final(self).order@,
            ),
            same_flows(slab_nodes(old(self).slab), slab_nodes(final(self).slab)),
            final(self).index == old(self).index,
            final(self).capacity == old(self).capacity,
    {
        let ghost before = self.order@;
        let ghost at = before.index_of(idx);
        assert(before[at] == idx && 0 <= at < before.len());
        if let Some(h) = self.lru_head {
            if h == idx {
                proof {
                    assert(before[0] == before[at]);
                    assert(at == 0);
                    assert(seq![idx] + before.remove(0) =~= before);
                }
                return ;  // Already at the head
            }
        }
        assert(linked_at(slab_nodes(self.slab), before, at));
        self.unlink_lru(idx);
        assert(!self.order@.contains(idx));
        self.link_lru_head(idx);
    }

    /// Evict a node by slab index. The node is left in the slab; it is recycled on the next
    /// insertion.
    fn evict_node(&mut self, idx: usize)
        requires
            old(self).wf(),
            old(self).order@.contains(idx),
        ensures
            final(self).order@ == old(self).order@.remove(old(self).order@.index_of(idx)),
            linked(
                slab_nodes(final(self).slab),
                final(self).lru_head,
                final(self).lru_tail,
                final(self).order@,
            ),
            index_slots(final(self).index) == index_slots(old(self).index).remove(
                slab_nodes(old(self).slab)[idx].key.spec_id(),
            ),
            final(self).indexed(final(self).order@),
            same_flows(slab_nodes(old(self).slab), slab_nodes(final(self).slab)),
            final(self).capacity == old(self).capacity,
    {
        let ghost before = self.order@;
        let ghost at = before.index_of(idx);
        let ghost was = slab_nodes(self.slab);
        let ghost slots = index_slots(self.index);
        assert(before[at] == idx && 0 <= at < before.len());
        assert(linked_at(was, before, at));
        let id = slab_node(&self.slab, idx).key.id();
        index_remove(&mut self.index, &id);
        self.unlink_lru(idx);
        proof {
            let order = self.order@;
            lemma_removed(before, at);
            assert forall|k: usize| #[trigger] order.contains(k) implies index_slots(
                self.index,
            ).contains_key(slab_nodes(self.slab)[k].key.spec_id()) && index_slots(
                self.index,
            )[slab_nodes(self.slab)[k].key.spec_id()] == k by {
                assert(before.contains(k));
                let j = order.index_of(k);
                assert(linked_at(slab_nodes(self.slab), order, j));
                assert(slots[was[k].key.spec_id()] == k);
            }
            assert forall|i: FlowId| #[trigger]
                index_slots(self.index).contains_key(i) implies order.contains(
                index_slots(self.index)[i],
            ) && slab_nodes(self.slab)[index_slots(self.index)[i]].key.spec_id() == i by {
                let k = slots[i];
                assert(before.contains(k));
                let j = order.index_of(k);
                assert(k != idx);
                assert(order.contains(k));
                assert(linked_at(slab_nodes(self.slab), order, j));
            }
        }
    }

    /// A table keeps within its capacity and tracks no flow twice.
    pub proof fn lemma_view_is_valid(&self)
        requires
            self.wf(),
        ensures
            self@.valid(),
    {
        let flows = self@.flows;
        let order = self.order@;
        assert forall|i: int, j: int| 0 <= i < j < flows.len() implies (#[trigger] flows[i]).0 != (
        #[trigger] flows[j]).0 by {
            assert(order.contains(order[i]) && order.contains(order[j]));
            assert(order[i] != order[j]);
        }
    }

    /// The index finds exactly the flows of the view, at their places.
    proof fn lemma_index_finds(&self, key: FlowKey)
        requires
            self.wf(),
        ensures
            self@.valid(),
            index_slots(self.index).contains_key(key.spec_id()) == self@.contains(key),
            self@.contains(key) ==> {
                let slot = index_slots(self.index)[key.spec_id()];
                let at = self@.place(key);
                &&& self.order@.contains(slot)
                &&& 0 <= at < self.order@.len()
                &&& self.order@[at] == slot
                &&& self.order@.index_of(slot) == at
                &&& slab_nodes(self.slab).contains_key(slot)
                &&& slab_nodes(self.slab)[slot].key == key
                &&& slab_nodes(self.slab)[slot].state.wf()
                &&& self@.flow(key) == slab_nodes(self.slab)[slot].state@
            },
    {
        let nodes = slab_nodes(self.slab);
        let slots = index_slots(self.index);
        let order = self.order@;
        self.lemma_view_is_valid();
        if slots.contains_key(key.spec_id()) {
            let slot = slots[key.spec_id()];
            let i = order.index_of(slot);
            assert(order[i] == slot && 0 <= i < order.len());
            law_flow_id_is_injective(nodes[slot].key, key);
            assert(self@.is_at(key, i));
        }
        if self@.contains(key) {
            let at = self@.place(key);
            assert(self@.is_at(key, at));
            let slot = order[at];
            assert(order.contains(slot));
            assert(nodes[slot].key == key);
            assert(slots[key.spec_id()] == slot);
            let i = order.index_of(slot);
            assert(order[i] == slot && 0 <= i < order.len());
            assert(i == at);
            assert(linked_at(nodes, order, at));
        }
    }

    /// As many slots are occupied, and as many keys indexed, as there are flows.
    proof fn lemma_sizes(&self)
        requires
            self.wf(),
        ensures
            slab_nodes(self.slab).len() == self.order@.len(),
            index_slots(self.index).dom().finite(),
            index_slots(self.index).len() == self.order@.len(),
            self@.flows.len() == self.order@.len(),
    {
        let nodes = slab_nodes(self.slab);
        let slots = index_slots(self.index);
        let order = self.order@;
        order.unique_seq_to_set();
        assert(order.to_set() =~= nodes.dom()) by {
            assert forall|k: usize| order.to_set().contains(k) implies nodes.contains_key(k) by {
                let i = order.index_of(k);
                assert(linked_at(nodes, order, i));
            }
        }
        let ids = Seq::new(order.len(), |i: int| nodes[order[i]].key.spec_id());
        assert(ids.no_duplicates()) by {
            assert forall|i: int, j: int| 0 <= i < ids.len() && 0 <= j < ids.len() && i != j implies ids[i]
                != ids[j] by {
                assert(order.contains(order[i]) && order.contains(order[j]));
            }
        }
        ids.unique_seq_to_set();
        vstd::seq_lib::seq_to_set_is_finite(ids);
        assert(ids.to_set() =~= slots.dom()) by {
            assert forall|id: FlowId| ids.to_set().contains(id) implies slots.contains_key(id) by {
                let i = choose|i: int| 0 <= i < ids.len() && ids[i] == id;
                assert(order.contains(order[i]));
            }
            assert forall|id: FlowId| slots.contains_key(id) implies ids.to_set().contains(id) by {
                let i = order.index_of(slots[id]);
                assert(order.contains(slots[id]));
                assert(ids[i] == id);
            }
        }
    }

    /// Takes a packet of the tracked flow in `slot`.
    fn update_existing(&mut self, slot: usize, key: FlowKey, event: &PacketEvent) -> (r: FlowMetrics)
        requires
            old(self).wf(),
            key == event.spec_flow_key(),
            old(self)@.contains(key),
            slot == index_slots(old(self).index)[key.spec_id()],
            old(self)@.accepts(*event),
        ensures
            final(self).wf(),
            final(self)@ == old(self)@.processed(*event),
            r.describes(key, old(self)@.flow_after(*event)),
    {
        let ghost before = self.order@;
        let ghost was = slab_nodes(self.slab);
        let ghost at = self@.place(key);
        proof {
            self.lemma_index_finds(key);
        }
        self.promote_lru(slot);

        let ghost mid = slab_nodes(self.slab);
        let node = slab_node_mut(&mut self.slab, slot);
        let direction = if event.src_ip == node.state.initiator_ip {
            Direction::Forward
        } else {
            Direction::Backward
        };

        node.state.update(event.timestamp, event.len, direction, event.tcp_flags);
        let metrics = node.state.compute_metrics(key);
        proof {
            let order = self.order@;
            let nodes = slab_nodes(self.slab);
            lemma_removed(before, at);
            assert(nodes.dom() =~= was.dom());
            assert forall|i: int| 0 <= i < order.len() implies #[trigger] linked_at(nodes, order, i) by {
                assert(linked_at(mid, order, i));
            }
            assert forall|k: usize| order.contains(k) <==> before.contains(k) by {
                assert(order[0] == slot);
                if before.contains(k) && k != slot {
                    assert(before.remove(at).contains(k));
                    let j = before.remove(at).index_of(k);
                    assert(order[j + 1] == k);
                }
                if order.contains(k) && k != slot {
                    let i = order.index_of(k);
                    assert(before.remove(at)[i - 1] == k);
                    assert(before.remove(at).contains(k));
                }
            }
            assert forall|k: usize| #[trigger] order.contains(k) implies nodes[k].key == was[k].key by {
                assert(linked_at(mid, order, order.index_of(k)));
            }
            assert(self.indexed(order));
            assert(self@.flows =~= old(self)@.processed(*event).flows) by {
                assert forall|i: int| 0 < i < order.len() implies self@.flows[i]
                    == old(self)@.flows.remove(at)[i - 1] by {
                    let k = order[i];
                    assert(k == before.remove(at)[i - 1]);
                    assert(before.remove(at).contains(k));
                    assert(linked_at(mid, order, i));
                }
            }
        }
        metrics
    }

    /// Takes the first packet of a flow that is not tracked.
    fn insert_new(&mut self, key: FlowKey, event: &PacketEvent) -> (r: FlowMetrics)
        requires
            old(self).wf(),
            key == event.spec_flow_key(),
            !old(self)@.contains(key),
            old(self)@.accepts(*event),
        ensures
            final(self).wf(),
            final(self)@ == old(self)@.processed(*event),
            r.describes(key, old(self)@.flow_after(*event)),
    {
        let ghost before = self.order@;
        let ghost was = slab_nodes(self.slab);
        proof {
            self.lemma_index_finds(key);
            self.lemma_sizes();
        }

        // New flow: Check capacity first
        let slot: usize = if slab_len(&self.slab) >= self.capacity {
            // Table is full: Evict least recently used flow
            let evicted = self.lru_tail.unwrap();
            proof {
                assert(before[before.len() - 1] == evicted);
                assert(before.contains(evicted));
                let at = before.index_of(evicted);
                assert(before[at] == evicted && 0 <= at < before.len());
                assert(at == before.len() - 1);
                lemma_removed(before, at);
                assert(before.remove(at) =~= before.drop_last());
                assert(linked_at(was, before, at));
            }
            self.evict_node(evicted);
            proof {
                let id = was[evicted].key.spec_id();
                assert(index_slots(self.index).dom() =~= index_slots(old(self).index).dom().remove(id));
                assert(index_slots(old(self).index).dom().remove(id).len() <= before.len());
            }
            evicted
        } else {
            // Slab has free capacity: allocate new slot
            slab_vacant_key(&mut self.slab)
        };
        let ghost kept = self.order@;
        let ghost mid = slab_nodes(self.slab);
        let ghost fresh = FlowView::fresh(event.src_ip);
        proof {
            assert(kept == if before.len() >= self.capacity { before.drop_last() } else { before });
            assert(!kept.contains(slot)) by {
                if before.len() < self.capacity && kept.contains(slot) {
                    assert(linked_at(was, before, before.index_of(slot)));
                }
            }
            assert(self.indexed(kept));
            assert(!index_slots(self.index).contains_key(key.spec_id())) by {
                if index_slots(self.index).contains_key(key.spec_id()) {
                    let k = index_slots(self.index)[key.spec_id()];
                    assert(kept.contains(k));
                    let i = kept.index_of(k);
                    assert(linked_at(mid, kept, i));
                    assert(before[i] == k);
                    assert(before.contains(k));
                    assert(was[k].key.spec_id() == key.spec_id());
                }
            }
            assert(event.len as int * event.len as int <= u64::MAX) by (nonlinear_arith)
                requires
                    event.len <= u32::MAX,
            ;
            assert(fresh.has_room_for(event.len));
        }

        // If we are recycling an existing node in the slab, reset its state to reuse memory
        let metrics = if slab_contains(&self.slab, slot) {
            let node = slab_node_mut(&mut self.slab, slot);
            node.key = key;
            node.state.reset(event.src_ip);
            node.prev = None;
            node.next = None;
            node.state.update(event.timestamp, event.len, Direction::Forward, event.tcp_flags);
            node.state.compute_metrics(key)
        } else {
            // Slab is not fully populated yet: insert a new node
            let mut node = LruNode {
                key,
                state: FlowState::new(event.src_ip),
                prev: None,
                next: None,
            };
            node.state.update(event.timestamp, event.len, Direction::Forward, event.tcp_flags);
            let metrics = node.state.compute_metrics(key);
            slab_insert(&mut self.slab, node);
            metrics
        };
        proof {
            let nodes = slab_nodes(self.slab);
            assert(nodes.contains_key(slot));
            assert(nodes[slot].key == key);
            assert(nodes[slot].state.wf());
            assert(nodes[slot].state@ == old(self)@.flow_after(*event));
            assert(nodes =~= mid.insert(slot, nodes[slot]));
            assert forall|i: int| 0 <= i < kept.len() implies #[trigger] linked_at(nodes, kept, i) by {
                assert(linked_at(mid, kept, i));
                assert(kept.contains(kept[i]));
            }
        }
        let ghost filled = slab_nodes(self.slab);
        index_insert(&mut self.index, key.id(), slot);
        self.link_lru_head(slot);
        proof {
            let order = self.order@;
            let nodes = slab_nodes(self.slab);
            let slots = index_slots(self.index);
            assert forall|k: usize| order.contains(k) <==> kept.contains(k) || k == slot by {
                assert(order[0] == slot);
                if kept.contains(k) {
                    assert(order[kept.index_of(k) + 1] == k);
                }
                if order.contains(k) && k != slot {
                    let i = order.index_of(k);
                    assert(kept[i - 1] == k);
                }
            }
            assert forall|k: usize| #[trigger] nodes.contains_key(k) implies order.contains(k)
                && nodes[k].state.wf() by {
                if k != slot {
                    assert(mid.contains_key(k));
                    assert(was.contains_key(k));
                    assert(before.contains(k));
                    if before.len() >= self.capacity {
                        let i = before.index_of(k);
                        assert(kept[i] == k);
                    }
                    assert(kept.contains(k));
                }
            }
            assert forall|k: usize| #[trigger] order.contains(k) implies slots.contains_key(
                nodes[k].key.spec_id(),
            ) && slots[nodes[k].key.spec_id()] == k by {
                assert(linked_at(nodes, order, order.index_of(k)));
                if k != slot {
                    assert(kept.contains(k));
                    assert(filled[k] == mid[k]);
                }
            }
            assert forall|id: FlowId| #[trigger] slots.contains_key(id) implies order.contains(
                slots[id],
            ) && nodes[slots[id]].key.spec_id() == id by {
                if id != key.spec_id() {
                    let k = slots[id];
                    assert(kept.contains(k));
                    assert(linked_at(nodes, order, order.index_of(k)));
                }
            }
            assert(self.indexed(order));
            assert(self@.flows =~= old(self)@.processed(*event).flows) by {
                assert forall|i: int| 0 < i < order.len() implies self@.flows[i]
                    == old(self)@.flows_kept(key)[i - 1] by {
                    let k = order[i];
                    assert(k == kept[i - 1]);
                    assert(kept.contains(k));
                    assert(linked_at(nodes, order, i));
                    assert(linked_at(mid, kept, i - 1));
                    assert(k == before[i - 1]);
                }
                assert(linked_at(nodes, order, 0));
            }
        }
        metrics
    }

    /// Process a new packet event.
    /// Updates the flow's sliding window and returns the updated features.
    /// If the table is full, a new flow takes over the slot of the least recently used one.
    pub fn process_packet(&mut self, event: &PacketEvent) -> (r: FlowMetrics)
        requires
            old(self).wf(),
            old(self)@.accepts(*event),
        ensures
            final(self).wf(),
            final(self)@ == old(self)@.processed(*event),
            r.describes(event.spec_flow_key(), old(self)@.flow_after(*event)),
    {
        let key = event.flow_key();
        proof {
            self.lemma_index_finds(key);
        }
        match index_get(&self.index, &key.id()) {
            Some(slot) => self.update_existing(slot, key, event),
            None => self.insert_new(key, event),
        }
    }

    /// Whether the table can take a packet.
    pub fn accepts(&self, event: &PacketEvent) -> (r: bool)
        requires
            self.wf(),
        ensures
            r == self@.accepts(*event),
    {
        let key = event.flow_key();
        proof {
            self.lemma_index_finds(key);
        }
        if self.capacity == 0 {
            return false;
        }
        match index_get(&self.index, &key.id()) {
            Some(slot) => slab_node(&self.slab, slot).state.has_room(event.len),
            None => true,
        }
    }

    /// Number of active flows in the table.
    pub fn len(&self) -> (r: usize)
        requires
            self.wf(),
        ensures
            r == self@.flows.len(),
    {
        proof {
            self.lemma_sizes();
        }
        index_len(&self.index)
    }

    /// Returns true if the flow table is empty.
    pub fn is_empty(&self) -> (r: bool)
        requires
            self.wf(),
        ensures
            r == (self@.flows.len() == 0),
    {
        proof {
            self.lemma_sizes();
        }
        index_is_empty(&self.index)
    }

    /// Whether the table tracks the flow `key`.
    pub fn contains(&self, key: &FlowKey) -> (r: bool)
        requires
            self.wf(),
        ensures
            r == self@.contains(*key),
    {
        proof {
            self.lemma_index_finds(*key);
        }
        index_get(&self.index, &key.id()).is_some()
    }
}

/// Taking one place out of a sequence without repetitions takes exactly that element out.
proof fn lemma_removed(s: Seq<usize>, at: int)
    requires
        s.no_duplicates(),
        0 <= at < s.len(),
    ensures
        s.remove(at).no_duplicates(),
        forall|k: usize| #[trigger] s.remove(at).contains(k) <==> s.contains(k) && k != s[at],
{
    let r = s.remove(at);
    assert forall|k: usize| #[trigger] r.contains(k) <==> s.contains(k) && k != s[at] by {
        if r.contains(k) {
            let i = choose|i: int| 0 <= i < r.len() && r[i] == k;
            let j = if i < at { i } else { i + 1 };
            assert(s[j] == k);
        }
        if s.contains(k) && k != s[at] {
            let j = choose|j: int| 0 <= j < s.len() && s[j] == k;
            let i = if j < at { j } else { j - 1 };
            assert(r[i] == k);
        }
    }
}

/// In a valid table a flow has one place.
pub proof fn lemma_place(table: TableView, key: FlowKey, i: int)
    requires
        table.valid(),
        table.is_at(key, i),
    ensures
        table.contains(key),
        table.place(key) == i,
        table.flow(key) == table.flows[i].1,
{
    assert(table.is_at(key, table.place(key)));
}

/// Where each flow stands after a packet.
proof fn lemma_processed(table: TableView, event: PacketEvent)
    requires
        table.valid(),
        table.capacity > 0,
    ensures
        table.processed(event).valid(),
        table.processed(event).is_at(event.spec_flow_key(), 0),
        forall|i: int| #![trigger table.flows_kept(event.spec_flow_key())[i]]
            0 <= i < table.flows_kept(event.spec_flow_key()).len() ==> {
                let kept = table.flows_kept(event.spec_flow_key());
                let key = event.spec_flow_key();
                let j = if table.contains(key) && i >= table.place(key) { i + 1 } else { i };
                &&& kept[i] == table.flows[j]
                &&& kept[i].0 != key
                &&& table.processed(event).flows[i + 1] == kept[i]
            },
{
    let key = event.spec_flow_key();
    let kept = table.flows_kept(key);
    let after = table.processed(event);
    if table.contains(key) {
        assert(table.is_at(key, table.place(key)));
    }
    assert forall|i: int| #![trigger kept[i]] 0 <= i < kept.len() implies {
        let j = if table.contains(key) && i >= table.place(key) { i + 1 } else { i };
        &&& kept[i] == table.flows[j]
        &&& kept[i].0 != key
        &&& after.flows[i + 1] == kept[i]
    } by {
        let j = if table.contains(key) && i >= table.place(key) { i + 1 } else { i };
        if table.flows[j].0 == key {
            assert(table.is_at(key, j));
            lemma_place(table, key, j);
        }
    }
    assert forall|i: int, j: int| 0 <= i < j < after.flows.len() implies (
    #[trigger] after.flows[i]).0 != (#[trigger] after.flows[j]).0 by {
        assert(kept[j - 1] == after.flows[j]);
        if i > 0 {
            assert(kept[i - 1] == after.flows[i]);
        }
    }
}

/// A packet never takes a table over its capacity, and never makes it track a flow twice.
pub proof fn law_table_stays_valid(table: TableView, event: PacketEvent)
    requires
        table.valid(),
        table.capacity > 0,
    ensures
        table.processed(event).valid(),
        table.processed(event).capacity == table.capacity,
{
    lemma_processed(table, event);
}

/// After a packet its flow is tracked, and it is the most recently used one.
pub proof fn law_packet_flow_is_most_recent(table: TableView, event: PacketEvent)
    requires
        table.valid(),
        table.capacity > 0,
    ensures
        table.processed(event).contains(event.spec_flow_key()),
        table.processed(event).place(event.spec_flow_key()) == 0,
        table.processed(event).flow(event.spec_flow_key()) == table.flow_after(event),
{
    lemma_processed(table, event);
    lemma_place(table.processed(event), event.spec_flow_key(), 0);
}

/// A packet makes a table forget a flow only if the packet opens a new flow while the table
/// is full, and then exactly the least recently used one. Every other flow stays as it is.
pub proof fn law_only_least_recent_flow_is_evicted(
    table: TableView,
    event: PacketEvent,
    other: FlowKey,
)
    requires
        table.valid(),
        table.capacity > 0,
        other != event.spec_flow_key(),
    ensures
        table.processed(event).contains(other) <==> table.contains(other) && !(!table.contains(
            event.spec_flow_key(),
        ) && table.flows.len() == table.capacity && other == table.flows.last().0),
        table.processed(event).contains(other) ==> table.processed(event).flow(other) == table.flow(
            other,
        ),
{
    let key = event.spec_flow_key();
    let kept = table.flows_kept(key);
    let after = table.processed(event);
    lemma_processed(table, event);
    if after.contains(other) {
        let i = after.place(other);
        assert(after.is_at(other, i));
        assert(after.flows[i] == kept[i - 1]);
        let j = if table.contains(key) && i - 1 >= table.place(key) { i } else { i - 1 };
        assert(table.flows[j] == kept[i - 1]);
        assert(table.is_at(other, j));
        lemma_place(table, other, j);
        if !table.contains(key) && table.flows.len() == table.capacity && other
            == table.flows.last().0 {
            assert(table.is_at(other, table.flows.len() - 1));
            lemma_place(table, other, table.flows.len() - 1);
        }
    }
    if table.contains(other) && !(!table.contains(key) && table.flows.len() == table.capacity && other
        == table.flows.last().0) {
        let j = table.place(other);
        assert(table.is_at(other, j));
        if table.contains(key) {
            let at = table.place(key);
            assert(table.is_at(key, at));
            let i = if j < at { j } else { j - 1 };
            assert(kept[i] == table.flows[j]);
            assert(after.is_at(other, i + 1));
        } else {
            assert(kept[j] == table.flows[j]);
            assert(after.is_at(other, j + 1));
        }
    }
}

/// A packet that opens a flow is a forward packet; in the flow that it opens, packets from its
/// sender are forward and the replies of the other side backward.
pub proof fn law_replies_are_backward(table: TableView, event: PacketEvent)
    requires
        table.valid(),
        table.capacity > 0,
        !table.contains(event.spec_flow_key()),
        event.src_ip != event.dest_ip,
    ensures
        ({
            let after = table.processed(event);
            let flow = after.flow(event.spec_flow_key());
            &&& after.contains(event.reversed().spec_flow_key())
            &&& flow.window == seq![event.summary(Direction::Forward)]
            &&& flow.direction_of(event.src_ip) is Forward
            &&& flow.direction_of(event.reversed().src_ip) is Backward
        }),
{
    law_packet_flow_is_most_recent(table, event);
    law_reversed_packet_has_same_key(event);
    assert(table.flow_after(event).window =~= seq![event.summary(Direction::Forward)]);
}

/// The table that has seen the packets of `events`, one after the other.
pub open spec fn replay_table(capacity: nat, events: Seq<PacketEvent>) -> TableView
    decreases events.len(),
{
    if events.len() == 0 {
        TableView::empty(capacity)
    } else {
        replay_table(capacity, events.drop_last()).processed(events.last())
    }
}

/// The position of the last packet of flow `key`, and -1 where there is none.
pub open spec fn last_seen(events: Seq<PacketEvent>, key: FlowKey) -> int
    decreases events.len(),
{
    if events.len() == 0 {
        -1
    } else if events.last().spec_flow_key() == key {
        events.len() - 1
    } else {
        last_seen(events.drop_last(), key)
    }
}

proof fn lemma_last_seen_bounds(events: Seq<PacketEvent>, key: FlowKey)
    ensures
        -1 <= last_seen(events, key) < events.len(),
    decreases events.len(),
{
    if events.len() > 0 {
        lemma_last_seen_bounds(events.drop_last(), key);
    }
}

/// Eviction goes by recency. Whatever packets a table has seen, it tracks only flows that
/// occurred, its flows stand in the order of their last packets, latest first, and every
/// flow that occurred but is not tracked had its last packet before those of all tracked
/// flows, with the table full.
pub proof fn law_table_tracks_most_recent_flows(capacity: nat, events: Seq<PacketEvent>)
    requires
        capacity > 0,
    ensures
        replay_table(capacity, events).valid(),
        replay_table(capacity, events).capacity == capacity,
        ({
            let table = replay_table(capacity, events);
            &&& forall|i: int|
                0 <= i < table.flows.len() ==> last_seen(events, (#[trigger] table.flows[i]).0) >= 0
            &&& forall|i: int, j: int|
                0 <= i < j < table.flows.len() ==> last_seen(events, (#[trigger] table.flows[i]).0)
                    > last_seen(events, (#[trigger] table.flows[j]).0)
            &&& forall|key: FlowKey| #[trigger]
                last_seen(events, key) >= 0 && !table.contains(key) ==> table.flows.len() == capacity
            &&& forall|key: FlowKey, i: int|
                #![trigger last_seen(events, key), table.flows[i]]
                last_seen(events, key) >= 0 && !table.contains(key) && 0 <= i < table.flows.len()
                    ==> last_seen(events, key) < last_seen(events, table.flows[i].0)
        }),
    decreases events.len(),
{
    if events.len() > 0 {
        let earlier = events.drop_last();
        let event = events.last();
        let key = event.spec_flow_key();
        let before = replay_table(capacity, earlier);
        let after = replay_table(capacity, events);
        law_table_tracks_most_recent_flows(capacity, earlier);
        lemma_processed(before, event);
        let kept = before.flows_kept(key);
        if before.contains(key) {
            assert(before.is_at(key, before.place(key)));
        }
        assert forall|i: int| 1 <= i < after.flows.len() implies {
            let j = if before.contains(key) && i - 1 >= before.place(key) { i } else { i - 1 };
            &&& 0 <= j < before.flows.len()
            &&& #[trigger] after.flows[i] == before.flows[j]
            &&& last_seen(events, after.flows[i].0) == last_seen(earlier, before.flows[j].0)
        } by {
            assert(after.flows[i] == kept[i - 1]);
        }
        assert forall|i: int| 0 <= i < after.flows.len() implies last_seen(
            events,
            (#[trigger] after.flows[i]).0,
        ) >= 0 by {}
        assert forall|i: int, j: int| 0 <= i < j < after.flows.len() implies last_seen(
            events,
            (#[trigger] after.flows[i]).0,
        ) > last_seen(events, (#[trigger] after.flows[j]).0) by {
            lemma_last_seen_bounds(earlier, after.flows[j].0);
        }
        assert forall|k: FlowKey| #[trigger]
            last_seen(events, k) >= 0 && !after.contains(k) implies after.flows.len() == capacity
            && k != key && last_seen(events, k) == last_seen(earlier, k) && (before.contains(k)
            ==> !before.contains(key) && before.flows.len() == capacity && k
            == before.flows.last().0) by {
            if k == key {
                assert(after.is_at(key, 0));
            } else {
                law_only_least_recent_flow_is_evicted(before, event, k);
                assert(last_seen(events, k) == last_seen(earlier, k));
                assert(before.flows.len() == capacity);
                assert(after.flows.len() == 1 + kept.len());
            }
        }
        assert forall|k: FlowKey, i: int|
            #![trigger last_seen(events, k), after.flows[i]]
            last_seen(events, k) >= 0 && !after.contains(k) && 0 <= i
                < after.flows.len() implies last_seen(events, k) < last_seen(
            events,
            after.flows[i].0,
        ) by {
            lemma_last_seen_bounds(earlier, k);
            if i > 0 {
                let j = if before.contains(key) && i - 1 >= before.place(key) { i } else { i - 1 };
                assert(after.flows[i] == before.flows[j]);
                if before.contains(k) {
                    assert(j < before.flows.len() - 1);
                    assert(before.flows[before.flows.len() - 1].0 == k);
                }
            }
        }
    }
}

/// The packets of flow `key` since the table last opened it, with the sender of the first.
pub open spec fn session(
    capacity: nat,
    events: Seq<PacketEvent>,
    key: FlowKey,
) -> (IpAddr, Seq<PacketSummary>)
    decreases events.len(),
{
    if events.len() == 0 {
        (arbitrary(), Seq::empty())
    } else {
        let earlier = events.drop_last();
        let event = events.last();
        let (opener, packets) = session(capacity, earlier, key);
        if event.spec_flow_key() != key {
            (opener, packets)
        } else if replay_table(capacity, earlier).contains(key) {
            let direction = if event.src_ip == opener {
                Direction::Forward
            } else {
                Direction::Backward
            };
            (opener, packets.push(event.summary(direction)))
        } else {
            (event.src_ip, seq![event.summary(Direction::Forward)])
        }
    }
}

/// What a table knows of a flow is what a flow on its own would know that saw the flow's
/// packets since the table opened it: the packets of other flows leave no trace in it.
pub proof fn law_flows_are_isolated(capacity: nat, events: Seq<PacketEvent>, key: FlowKey)
    requires
        capacity > 0,
        replay_table(capacity, events).contains(key),
    ensures
        ({
            let (opener, packets) = session(capacity, events, key);
            replay_table(capacity, events).flow(key) == replay(opener, packets)
        }),
    decreases events.len(),
{
    if events.len() == 0 {
        let table = replay_table(capacity, events);
        assert(table.is_at(key, table.place(key)));
    } else {
        let earlier = events.drop_last();
        let event = events.last();
        let before = replay_table(capacity, earlier);
        let (opener, packets) = session(capacity, earlier, key);
        law_table_tracks_most_recent_flows(capacity, earlier);
        if event.spec_flow_key() != key {
            law_only_least_recent_flow_is_evicted(before, event, key);
            law_flows_are_isolated(capacity, earlier, key);
        } else {
            law_packet_flow_is_most_recent(before, event);
            if before.contains(key) {
                law_flows_are_isolated(capacity, earlier, key);
                law_window_holds_most_recent(opener, packets);
                let p = event.summary(before.flow(key).direction_of(event.src_ip));
                assert(packets.push(p).drop_last() =~= packets);
            } else {
                let p = event.summary(Direction::Forward);
                assert(seq![p].drop_last() =~= Seq::empty());
                assert(replay(event.src_ip, seq![p].drop_last()) == FlowView::fresh(event.src_ip));
            }
        }
    }
}

/// A table tracks a flow exactly if the flow stands somewhere in its list, and a new table has
/// an empty list.
pub proof fn law_table_tracks_what_it_lists(table: TableView, key: FlowKey, capacity: nat)
    ensures
        table.contains(key) <==> exists|i: int|
            0 <= i < table.flows.len() && (#[trigger] table.flows[i]).0 == key,
        table.valid() && table.contains(key) ==> table.flows.contains((key, table.flow(key))),
        TableView::empty(capacity).flows.len() == 0,
        TableView::empty(capacity).capacity == capacity,
{
    if table.contains(key) {
        assert(table.is_at(key, table.place(key)));
        assert(table.flows[table.place(key)] == (key, table.flow(key)));
    }
    if exists|i: int| 0 <= i < table.flows.len() && (#[trigger] table.flows[i]).0 == key {
        let i = choose|i: int| 0 <= i < table.flows.len() && (#[trigger] table.flows[i]).0 == key;
        assert(table.is_at(key, i));
    }
}

/// A packet enters the window of its flow as it was sent: the newest entry has the packet's
/// time in whole milliseconds, its length and its flags, and is forward exactly if the packet
/// comes from the flow's initiator. The entries before it are those that the flow had, but for
/// the oldest of 128, and a flow that was not tracked starts with this packet.
pub proof fn law_packet_enters_window_as_sent(table: TableView, event: PacketEvent)
    requires
        table.valid(),
        table.capacity > 0,
    ensures
        ({
            let key = event.spec_flow_key();
            let before = table.flow(key);
            let after = table.processed(event).flow(key);
            let entry = after.window.last();
            &&& after.window.len() > 0
            &&& event.timestamp is BeforeEpoch ==> entry.timestamp_ms == 0
            &&& event.timestamp matches Timestamp::SinceEpoch { secs, nanos } ==> entry.timestamp_ms
                == (secs * 1000 + nanos / 1_000_000) % 0x1_0000_0000_0000_0000
            &&& entry.len == event.len
            &&& event.tcp_flags matches Some(flags) ==> entry.tcp_flags == flags
            &&& event.tcp_flags is None ==> entry.tcp_flags == 0
            &&& entry.direction is Forward <==> event.src_ip == after.initiator_ip
            &&& !table.contains(key) ==> after.initiator_ip == event.src_ip && after.total_packets
                == 1 && after.window.len() == 1
            &&& table.contains(key) ==> after.initiator_ip == before.initiator_ip
                && after.total_packets == before.total_packets + 1 && after.window.drop_last() == (
            if before.window.len() < 128 {
                before.window
            } else {
                before.window.skip(1)
            })
        }),
{
    let key = event.spec_flow_key();
    law_packet_flow_is_most_recent(table, event);
    let flow = if table.contains(key) {
        table.flow(key)
    } else {
        FlowView::fresh(event.src_ip)
    };
    law_flow_takes_packet_as_it_is(
        flow,
        event.summary(flow.direction_of(event.src_ip)),
        event.src_ip,
    );
}

/// The features that a packet yields are those of its flow after the packet: they are reported
/// under the packet's key, count all packets of the flow, and the window that they describe
/// ends with the packet.
pub proof fn law_features_are_those_after_the_packet(
    table: TableView,
    event: PacketEvent,
    metrics: FlowMetrics,
)
    requires
        table.valid(),
        table.capacity > 0,
        metrics.describes(event.spec_flow_key(), table.flow_after(event)),
    ensures
        metrics.key == event.spec_flow_key(),
        metrics.describes(
            event.spec_flow_key(),
            table.processed(event).flow(event.spec_flow_key()),
        ),
        !table.contains(event.spec_flow_key()) ==> metrics.packet_count == 1 && metrics.window_len
            == 1 && metrics.bytes == event.len,
        table.contains(event.spec_flow_key()) ==> metrics.packet_count == table.flow(
            event.spec_flow_key(),
        ).total_packets + 1,
{
    law_packet_flow_is_most_recent(table, event);
    law_packet_enters_window_as_sent(table, event);
    law_features_are_statistics_of_window(
        metrics,
        event.spec_flow_key(),
        table.flow_after(event),
    );
    let w = table.flow_after(event).window;
    if w.len() == 1 {
        reveal_with_fuel(Seq::fold_left, 2);
        assert(w.drop_last().len() == 0);
    }
}

/// Two packets of a flow that lie `d` milliseconds apart, in either order, make a flow of
/// duration `d` with the one interval `d`, where `d` is not 0.
pub proof fn law_two_packets_span_their_distance(
    table: TableView,
    first: PacketEvent,
    second: PacketEvent,
    metrics: FlowMetrics,
    d: int,
)
    requires
        table.valid(),
        table.capacity > 0,
        !table.contains(first.spec_flow_key()),
        second.spec_flow_key() == first.spec_flow_key(),
        metrics.describes(
            second.spec_flow_key(),
            table.processed(first).flow_after(second),
        ),
        d > 0,
        ({
            let a = first.timestamp;
            let b = second.timestamp;
            &&& a matches Timestamp::SinceEpoch { secs: s1, nanos: n1 }
            &&& b matches Timestamp::SinceEpoch { secs: s2, nanos: n2 }
            &&& s1 <= 0xffff_ffff_ffff && s2 <= 0xffff_ffff_ffff
            &&& d == (s2 * 1000 + n2 / 1_000_000) - (s1 * 1000 + n1 / 1_000_000) || d == (s1 * 1000
                + n1 / 1_000_000) - (s2 * 1000 + n2 / 1_000_000)
        }),
    ensures
        metrics.duration_ms == d,
        metrics.intervals@ == seq![d as u64],
        metrics.packet_count == 2,
        metrics.window_len == 2,
        metrics.sum_len == first.len + second.len,
{
    let key = first.spec_flow_key();
    let middle = table.processed(first);
    law_table_stays_valid(table, first);
    law_packet_flow_is_most_recent(table, first);
    law_packet_enters_window_as_sent(table, first);
    law_packet_flow_is_most_recent(middle, second);
    law_packet_enters_window_as_sent(middle, second);
    let flow = middle.flow_after(second);
    let w = flow.window;
    assert(w.drop_last()[0] == w[0]);
    assert(w[1] == w.last());
    law_time_features_follow_timestamps(metrics, key, flow);
    law_features_are_statistics_of_window(metrics, key, flow);
    law_intervals_span_window(metrics, key, flow);
    assert(w[0].timestamp_ms - w[1].timestamp_ms <= metrics.duration_ms);
    assert(w[1].timestamp_ms - w[0].timestamp_ms <= metrics.duration_ms);
    assert(metrics.duration_ms == d);
    let gaps = metrics.intervals@;
    lemma_timestamp_in_range(w, 0);
    lemma_timestamp_in_range(w, 1);
    assert(sum(gaps) == gaps[0]) by {
        reveal_with_fuel(sum, 2);
        assert(gaps.drop_last().len() == 0);
    }
    assert(gaps =~= seq![d as u64]);
    assert(metrics.sum_len == first.len + second.len) by {
        reveal_with_fuel(Seq::fold_left, 3);
        assert(w.drop_last().len() == 1 && w.drop_last().drop_last().len() == 0);
    }
}

/// A table takes every packet of a flow that it does not track yet, and of a tracked flow every
/// packet for which the flow's counters have room.
pub proof fn law_table_refuses_only_full_counters(table: TableView, event: PacketEvent)
    requires
        table.capacity > 0,
    ensures
        !table.contains(event.spec_flow_key()) ==> table.accepts(event),
        table.contains(event.spec_flow_key()) ==> (table.accepts(event) <==> table.flow(
            event.spec_flow_key(),
        ).has_room_for(event.len)),
        !(TableView { capacity: 0, ..table }).accepts(event),
{
}

/// What one packet does to a table: its flow stands first, with the packet as the newest entry
/// of its window; no other flow changes; at most one flow is gone, and that only where a new
/// flow met a full table; and the features returned are those of the flow after the packet.
pub proof fn law_processing_takes_the_packet_in(
    table: &mut FlowTable,
    event: PacketEvent,
    other: FlowKey,
    metrics: FlowMetrics,
)
    requires
        old(table).wf(),
        old(table)@.capacity > 0,
        call_ensures(FlowTable::process_packet, (table, &event), metrics),
        other != event.spec_flow_key(),
    ensures
        ({
            let key = event.spec_flow_key();
            let before = old(table)@;
            let after = final(table)@;
            let entry = after.flow(key).window.last();
            &&& after.flows.len() > 0 && after.flows[0].0 == key
            &&& after.flows.len() <= after.capacity == before.capacity
            &&& entry.timestamp_ms == (match event.timestamp {
                Timestamp::BeforeEpoch => 0int,
                Timestamp::SinceEpoch { secs, nanos } => (secs * 1000 + nanos / 1_000_000)
                    % 0x1_0000_0000_0000_0000,
            })
            &&& entry.len == event.len
            &&& entry.tcp_flags == (match event.tcp_flags {
                Some(flags) => flags,
                None => 0u8,
            })
            &&& after.contains(other) ==> before.contains(other) && after.flow(other) == before.flow(
                other,
            )
            &&& before.contains(other) && !after.contains(other) ==> !before.contains(key)
                && before.flows.len() == before.capacity && other == before.flows.last().0
            &&& metrics.key == key
            &&& metrics.packet_count == after.flow(key).total_packets
            &&& metrics.describes(key, after.flow(key))
        }),
{
    let key = event.spec_flow_key();
    let before = old(table)@;
    old(table).lemma_view_is_valid();
    law_table_stays_valid(before, event);
    law_packet_flow_is_most_recent(before, event);
    law_packet_enters_window_as_sent(before, event);
    law_only_least_recent_flow_is_evicted(before, event, other);
    let after = before.processed(event);
    assert(after.is_at(key, after.place(key)));
}

/// What a table says of itself agrees: it is empty exactly if it has no flows, and it holds the
/// flows that it lists.
pub proof fn law_table_reports_agree(
    table: FlowTable,
    key: FlowKey,
    len: usize,
    is_empty: bool,
    contains: bool,
)
    requires
        table.wf(),
        call_ensures(FlowTable::len, (&table,), len),
        call_ensures(FlowTable::is_empty, (&table,), is_empty),
        call_ensures(FlowTable::contains, (&table, &key), contains),
    ensures
        len == table@.flows.len() <= table@.capacity,
        is_empty <==> len == 0,
        contains <==> exists|i: int| 0 <= i < len && (#[trigger] table@.flows[i]).0 == key,
{
    table.lemma_view_is_valid();
    law_table_tracks_what_it_lists(table@, key, 0);
}

/// A new table lists no flow and keeps the capacity that it was given.
pub proof fn law_new_table_is_empty(capacity: usize, r: FlowTable)
    requires
        call_ensures(FlowTable::new, (capacity,), r),
    ensures
        r@.flows.len() == 0,
        r@.capacity == capacity,
        r.wf(),
{
}

} // verus!
