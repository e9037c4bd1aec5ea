//! One flow: a ring buffer of recent packets with rolling aggregates, and the integer
//! features that the detector derives from it.

use vstd::prelude::*;
use crate::addr::IpAddr;
use crate::packet::{summarize, Direction, FlowKey, PacketSummary};
use crate::time::Timestamp;
use crate::window::{
    duration_ms, gaps, intervals, law_duration_is_largest_distance,
    law_intervals_are_steps_in_time_order, law_slide_keeps_the_latest, lemma_directions_partition,
    lemma_gaps_telescope, lemma_sorted_is_unique, lemma_sorted_timestamps,
    lemma_timestamp_in_range, lemma_total_adds_up, lemma_total_bounds, lemma_total_counts,
    lemma_total_drop_first, lemma_total_push, lemma_variance, measure, slide, sorted_timestamps, sum,
    timestamps, total, Measure, ACK, FIN, PSH, RST, SYN, WINDOW_SIZE,
};

verus! {

/// A flow as a mathematical object: who opened it, how many packets it has seen, and the
/// most recent ones, oldest first.
pub struct FlowView {
    pub initiator_ip: IpAddr,
    pub total_packets: nat,
    pub window: Seq<PacketSummary>,
}

impl FlowView {
    /// A flow that has seen no packet.
    pub open spec fn fresh(initiator_ip: IpAddr) -> FlowView {
        FlowView { initiator_ip, total_packets: 0, window: Seq::empty() }
    }

    /// The flow after one more packet.
    pub open spec fn updated(self, packet: PacketSummary) -> FlowView {
        FlowView {
            initiator_ip: self.initiator_ip,
            total_packets: self.total_packets + 1,
            window: slide(self.window, packet),
        }
    }

    /// The direction of a packet from `src_ip`: forward if it comes from the initiator.
    pub open spec fn direction_of(self, src_ip: IpAddr) -> Direction {
        if src_ip == self.initiator_ip {
            Direction::Forward
        } else {
            Direction::Backward
        }
    }

    /// The counters of this flow can take one more packet of length `len`: the packet count
    /// and the sum of squared lengths stay within 64 bits.
    pub open spec fn has_room_for(self, len: u32) -> bool {
        let kept = if self.window.len() >= WINDOW_SIZE {
            self.window.drop_first()
        } else {
            self.window
        };
        &&& self.total_packets < u64::MAX
        &&& total(Measure::SquaredBytes, kept) + len * len <= u64::MAX
    }
}

/// Sliding window rolling metrics for a single network flow.
/// Pre-allocated buffer of size WINDOW_SIZE to guarantee O(1) zero-allocation updates.
#[derive(Debug, Clone)]
pub struct FlowState {
    pub initiator_ip: IpAddr,
    pub total_packets: u64,
    pub buffer: [PacketSummary; WINDOW_SIZE],
    pub head: usize,
    pub count: usize,
    // Rolling aggregates inside the sliding window
    pub packets_fwd: u32,
    pub packets_bwd: u32,
    pub bytes_fwd: u64,
    pub bytes_bwd: u64,
    pub syn_count: u32,
    pub rst_count: u32,
    pub fin_count: u32,
    pub psh_count: u32,
    pub ack_count: u32,
    pub sum_len: u64,
    pub sum_len_sq: u64,
}

impl View for FlowState {
    type V = FlowView;

    open spec fn view(&self) -> FlowView {
        FlowView {
            initiator_ip: self.initiator_ip,
            total_packets: self.total_packets as nat,
            window: self.window(),
        }
    }
}

impl FlowState {
    /// The packets in the window, oldest first: the `count` slots before `head`.
    pub open spec fn window(&self) -> Seq<PacketSummary> {
        Seq::new(
            self.count as nat,
            |i: int| self.buffer@[(self.head + WINDOW_SIZE - self.count + i) % (WINDOW_SIZE as int)],
        )
    }

    /// Every rolling aggregate is the total over `w`.
    pub open spec fn aggregates(&self, w: Seq<PacketSummary>) -> bool {
        &&& self.packets_fwd == total(Measure::FwdPackets, w)
        &&& self.packets_bwd == total(Measure::BwdPackets, w)
        &&& self.bytes_fwd == total(Measure::FwdBytes, w)
        &&& self.bytes_bwd == total(Measure::BwdBytes, w)
        &&& self.syn_count == total(Measure::Flag(SYN), w)
        &&& self.rst_count == total(Measure::Flag(RST), w)
        &&& self.fin_count == total(Measure::Flag(FIN), w)
        &&& self.psh_count == total(Measure::Flag(PSH), w)
        &&& self.ack_count == total(Measure::Flag(ACK), w)
        &&& self.sum_len == total(Measure::Bytes, w)
        &&& self.sum_len_sq == total(Measure::SquaredBytes, w)
    }

    /// The ring buffer is in order and the rolling aggregates describe the window.
    pub open spec fn wf(&self) -> bool {
        &&& self.head < WINDOW_SIZE
        &&& self.count <= WINDOW_SIZE
        &&& self.count < WINDOW_SIZE ==> self.head == self.count
        &&& self.count <= self.total_packets
        &&& self.aggregates(self.window())
    }

    /// Everything but the rolling aggregates is as in `other`.
    spec fn same_ring(&self, other: &FlowState) -> bool {
        &&& self.initiator_ip == other.initiator_ip
        &&& self.total_packets == other.total_packets
        &&& self.buffer == other.buffer
        &&& self.head == other.head
        &&& self.count == other.count
    }

    /// A flow opened by `initiator_ip` that has seen no packet yet.
    pub fn new(initiator_ip: IpAddr) -> (r: FlowState)
        ensures
            r.wf(),
            r@ == FlowView::fresh(initiator_ip),
            r.head == 0,
            forall|i: int|
                0 <= i < WINDOW_SIZE ==> r.buffer@[i] == (PacketSummary {
                    timestamp_ms: 0,
                    len: 0,
                    direction: Direction::Forward,
                    tcp_flags: 0,
                }),
    {
        let empty = PacketSummary::default();
        let r = FlowState {
            initiator_ip,
            total_packets: 0,
            buffer: [empty;WINDOW_SIZE],
            head: 0,
            count: 0,
            packets_fwd: 0,
            packets_bwd: 0,
            bytes_fwd: 0,
            bytes_bwd: 0,
            syn_count: 0,
            rst_count: 0,
            fin_count: 0,
            psh_count: 0,
            ack_count: 0,
            sum_len: 0,
            sum_len_sq: 0,
        };
        assert(r.window() =~= Seq::empty());
        r
    }

    /// Reset the flow state to allow zero-allocation memory recycling inside the Slab.
    /// The buffer is left as it is; its slots are overwritten as packets arrive.
    pub fn reset(&mut self, initiator_ip: IpAddr)
        ensures
            final(self).wf(),
            final(self)@ == FlowView::fresh(initiator_ip),
            final(self).head == 0,
            final(self).buffer == old(self).buffer,
    {
        self.initiator_ip = initiator_ip;
        self.total_packets = 0;
        self.head = 0;
        self.count = 0;
        self.packets_fwd = 0;
        self.packets_bwd = 0;
        self.bytes_fwd = 0;
        self.bytes_bwd = 0;
        self.syn_count = 0;
        self.rst_count = 0;
        self.fin_count = 0;
        self.psh_count = 0;
        self.ack_count = 0;
        self.sum_len = 0;
        self.sum_len_sq = 0;
        assert(self.window() =~= Seq::empty());
    }

    /// Updates the sliding window with a new packet, evicting the oldest packet if the window is full.
    /// Updates rolling statistical aggregates in O(1) time with no allocations.
    pub fn update(
        &mut self,
        timestamp: Timestamp,
        len: u32,
        direction: Direction,
        tcp_flags: Option<u8>,
    )
        requires
            old(self).wf(),
            old(self)@.has_room_for(len),
        ensures
            final(self).wf(),
            final(self)@ == old(self)@.updated(summarize(timestamp, len, direction, tcp_flags)),
            final(self).head == (old(self).head + 1) % (WINDOW_SIZE as int),
            final(self).buffer@ == old(self).buffer@.update(
                old(self).head as int,
                summarize(timestamp, len, direction, tcp_flags),
            ),
    {
        let ghost w = self.window();
        let ghost kept = if w.len() >= WINDOW_SIZE {
            w.drop_first()
        } else {
            w
        };
        let ghost p = summarize(timestamp, len, direction, tcp_flags);

        self.total_packets = self.total_packets + 1;

        let timestamp_ms = timestamp.millis();
        let flags: u8 = match tcp_flags {
            Some(f) => f,
            None => 0,
        };
        let new_pkt = PacketSummary { timestamp_ms, len, direction, tcp_flags: flags };

        // If the window is full, we must evict the oldest packet at `self.head` from the aggregates
        if self.count == WINDOW_SIZE {
            let old_pkt = self.buffer[self.head];
            assert(w[0] == old_pkt);
            self.forget(old_pkt, Ghost(w));
        }
        // Add the new packet to rolling aggregates
        self.record(new_pkt, Ghost(kept));

        // Write new packet to buffer and advance write pointer
        self.buffer[self.head] = new_pkt;
        self.head = (self.head + 1) % WINDOW_SIZE;

        if self.count < WINDOW_SIZE {
            self.count = self.count + 1;
        }
        proof {
            assert(self.window() =~= slide(w, p));
        }
    }

    /// Takes the oldest packet of `w` out of the aggregates.
    fn forget(&mut self, p: PacketSummary, Ghost(w): Ghost<Seq<PacketSummary>>)
        requires
            old(self).aggregates(w),
            w.len() > 0,
            w[0] == p,
        ensures
            final(self).aggregates(w.drop_first()),
            final(self).same_ring(old(self)),
    {
        proof {
            lemma_first_leaves(w);
            assert(p.len as int * p.len as int <= u64::MAX) by (nonlinear_arith);
        }
        self.sum_len = self.sum_len - p.len as u64;
        self.sum_len_sq = self.sum_len_sq - (p.len as u64) * (p.len as u64);
        match p.direction {
            Direction::Forward => {
                self.packets_fwd = self.packets_fwd - 1;
                self.bytes_fwd = self.bytes_fwd - p.len as u64;
            },
            Direction::Backward => {
                self.packets_bwd = self.packets_bwd - 1;
                self.bytes_bwd = self.bytes_bwd - p.len as u64;
            },
        }
        if (p.tcp_flags & FIN) != 0 {
            self.fin_count = self.fin_count - 1;
        }
        if (p.tcp_flags & SYN) != 0 {
            self.syn_count = self.syn_count - 1;
        }
        if (p.tcp_flags & RST) != 0 {
            self.rst_count = self.rst_count - 1;
        }
        if (p.tcp_flags & PSH) != 0 {
            self.psh_count = self.psh_count - 1;
        }
        if (p.tcp_flags & ACK) != 0 {
            self.ack_count = self.ack_count - 1;
        }
    }

    /// Adds a packet to the aggregates over `w`.
    fn record(&mut self, p: PacketSummary, Ghost(w): Ghost<Seq<PacketSummary>>)
        requires
            old(self).aggregates(w),
            w.len() < WINDOW_SIZE,
            total(Measure::SquaredBytes, w) + p.len * p.len <= u64::MAX,
        ensures
            final(self).aggregates(w.push(p)),
            final(self).same_ring(old(self)),
    {
        proof {
            lemma_packet_joins(w, p);
            assert(p.len as int * p.len as int <= u64::MAX) by (nonlinear_arith);
        }
        self.sum_len = self.sum_len + p.len as u64;
        self.sum_len_sq = self.sum_len_sq + (p.len as u64) * (p.len as u64);
        match p.direction {
            Direction::Forward => {
                self.packets_fwd = self.packets_fwd + 1;
                self.bytes_fwd = self.bytes_fwd + p.len as u64;
            },
            Direction::Backward => {
                self.packets_bwd = self.packets_bwd + 1;
                self.bytes_bwd = self.bytes_bwd + p.len as u64;
            },
        }
        if (p.tcp_flags & FIN) != 0 {
            self.fin_count = self.fin_count + 1;
        }
        if (p.tcp_flags & SYN) != 0 {
            self.syn_count = self.syn_count + 1;
        }
        if (p.tcp_flags & RST) != 0 {
            self.rst_count = self.rst_count + 1;
        }
        if (p.tcp_flags & PSH) != 0 {
            self.psh_count = self.psh_count + 1;
        }
        if (p.tcp_flags & ACK) != 0 {
            self.ack_count = self.ack_count + 1;
        }
    }
}

/// Sorts values in ascending order, by `sort_unstable` of the standard library's slices. The
/// contract claims that the result is ascending and holds the same values equally often.
#[verifier::external_body]
fn sort_ascending(values: &mut Vec<u64>)
    ensures
        final(values)@.to_multiset() == old(values)@.to_multiset(),
        forall|i: int, j: int|
            0 <= i <= j < final(values)@.len() ==> final(values)@[i] <= final(values)@[j],
{
    values.sort_unstable();
}

/// Features of a flow ready for the detector. Every feature is a quotient of integers; the
/// integers are kept, so that nothing is rounded before the detector divides.
#[derive(Debug, Clone)]
pub struct FlowMetrics {
    pub src_ip: IpAddr,
    pub dest_ip: IpAddr,
    pub src_port: u16,
    pub dest_port: u16,
    pub protocol: u8,
    pub key: FlowKey,
    /// Packets seen over the life of the flow.
    pub packet_count: u64,
    /// Packets in the window.
    pub window_len: usize,
    /// Packets in the window, at least 1: the divisor of means and ratios.
    pub sample_count: usize,
    pub sum_len: u64,
    pub sum_len_sq: u64,
    /// Time that the window spans in milliseconds, at least 1.
    pub duration_ms: u64,
    /// Bytes in the window, both directions together.
    pub bytes: u64,
    pub packets_fwd: u32,
    /// Backward packets in the window, at least 1: the divisor of the direction ratio.
    pub bwd_divisor: u32,
    pub syn_count: u32,
    pub rst_count: u32,
    pub fin_count: u32,
    pub psh_count: u32,
    pub ack_count: u32,
    /// Milliseconds between neighbours in the sorted timestamps of the window.
    pub intervals: Vec<u64>,
}

impl FlowMetrics {
    /// These are the features of the flow `flow` with key `key`.
    pub open spec fn describes(&self, key: FlowKey, flow: FlowView) -> bool {
        let w = flow.window;
        &&& self.src_ip == key.ip_min
        &&& self.dest_ip == key.ip_max
        &&& self.src_port == key.port_min
        &&& self.dest_port == key.port_max
        &&& self.protocol == key.protocol
        &&& self.key == key
        &&& self.packet_count == flow.total_packets
        &&& self.window_len == w.len()
        &&& self.sample_count == if w.len() == 0 { 1 } else { w.len() }
        &&& self.sum_len == total(Measure::Bytes, w)
        &&& self.sum_len_sq == total(Measure::SquaredBytes, w)
        &&& self.duration_ms == duration_ms(w)
        &&& self.bytes == total(Measure::FwdBytes, w) + total(Measure::BwdBytes, w)
        &&& self.packets_fwd == total(Measure::FwdPackets, w)
        &&& self.bwd_divisor == if total(Measure::BwdPackets, w) == 0 {
            1
        } else {
            total(Measure::BwdPackets, w)
        }
        &&& self.syn_count == total(Measure::Flag(SYN), w)
        &&& self.rst_count == total(Measure::Flag(RST), w)
        &&& self.fin_count == total(Measure::Flag(FIN), w)
        &&& self.psh_count == total(Measure::Flag(PSH), w)
        &&& self.ack_count == total(Measure::Flag(ACK), w)
        &&& self.intervals@ == intervals(w)
    }
}

impl FlowState {
    /// Computes aggregated statistical features for ML engine input.
    pub fn compute_metrics(&self, key: FlowKey) -> (r: FlowMetrics)
        requires
            self.wf(),
        ensures
            r.describes(key, self@),
    {
        let ghost w = self.window();
        proof {
            lemma_total_bounds(Measure::FwdBytes, w);
            lemma_total_bounds(Measure::BwdBytes, w);
            lemma_sorted_timestamps(w);
        }

        let sorted_ts = self.sorted_window_timestamps();

        // Distance from the oldest to the newest packet, by which rates are computed
        let duration = if self.count > 1 && sorted_ts[self.count - 1] > sorted_ts[0] {
            sorted_ts[self.count - 1] - sorted_ts[0]
        } else {
            1  // Default to 1ms to avoid divide by zero
        };

        let mut gap_list: Vec<u64> = Vec::new();
        let mut i: usize = 1;
        while i < self.count
            invariant
                1 <= i,
                self.count > 0 ==> i <= self.count,
                self.count == 0 ==> i == 1,
                sorted_ts@.len() == self.count,
                forall|a: int, b: int|
                    0 <= a <= b < sorted_ts@.len() ==> sorted_ts@[a] <= sorted_ts@[b],
                gap_list@.len() == i - 1,
                forall|k: int|
                    0 <= k < gap_list@.len() ==> gap_list@[k] == sorted_ts@[k + 1] - sorted_ts@[k],
            decreases self.count - i,
        {
            gap_list.push(sorted_ts[i] - sorted_ts[i - 1]);
            i = i + 1;
        }
        assert(gap_list@ =~= gaps(sorted_ts@));

        FlowMetrics {
            src_ip: key.ip_min,  // Normalized reporting IP
            dest_ip: key.ip_max,
            src_port: key.port_min,
            dest_port: key.port_max,
            protocol: key.protocol,
            key,
            packet_count: self.total_packets,
            window_len: self.count,
            sample_count: if self.count == 0 { 1 } else { self.count },
            sum_len: self.sum_len,
            sum_len_sq: self.sum_len_sq,
            duration_ms: duration,
            bytes: self.bytes_fwd + self.bytes_bwd,
            packets_fwd: self.packets_fwd,
            bwd_divisor: if self.packets_bwd == 0 { 1 } else { self.packets_bwd },
            syn_count: self.syn_count,
            rst_count: self.rst_count,
            fin_count: self.fin_count,
            psh_count: self.psh_count,
            ack_count: self.ack_count,
            intervals: gap_list,
        }
    }

    /// The timestamps in the window, in ascending order.
    fn sorted_window_timestamps(&self) -> (r: Vec<u64>)
        requires
            self.wf(),
        ensures
            r@ == sorted_timestamps(self.window()),
    {
        let ghost w = self.window();
        let mut ts: Vec<u64> = Vec::with_capacity(WINDOW_SIZE);
        let mut i: usize = 0;
        while i < self.count
            invariant
                i <= self.count,
                self.wf(),
                w == self.window(),
                ts@.len() == i,
                forall|k: int| 0 <= k < i ==> ts@[k] == w[k].timestamp_ms,
            decreases self.count - i,
        {
            let idx: usize = (self.head + WINDOW_SIZE - self.count + i) % WINDOW_SIZE;
            assert(w[i as int] == self.buffer@[idx as int]);
            ts.push(self.buffer[idx].timestamp_ms);
            i = i + 1;
        }
        assert(ts@ =~= timestamps(w));
        sort_ascending(&mut ts);
        proof {
            lemma_sorted_is_unique(w, ts@);
        }
        ts
    }

    /// Whether the counters can take one more packet of length `len`.
    pub fn has_room(&self, len: u32) -> (r: bool)
        requires
            self.wf(),
        ensures
            r == self@.has_room_for(len),
    {
        let ghost w = self.window();
        let old_sq: u64 = if self.count == WINDOW_SIZE {
            let oldest = self.buffer[self.head].len as u64;
            assert(w[0] == self.buffer@[self.head as int]);
            assert(oldest * oldest <= u64::MAX) by (nonlinear_arith)
                requires
                    oldest <= u32::MAX,
            ;
            oldest * oldest
        } else {
            0
        };
        proof {
            if w.len() > 0 {
                lemma_first_leaves(w);
                assert(total(Measure::SquaredBytes, w) >= measure(Measure::SquaredBytes, w[0]));
            }
            assert(len as u64 * len as u64 <= u64::MAX) by (nonlinear_arith)
                requires
                    len <= u32::MAX,
            ;
        }
        let new_sq: u64 = (len as u64) * (len as u64);
        self.total_packets < u64::MAX && self.sum_len_sq - old_sq <= u64::MAX - new_sq
    }
}

/// Every total over `w` is the first packet's share and the total over the rest.
proof fn lemma_first_leaves(w: Seq<PacketSummary>)
    requires
        w.len() > 0,
    ensures
        forall|m: Measure|
            #![trigger total(m, w)]
            #![trigger total(m, w.drop_first())]
            total(m, w.drop_first()) == total(m, w) - measure(m, w[0]) && total(m, w.drop_first())
                >= 0,
{
    assert forall|m: Measure|
        #![trigger total(m, w)]
        #![trigger total(m, w.drop_first())]
        total(m, w.drop_first()) == total(m, w) - measure(m, w[0]) && total(m, w.drop_first())
            >= 0 by {
        lemma_total_drop_first(m, w);
        lemma_total_bounds(m, w.drop_first());
    }
}

/// Every total over `w` grows by the new packet's share, within the machine counters.
proof fn lemma_packet_joins(w: Seq<PacketSummary>, p: PacketSummary)
    requires
        w.len() < WINDOW_SIZE,
    ensures
        forall|m: Measure|
            #![trigger total(m, w)]
            #![trigger total(m, w.push(p))]
            {
                &&& total(m, w.push(p)) == total(m, w) + measure(m, p)
                &&& m is Bytes || m is FwdBytes || m is BwdBytes ==> total(m, w) <= WINDOW_SIZE
                    * u32::MAX
                &&& m is FwdPackets || m is BwdPackets || m is Flag ==> total(m, w) <= WINDOW_SIZE
            },
{
    assert forall|m: Measure|
        #![trigger total(m, w)]
        #![trigger total(m, w.push(p))]
        {
            &&& total(m, w.push(p)) == total(m, w) + measure(m, p)
            &&& m is Bytes || m is FwdBytes || m is BwdBytes ==> total(m, w) <= WINDOW_SIZE
                * u32::MAX
            &&& m is FwdPackets || m is BwdPackets || m is Flag ==> total(m, w) <= WINDOW_SIZE
        } by {
        lemma_total_push(m, w, p);
        lemma_total_bounds(m, w);
    }
}

/// A flow that sees the packets of `packets`, one after the other.
pub open spec fn replay(initiator_ip: IpAddr, packets: Seq<PacketSummary>) -> FlowView
    decreases packets.len(),
{
    if packets.len() == 0 {
        FlowView::fresh(initiator_ip)
    } else {
        replay(initiator_ip, packets.drop_last()).updated(packets.last())
    }
}

/// However many packets a flow has seen, its window holds the most recent ones, as many as
/// fit, in order of arrival, and its packet count is the number of all of them.
pub proof fn law_window_holds_most_recent(initiator_ip: IpAddr, packets: Seq<PacketSummary>)
    ensures
        replay(initiator_ip, packets).initiator_ip == initiator_ip,
        replay(initiator_ip, packets).total_packets == packets.len(),
        packets.len() <= WINDOW_SIZE ==> replay(initiator_ip, packets).window == packets,
        packets.len() > WINDOW_SIZE ==> replay(initiator_ip, packets).window == packets.skip(
            packets.len() - WINDOW_SIZE,
        ),
    decreases packets.len(),
{
    if packets.len() > 0 {
        law_window_holds_most_recent(initiator_ip, packets.drop_last());
        let w = replay(initiator_ip, packets).window;
        if packets.len() <= WINDOW_SIZE {
            assert(w =~= packets);
        } else {
            assert(w =~= packets.skip(packets.len() - WINDOW_SIZE));
        }
    } else {
        assert(replay(initiator_ip, packets).window =~= packets);
    }
}

/// `after` is `before` with one more packet: what `FlowState::update` does to a state.
pub open spec fn is_update(before: FlowState, packet: PacketSummary, after: FlowState) -> bool {
    &&& before.wf()
    &&& after.wf()
    &&& after@ == before@.updated(packet)
    &&& after.head == (before.head + 1) % (WINDOW_SIZE as int)
    &&& after.buffer@ == before.buffer@.update(before.head as int, packet)
}

/// The write pointer of a new flow counts its packets around the ring: after `n` packets it
/// stands at `n` modulo the window size.
pub proof fn law_head_counts_packets(states: Seq<FlowState>, packets: Seq<PacketSummary>)
    requires
        states.len() == packets.len() + 1,
        states[0].head == 0,
        forall|i: int|
            0 <= i < packets.len() ==> is_update(states[i], #[trigger] packets[i], states[i + 1]),
    ensures
        states.last().head == packets.len() % (WINDOW_SIZE as nat),
    decreases packets.len(),
{
    if packets.len() > 0 {
        let n = packets.len() - 1;
        let (fewer, earlier) = (states.drop_last(), packets.drop_last());
        assert forall|i: int| 0 <= i < earlier.len() implies is_update(
            fewer[i],
            #[trigger] earlier[i],
            fewer[i + 1],
        ) by {
            assert(earlier[i] == packets[i]);
        }
        law_head_counts_packets(fewer, earlier);
        assert(is_update(states[n], packets[n], states[n + 1]));
    }
}

/// A state and a packet leave no choice: equal states that take the same packet are equal
/// again, in every field.
pub proof fn law_update_is_determined(
    before: FlowState,
    packet: PacketSummary,
    a: FlowState,
    b: FlowState,
)
    requires
        is_update(before, packet, a),
        is_update(before, packet, b),
    ensures
        a == b,
{
    assert(a@ == b@);
    assert(a.window() == b.window());
    assert(a.window().len() == a.count && b.window().len() == b.count);
    assert(a.buffer =~= b.buffer);
}

/// The largest packet length of which a full window's squares always fit in 64 bits.
pub const MAX_SAFE_LEN: u32 = 379_625_062;

/// While no packet is longer than `MAX_SAFE_LEN` and the packet count is not exhausted, a
/// flow takes every packet.
pub proof fn law_ordinary_packets_fit(flow: FlowView, len: u32)
    requires
        flow.window.len() <= WINDOW_SIZE,
        flow.total_packets < u64::MAX,
        forall|i: int| 0 <= i < flow.window.len() ==> flow.window[i].len <= MAX_SAFE_LEN,
        len <= MAX_SAFE_LEN,
    ensures
        flow.has_room_for(len),
{
    let kept = if flow.window.len() >= WINDOW_SIZE {
        flow.window.drop_first()
    } else {
        flow.window
    };
    lemma_squares_bounded(kept);
    assert(len * len <= 379_625_062 * 379_625_062) by (nonlinear_arith)
        requires
            0 <= len <= 379_625_062,
    ;
    assert(kept.len() * (379_625_062 * 379_625_062) <= 127 * (379_625_062 * 379_625_062))
        by (nonlinear_arith)
        requires
            kept.len() <= 127,
    ;
}

proof fn lemma_squares_bounded(w: Seq<PacketSummary>)
    requires
        forall|i: int| 0 <= i < w.len() ==> w[i].len <= MAX_SAFE_LEN,
    ensures
        total(Measure::SquaredBytes, w) <= w.len() * (379_625_062 * 379_625_062),
    decreases w.len(),
{
    if w.len() > 0 {
        lemma_squares_bounded(w.drop_last());
        let l = w.last().len;
        assert(l * l <= 379_625_062 * 379_625_062) by (nonlinear_arith)
            requires
                0 <= l <= 379_625_062,
        ;
        assert((w.len() - 1) * (379_625_062 * 379_625_062) + 379_625_062 * 379_625_062 == w.len() * (
        379_625_062 * 379_625_062)) by (nonlinear_arith);
    }
}

/// The variance of the packet lengths in a window, taken without rounding, is not negative:
/// the mean of the squares is at least the square of the mean.
pub proof fn law_length_variance_is_not_negative(
    metrics: FlowMetrics,
    key: FlowKey,
    flow: FlowView,
)
    requires
        metrics.describes(key, flow),
    ensures
        metrics.sum_len * metrics.sum_len <= metrics.sample_count * metrics.sum_len_sq,
{
    lemma_variance(flow.window);
}

/// Every packet of the window is counted in exactly one direction, and the bytes of both
/// directions are all bytes.
pub proof fn law_directions_cover_window(state: FlowState)
    requires
        state.wf(),
    ensures
        state.packets_fwd + state.packets_bwd == state.count,
        state.bytes_fwd + state.bytes_bwd == state.sum_len,
{
    lemma_directions_partition(state.window());
}

/// No flag is counted more often than there are packets in the window, so every flag ratio
/// lies between 0 and 1.
pub proof fn law_flag_ratios_are_fractions(metrics: FlowMetrics, key: FlowKey, flow: FlowView)
    requires
        metrics.describes(key, flow),
    ensures
        metrics.syn_count <= metrics.sample_count,
        metrics.rst_count <= metrics.sample_count,
        metrics.fin_count <= metrics.sample_count,
        metrics.psh_count <= metrics.sample_count,
        metrics.ack_count <= metrics.sample_count,
{
    lemma_total_bounds(Measure::Flag(SYN), flow.window);
    lemma_total_bounds(Measure::Flag(RST), flow.window);
    lemma_total_bounds(Measure::Flag(FIN), flow.window);
    lemma_total_bounds(Measure::Flag(PSH), flow.window);
    lemma_total_bounds(Measure::Flag(ACK), flow.window);
}

/// No divisor of a feature is zero.
pub proof fn law_divisors_are_positive(metrics: FlowMetrics, key: FlowKey, flow: FlowView)
    requires
        metrics.describes(key, flow),
    ensures
        metrics.sample_count > 0,
        metrics.duration_ms > 0,
        metrics.bwd_divisor > 0,
{
    lemma_total_bounds(Measure::BwdPackets, flow.window);
}

/// A window of n packets has n - 1 inter-arrival times, and they add up to the time from its
/// earliest to its latest packet; where that is not zero it is the window's duration.
pub proof fn law_intervals_span_window(metrics: FlowMetrics, key: FlowKey, flow: FlowView)
    requires
        metrics.describes(key, flow),
        flow.window.len() > 0,
    ensures
        metrics.intervals@.len() == flow.window.len() - 1,
        sum(metrics.intervals@) == sorted_timestamps(flow.window).last() - sorted_timestamps(
            flow.window,
        )[0],
        sum(metrics.intervals@) > 0 ==> metrics.duration_ms == sum(metrics.intervals@),
        sum(metrics.intervals@) == 0 ==> metrics.duration_ms == 1,
{
    lemma_sorted_timestamps(flow.window);
    lemma_gaps_telescope(sorted_timestamps(flow.window));
}

/// No two packets of a window lie further apart in time than its duration.
pub proof fn law_duration_covers_window(flow: FlowView, i: int, j: int)
    requires
        0 <= i < flow.window.len(),
        0 <= j < flow.window.len(),
    ensures
        flow.window[i].timestamp_ms - flow.window[j].timestamp_ms <= duration_ms(flow.window),
{
    lemma_sorted_timestamps(flow.window);
    lemma_timestamp_in_range(flow.window, i);
    lemma_timestamp_in_range(flow.window, j);
}

/// Each counter of a flow is a statistic of its window: how many packets go each way and how
/// many carry each TCP flag, whatever else they carry, and how many bytes there are each way,
/// in all, and squared.
pub proof fn law_counters_are_statistics_of_window(state: FlowState)
    requires
        state.wf(),
    ensures
        state.packets_fwd == state.window().filter(|p: PacketSummary| p.direction is Forward).len(),
        state.packets_bwd == state.window().filter(|p: PacketSummary| p.direction is Backward).len(),
        state.bytes_fwd == state.window().fold_left(
            0int,
            |acc: int, p: PacketSummary|
                if p.direction is Forward {
                    acc + p.len
                } else {
                    acc
                },
        ),
        state.bytes_bwd == state.window().fold_left(
            0int,
            |acc: int, p: PacketSummary|
                if p.direction is Backward {
                    acc + p.len
                } else {
                    acc
                },
        ),
        state.sum_len == state.window().fold_left(0int, |acc: int, p: PacketSummary| acc + p.len),
        state.sum_len_sq == state.window().fold_left(
            0int,
            |acc: int, p: PacketSummary| acc + p.len * p.len,
        ),
        state.syn_count == state.window().filter(|p: PacketSummary| p.tcp_flags & 0x02u8 != 0).len(),
        state.rst_count == state.window().filter(|p: PacketSummary| p.tcp_flags & 0x04u8 != 0).len(),
        state.fin_count == state.window().filter(|p: PacketSummary| p.tcp_flags & 0x01u8 != 0).len(),
        state.psh_count == state.window().filter(|p: PacketSummary| p.tcp_flags & 0x08u8 != 0).len(),
        state.ack_count == state.window().filter(|p: PacketSummary| p.tcp_flags & 0x10u8 != 0).len(),
{
    let w = state.window();
    lemma_total_counts(Measure::FwdPackets, w, |p: PacketSummary| p.direction is Forward);
    lemma_total_counts(Measure::BwdPackets, w, |p: PacketSummary| p.direction is Backward);
    lemma_total_adds_up(
        Measure::FwdBytes,
        w,
        |acc: int, p: PacketSummary|
            if p.direction is Forward {
                acc + p.len
            } else {
                acc
            },
    );
    lemma_total_adds_up(
        Measure::BwdBytes,
        w,
        |acc: int, p: PacketSummary|
            if p.direction is Backward {
                acc + p.len
            } else {
                acc
            },
    );
    lemma_total_adds_up(Measure::Bytes, w, |acc: int, p: PacketSummary| acc + p.len);
    lemma_total_adds_up(Measure::SquaredBytes, w, |acc: int, p: PacketSummary| acc + p.len * p.len);
    lemma_total_counts(
        Measure::Flag(SYN),
        w,
        |p: PacketSummary| p.tcp_flags & 0x02u8 != 0,
    );
    lemma_total_counts(
        Measure::Flag(RST),
        w,
        |p: PacketSummary| p.tcp_flags & 0x04u8 != 0,
    );
    lemma_total_counts(
        Measure::Flag(FIN),
        w,
        |p: PacketSummary| p.tcp_flags & 0x01u8 != 0,
    );
    lemma_total_counts(
        Measure::Flag(PSH),
        w,
        |p: PacketSummary| p.tcp_flags & 0x08u8 != 0,
    );
    lemma_total_counts(
        Measure::Flag(ACK),
        w,
        |p: PacketSummary| p.tcp_flags & 0x10u8 != 0,
    );
}

/// Each feature of a flow is its own statistic of the window: every flag feature counts its own
/// flag, and lengths, directions, duration and intervals are those of the window's packets.
pub proof fn law_features_are_statistics_of_window(
    metrics: FlowMetrics,
    key: FlowKey,
    flow: FlowView,
)
    requires
        metrics.describes(key, flow),
    ensures
        metrics.key == key,
        metrics.src_ip == key.ip_min && metrics.src_port == key.port_min,
        metrics.dest_ip == key.ip_max && metrics.dest_port == key.port_max,
        metrics.protocol == key.protocol,
        metrics.packet_count == flow.total_packets,
        metrics.window_len == flow.window.len(),
        flow.window.len() > 0 ==> metrics.sample_count == flow.window.len(),
        flow.window.len() == 0 ==> metrics.sample_count == 1,
        metrics.sum_len == flow.window.fold_left(0int, |acc: int, p: PacketSummary| acc + p.len),
        metrics.sum_len_sq == flow.window.fold_left(
            0int,
            |acc: int, p: PacketSummary| acc + p.len * p.len,
        ),
        metrics.bytes == metrics.sum_len,
        metrics.packets_fwd == flow.window.filter(|p: PacketSummary| p.direction is Forward).len(),
        ({
            let backward = flow.window.filter(|p: PacketSummary| p.direction is Backward).len();
            metrics.bwd_divisor == backward || (backward == 0 && metrics.bwd_divisor == 1)
        }),
        metrics.bwd_divisor > 0,
        metrics.syn_count == flow.window.filter(|p: PacketSummary| p.tcp_flags & 0x02u8 != 0).len(),
        metrics.rst_count == flow.window.filter(|p: PacketSummary| p.tcp_flags & 0x04u8 != 0).len(),
        metrics.fin_count == flow.window.filter(|p: PacketSummary| p.tcp_flags & 0x01u8 != 0).len(),
        metrics.psh_count == flow.window.filter(|p: PacketSummary| p.tcp_flags & 0x08u8 != 0).len(),
        metrics.ack_count == flow.window.filter(|p: PacketSummary| p.tcp_flags & 0x10u8 != 0).len(),
{
    let w = flow.window;
    lemma_directions_partition(w);
    lemma_total_bounds(Measure::BwdPackets, w);
    lemma_total_counts(Measure::FwdPackets, w, |p: PacketSummary| p.direction is Forward);
    lemma_total_counts(Measure::BwdPackets, w, |p: PacketSummary| p.direction is Backward);
    lemma_total_adds_up(Measure::Bytes, w, |acc: int, p: PacketSummary| acc + p.len);
    lemma_total_adds_up(Measure::SquaredBytes, w, |acc: int, p: PacketSummary| acc + p.len * p.len);
    lemma_total_counts(
        Measure::Flag(SYN),
        w,
        |p: PacketSummary| p.tcp_flags & 0x02u8 != 0,
    );
    lemma_total_counts(
        Measure::Flag(RST),
        w,
        |p: PacketSummary| p.tcp_flags & 0x04u8 != 0,
    );
    lemma_total_counts(
        Measure::Flag(FIN),
        w,
        |p: PacketSummary| p.tcp_flags & 0x01u8 != 0,
    );
    lemma_total_counts(
        Measure::Flag(PSH),
        w,
        |p: PacketSummary| p.tcp_flags & 0x08u8 != 0,
    );
    lemma_total_counts(
        Measure::Flag(ACK),
        w,
        |p: PacketSummary| p.tcp_flags & 0x10u8 != 0,
    );
}

/// A flag that no packet of the window carries has count 0, and one that every packet carries
/// has the window's length, for each of the five flag features.
pub proof fn law_flag_features_at_the_extremes(
    metrics: FlowMetrics,
    key: FlowKey,
    flow: FlowView,
    bit: u8,
)
    requires
        metrics.describes(key, flow),
        bit == 0x01 || bit == 0x02 || bit == 0x04 || bit == 0x08 || bit == 0x10,
    ensures
        ({
            let count = if bit == 0x01 {
                metrics.fin_count
            } else if bit == 0x02 {
                metrics.syn_count
            } else if bit == 0x04 {
                metrics.rst_count
            } else if bit == 0x08 {
                metrics.psh_count
            } else {
                metrics.ack_count
            };
            &&& (forall|i: int|
                0 <= i < flow.window.len() ==> (#[trigger] flow.window[i]).tcp_flags & bit == 0)
                ==> count == 0
            &&& (forall|i: int|
                0 <= i < flow.window.len() ==> (#[trigger] flow.window[i]).tcp_flags & bit != 0)
                ==> count == flow.window.len()
        }),
{
    lemma_flag_extremes(flow.window, bit);
}

proof fn lemma_flag_extremes(w: Seq<PacketSummary>, bit: u8)
    ensures
        (forall|i: int| 0 <= i < w.len() ==> (#[trigger] w[i]).tcp_flags & bit == 0) ==> total(
            Measure::Flag(bit),
            w,
        ) == 0,
        (forall|i: int| 0 <= i < w.len() ==> (#[trigger] w[i]).tcp_flags & bit != 0) ==> total(
            Measure::Flag(bit),
            w,
        ) == w.len(),
    decreases w.len(),
{
    if w.len() > 0 {
        lemma_flag_extremes(w.drop_last(), bit);
        assert(forall|i: int| 0 <= i < w.len() - 1 ==> #[trigger] w.drop_last()[i] == w[i]);
        assert(w.last() == w[w.len() - 1]);
    }
}

/// The duration feature is the largest distance in time between two packets of the window, 1
/// where there is none, and the intervals are the steps between neighbours in time order.
pub proof fn law_time_features_follow_timestamps(
    metrics: FlowMetrics,
    key: FlowKey,
    flow: FlowView,
)
    requires
        metrics.describes(key, flow),
    ensures
        forall|i: int, j: int|
            0 <= i < flow.window.len() && 0 <= j < flow.window.len() ==> (
            #[trigger] flow.window[i]).timestamp_ms - (#[trigger] flow.window[j]).timestamp_ms
                <= metrics.duration_ms,
        metrics.duration_ms != 1 ==> exists|i: int, j: int|
            0 <= i < flow.window.len() && 0 <= j < flow.window.len() && (
            #[trigger] flow.window[i]).timestamp_ms - (#[trigger] flow.window[j]).timestamp_ms
                == metrics.duration_ms,
        metrics.duration_ms >= 1,
        exists|s: Seq<u64>|
            {
                &&& #[trigger] s.len() == flow.window.len()
                &&& s.to_multiset() == flow.window.map_values(
                    |p: PacketSummary| p.timestamp_ms,
                ).to_multiset()
                &&& forall|i: int, j: int| 0 <= i <= j < s.len() ==> s[i] <= s[j]
                &&& metrics.intervals@.len() == (if s.len() == 0 {
                    0
                } else {
                    s.len() - 1
                })
                &&& forall|i: int|
                    0 <= i < s.len() - 1 ==> #[trigger] metrics.intervals@[i] == s[i + 1] - s[i]
            },
{
    law_duration_is_largest_distance(flow.window);
    law_intervals_are_steps_in_time_order(flow.window);
    let w = flow.window;
    let s = choose|s: Seq<u64>|
        {
            &&& #[trigger] s.len() == w.len()
            &&& s.to_multiset() == w.map_values(|p: PacketSummary| p.timestamp_ms).to_multiset()
            &&& forall|i: int, j: int| 0 <= i <= j < s.len() ==> s[i] <= s[j]
            &&& intervals(w).len() == (if w.len() == 0 {
                0
            } else {
                w.len() - 1
            })
            &&& forall|i: int| 0 <= i < w.len() - 1 ==> #[trigger] intervals(w)[i] == s[i + 1] - s[i]
        };
    assert(s.len() == w.len());
}

/// A flow state shows its own initiator and packet count, and its window is read off the ring
/// of 128 slots: the `count` slots before `head`, oldest first.
pub proof fn law_window_is_read_off_the_ring(state: FlowState)
    requires
        state.wf(),
    ensures
        state@.initiator_ip == state.initiator_ip,
        state@.total_packets == state.total_packets,
        state@.window.len() == state.count <= 128,
        state.head < 128,
        forall|i: int|
            0 <= i < state.count ==> #[trigger] state@.window[i] == state.buffer@[(state.head + 128
                - state.count + i) % 128],
{
}

/// A flow that takes a packet ends its window with exactly that packet, has counted one packet
/// more and has the same initiator; packets from the initiator are forward, all others
/// backward.
pub proof fn law_flow_takes_packet_as_it_is(flow: FlowView, packet: PacketSummary, src_ip: IpAddr)
    ensures
        flow.updated(packet).window.last() == packet,
        flow.updated(packet).window.len() > 0,
        flow.updated(packet).total_packets == flow.total_packets + 1,
        flow.updated(packet).initiator_ip == flow.initiator_ip,
        flow.window.len() < 128 ==> flow.updated(packet).window.drop_last() == flow.window,
        flow.window.len() >= 128 ==> flow.updated(packet).window.drop_last() == flow.window.skip(1),
        flow.direction_of(src_ip) is Forward <==> src_ip == flow.initiator_ip,
        FlowView::fresh(src_ip).initiator_ip == src_ip,
        FlowView::fresh(src_ip).total_packets == 0,
        FlowView::fresh(src_ip).window.len() == 0,
{
    law_slide_keeps_the_latest(flow.window, packet);
}

/// A flow has room for a packet exactly if its packet count can grow and the squared lengths of
/// the packets that will be in the window then add up to at most 64 bits.
pub proof fn law_room_is_what_the_counters_hold(flow: FlowView, packet: PacketSummary)
    requires
        flow.window.len() <= 128,
    ensures
        flow.has_room_for(packet.len) <==> flow.total_packets < 0xffff_ffff_ffff_ffff && flow.updated(
            packet,
        ).window.fold_left(0int, |acc: int, p: PacketSummary| acc + p.len * p.len)
            <= 0xffff_ffff_ffff_ffff,
{
    let kept = if flow.window.len() >= WINDOW_SIZE {
        flow.window.drop_first()
    } else {
        flow.window
    };
    lemma_total_adds_up(
        Measure::SquaredBytes,
        flow.updated(packet).window,
        |acc: int, p: PacketSummary| acc + p.len * p.len,
    );
    lemma_total_push(Measure::SquaredBytes, kept, packet);
}

/// What one update does: the packet goes into the slot at the write pointer with its own time,
/// length, direction and flags, and every counter grows by what the packet has of it and, once
/// 128 packets are held, shrinks by what the oldest packet had. Flags count each for itself.
pub proof fn law_update_moves_every_counter_by_the_packet(
    state: &mut FlowState,
    timestamp: Timestamp,
    len: u32,
    direction: Direction,
    tcp_flags: Option<u8>,
)
    requires
        old(state).wf(),
        call_ensures(FlowState::update, (state, timestamp, len, direction, tcp_flags), ()),
    ensures
        ({
            let head = old(state).head as int;
            let full = old(state).count == 128;
            let oldest = old(state).buffer@[head];
            let entry = final(state).buffer@[head];
            let flags = match tcp_flags {
                Some(f) => f,
                None => 0u8,
            };
            &&& entry.timestamp_ms == (match timestamp {
                Timestamp::BeforeEpoch => 0int,
                Timestamp::SinceEpoch { secs, nanos } => (secs * 1000 + nanos / 1_000_000)
                    % 0x1_0000_0000_0000_0000,
            })
            &&& entry.len == len && entry.direction == direction && entry.tcp_flags == flags
            &&& forall|i: int|
                0 <= i < 128 && i != head ==> #[trigger] final(state).buffer@[i]
                    == old(state).buffer@[i]
            &&& final(state).head == (head + 1) % 128
            &&& final(state).initiator_ip == old(state).initiator_ip
            &&& final(state).total_packets == old(state).total_packets + 1
            &&& final(state).count == if full {
                128
            } else {
                old(state).count + 1
            }
            &&& final(state).sum_len == old(state).sum_len + len - (if full {
                oldest.len as int
            } else {
                0
            })
            &&& final(state).sum_len_sq == old(state).sum_len_sq + len * len - (if full {
                oldest.len * oldest.len
            } else {
                0
            })
            &&& final(state).packets_fwd == old(state).packets_fwd + (if direction is Forward {
                1int
            } else {
                0
            }) - (if full && oldest.direction is Forward {
                1int
            } else {
                0
            })
            &&& final(state).bytes_fwd == old(state).bytes_fwd + (if direction is Forward {
                len as int
            } else {
                0
            }) - (if full && oldest.direction is Forward {
                oldest.len as int
            } else {
                0
            })
            &&& final(state).packets_bwd == old(state).packets_bwd + (if direction is Backward {
                1int
            } else {
                0
            }) - (if full && oldest.direction is Backward {
                1int
            } else {
                0
            })
            &&& final(state).bytes_bwd == old(state).bytes_bwd + (if direction is Backward {
                len as int
            } else {
                0
            }) - (if full && oldest.direction is Backward {
                oldest.len as int
            } else {
                0
            })
            &&& final(state).syn_count == old(state).syn_count + (if flags & 0x02u8 != 0 {
                1int
            } else {
                0
            }) - (if full && oldest.tcp_flags & 0x02u8 != 0 {
                1int
            } else {
                0
            })
            &&& final(state).rst_count == old(state).rst_count + (if flags & 0x04u8 != 0 {
                1int
            } else {
                0
            }) - (if full && oldest.tcp_flags & 0x04u8 != 0 {
                1int
            } else {
                0
            })
            &&& final(state).fin_count == old(state).fin_count + (if flags & 0x01u8 != 0 {
                1int
            } else {
                0
            }) - (if full && oldest.tcp_flags & 0x01u8 != 0 {
                1int
            } else {
                0
            })
            &&& final(state).psh_count == old(state).psh_count + (if flags & 0x08u8 != 0 {
                1int
            } else {
                0
            }) - (if full && oldest.tcp_flags & 0x08u8 != 0 {
                1int
            } else {
                0
            })
            &&& final(state).ack_count == old(state).ack_count + (if flags & 0x10u8 != 0 {
                1int
            } else {
                0
            }) - (if full && oldest.tcp_flags & 0x10u8 != 0 {
                1int
            } else {
                0
            })
        }),
{
    let p = summarize(timestamp, len, direction, tcp_flags);
    let w = old(state).window();
    assert(final(state).window() == slide(w, p));
    assert(final(state).window().len() == final(state).count);
    if w.len() == 128 {
        assert(w[0] == old(state).buffer@[old(state).head as int]);
        lemma_first_leaves(w);
        lemma_packet_joins(w.drop_first(), p);
    } else {
        lemma_packet_joins(w, p);
    }
}

/// The features hand on the flow's own counters, each under its own name.
pub proof fn law_features_hand_on_the_counters(state: FlowState, key: FlowKey, metrics: FlowMetrics)
    requires
        state.wf(),
        call_ensures(FlowState::compute_metrics, (&state, key), metrics),
    ensures
        metrics.key == key,
        metrics.packet_count == state.total_packets,
        metrics.window_len == state.count,
        metrics.sum_len == state.sum_len,
        metrics.sum_len_sq == state.sum_len_sq,
        metrics.bytes == state.bytes_fwd + state.bytes_bwd,
        metrics.packets_fwd == state.packets_fwd,
        state.packets_bwd > 0 ==> metrics.bwd_divisor == state.packets_bwd,
        metrics.syn_count == state.syn_count,
        metrics.rst_count == state.rst_count,
        metrics.fin_count == state.fin_count,
        metrics.psh_count == state.psh_count,
        metrics.ack_count == state.ack_count,
        metrics.describes(key, state@),
{
}

/// A new flow and a recycled one have counted nothing.
pub proof fn law_flows_start_from_zero(
    initiator_ip: IpAddr,
    made: FlowState,
    recycled: &mut FlowState,
)
    requires
        call_ensures(FlowState::new, (initiator_ip,), made),
        call_ensures(FlowState::reset, (recycled, initiator_ip), ()),
    ensures
        made.initiator_ip == initiator_ip && final(recycled).initiator_ip == initiator_ip,
        made.total_packets == 0 && final(recycled).total_packets == 0,
        made.count == 0 && final(recycled).count == 0,
        made.head == 0 && final(recycled).head == 0,
        made.sum_len == 0 && final(recycled).sum_len == 0,
        made.sum_len_sq == 0 && final(recycled).sum_len_sq == 0,
        made.packets_fwd == 0 && final(recycled).packets_fwd == 0,
        made.packets_bwd == 0 && final(recycled).packets_bwd == 0,
        made.bytes_fwd == 0 && final(recycled).bytes_fwd == 0,
        made.bytes_bwd == 0 && final(recycled).bytes_bwd == 0,
        made.syn_count == 0 && final(recycled).syn_count == 0,
        made.rst_count == 0 && final(recycled).rst_count == 0,
        made.fin_count == 0 && final(recycled).fin_count == 0,
        made.psh_count == 0 && final(recycled).psh_count == 0,
        made.ack_count == 0 && final(recycled).ack_count == 0,
{
    assert(made@.window.len() == made.count);
    assert(final(recycled)@.window.len() == final(recycled).count);
}

} // verus!
