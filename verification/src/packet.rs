//! Packets, their directions, and the symmetric keys that tie both directions of a
//! conversation to one flow.

use vstd::prelude::*;
use crate::addr::{AddrId, IpAddr};
use crate::time::Timestamp;

verus! {

/// Direction of a packet in a flow relative to the flow initiator.
#[derive(Debug, Clone, Copy, PartialEq, Eq, Structural)]
pub enum Direction {
    Forward,
    Backward,
}

/// A flow key as a tuple of integers.
pub type FlowId = (AddrId, AddrId, u16, u16, u8);

/// Bidirectional 5-tuple identifying a network flow.
/// The fields are ordered symmetrically to ensure that traffic from A -> B and B -> A
/// maps to the same FlowKey.
#[derive(Debug, Clone, Copy, PartialEq, Eq, Hash, Structural)]
pub struct FlowKey {
    pub ip_min: IpAddr,
    pub ip_max: IpAddr,
    pub port_min: u16,
    pub port_max: u16,
    pub protocol: u8,
}

/// Endpoint (`ip_a`, `port_a`) sorts before or together with endpoint (`ip_b`, `port_b`):
/// by address first, by port among equal addresses.
pub open spec fn endpoint_le(ip_a: IpAddr, port_a: u16, ip_b: IpAddr, port_b: u16) -> bool {
    ip_a.before(ip_b) || (ip_a == ip_b && port_a <= port_b)
}

/// The key of a conversation between two endpoints: the lesser endpoint first.
pub open spec fn symmetric_key(
    src_ip: IpAddr,
    src_port: u16,
    dest_ip: IpAddr,
    dest_port: u16,
    protocol: u8,
) -> FlowKey {
    if endpoint_le(src_ip, src_port, dest_ip, dest_port) {
        FlowKey { ip_min: src_ip, ip_max: dest_ip, port_min: src_port, port_max: dest_port, protocol }
    } else {
        FlowKey { ip_min: dest_ip, ip_max: src_ip, port_min: dest_port, port_max: src_port, protocol }
    }
}

impl FlowKey {
    /// Creates a new symmetric FlowKey from packet properties.
    pub fn new(
        src_ip: IpAddr,
        src_port: u16,
        dest_ip: IpAddr,
        dest_port: u16,
        protocol: u8,
    ) -> (r: FlowKey)
        ensures
            r == symmetric_key(src_ip, src_port, dest_ip, dest_port, protocol),
    {
        let (ip_min, port_min, ip_max, port_max) = if src_ip.is_before(&dest_ip) {
            (src_ip, src_port, dest_ip, dest_port)
        } else if dest_ip.is_before(&src_ip) {
            (dest_ip, dest_port, src_ip, src_port)
        } else if src_port <= dest_port {
            (src_ip, src_port, dest_ip, dest_port)
        } else {
            (dest_ip, dest_port, src_ip, src_port)
        };
        FlowKey { ip_min, ip_max, port_min, port_max, protocol }
    }

    pub open spec fn spec_id(self) -> FlowId {
        (self.ip_min.spec_id(), self.ip_max.spec_id(), self.port_min, self.port_max, self.protocol)
    }

    /// The key as a tuple of integers; different keys have different tuples.
    pub fn id(&self) -> (r: FlowId)
        ensures
            r == self.spec_id(),
    {
        (self.ip_min.id(), self.ip_max.id(), self.port_min, self.port_max, self.protocol)
    }
}

/// A parsed packet event sent from the Ingestion Engine (Producer) to the Aggregators.
#[derive(Debug, Clone, Copy, PartialEq, Eq, Structural)]
pub struct PacketEvent {
    pub timestamp: Timestamp,
    pub len: u32,
    pub src_ip: IpAddr,
    pub dest_ip: IpAddr,
    pub src_port: u16,
    pub dest_port: u16,
    pub protocol: u8,
    pub tcp_flags: Option<u8>,
}

impl PacketEvent {
    pub open spec fn spec_flow_key(self) -> FlowKey {
        symmetric_key(self.src_ip, self.src_port, self.dest_ip, self.dest_port, self.protocol)
    }

    /// The same packet travelling the other way: source and destination change places.
    pub open spec fn reversed(self) -> PacketEvent {
        PacketEvent {
            src_ip: self.dest_ip,
            dest_ip: self.src_ip,
            src_port: self.dest_port,
            dest_port: self.src_port,
            ..self
        }
    }

    /// What the sliding window keeps of this packet when it travels in `direction`.
    pub open spec fn summary(self, direction: Direction) -> PacketSummary {
        summarize(self.timestamp, self.len, direction, self.tcp_flags)
    }

    /// Helper to get the FlowKey for this packet.
    pub fn flow_key(&self) -> (r: FlowKey)
        ensures
            r == self.spec_flow_key(),
    {
        FlowKey::new(self.src_ip, self.src_port, self.dest_ip, self.dest_port, self.protocol)
    }
}

/// Summary of a single packet inside a flow's sliding window.
#[derive(Debug, Clone, Copy, PartialEq, Eq, Structural)]
pub struct PacketSummary {
    pub timestamp_ms: u64,
    pub len: u32,
    pub direction: Direction,
    pub tcp_flags: u8,
}

impl Default for PacketSummary {
    fn default() -> (r: PacketSummary)
        ensures
            r == (PacketSummary {
                timestamp_ms: 0,
                len: 0,
                direction: Direction::Forward,
                tcp_flags: 0,
            }),
    {
        PacketSummary { timestamp_ms: 0, len: 0, direction: Direction::Forward, tcp_flags: 0 }
    }
}

/// The window entry for a packet: its time in milliseconds, and no flags where it has none.
pub open spec fn summarize(
    timestamp: Timestamp,
    len: u32,
    direction: Direction,
    tcp_flags: Option<u8>,
) -> PacketSummary {
    PacketSummary {
        timestamp_ms: timestamp.spec_millis(),
        len,
        direction,
        tcp_flags: match tcp_flags {
            Some(flags) => flags,
            None => 0,
        },
    }
}

/// Missing TCP flags count as none set, and a time before the epoch counts as the epoch.
pub proof fn law_missing_flags_and_time_count_as_zero(len: u32, direction: Direction)
    ensures
        summarize(Timestamp::BeforeEpoch, len, direction, None) == summarize(
            Timestamp::SinceEpoch { secs: 0, nanos: 0 },
            len,
            direction,
            Some(0),
        ),
{
}

/// Traffic from A to B and traffic from B to A has the same flow key.
pub proof fn law_flow_key_is_symmetric(
    src_ip: IpAddr,
    src_port: u16,
    dest_ip: IpAddr,
    dest_port: u16,
    protocol: u8,
)
    ensures
        symmetric_key(src_ip, src_port, dest_ip, dest_port, protocol)
            == symmetric_key(dest_ip, dest_port, src_ip, src_port, protocol),
{
}

/// A packet and the same packet travelling the other way belong to the same flow.
pub proof fn law_reversed_packet_has_same_key(event: PacketEvent)
    ensures
        event.reversed().spec_flow_key() == event.spec_flow_key(),
{
}

/// Two conversations with the same key have the same protocol and the same two endpoints,
/// in one order or the other.
pub proof fn law_flow_key_identifies_conversation(a: PacketEvent, b: PacketEvent)
    requires
        a.spec_flow_key() == b.spec_flow_key(),
    ensures
        a.protocol == b.protocol,
        ({
            ||| a.src_ip == b.src_ip && a.src_port == b.src_port && a.dest_ip == b.dest_ip
                && a.dest_port == b.dest_port
            ||| a.src_ip == b.dest_ip && a.src_port == b.dest_port && a.dest_ip == b.src_ip
                && a.dest_port == b.src_port
        }),
{
}

/// In every flow key the lesser endpoint stands first.
pub proof fn law_flow_key_is_ordered(event: PacketEvent)
    ensures
        ({
            let key = event.spec_flow_key();
            endpoint_le(key.ip_min, key.port_min, key.ip_max, key.port_max)
        }),
{
}

/// Two keys with the same integer tuple are the same key.
pub proof fn law_flow_id_is_injective(a: FlowKey, b: FlowKey)
    requires
        a.spec_id() == b.spec_id(),
    ensures
        a == b,
{
}

/// A flow key holds exactly the two endpoints of the packet, each address with its own port,
/// and the packet's protocol; the lesser endpoint stands first, by address and then by port.
pub proof fn law_flow_key_holds_the_endpoints(event: PacketEvent)
    ensures
        ({
            let key = event.spec_flow_key();
            &&& key.protocol == event.protocol
            &&& {
                ||| key.ip_min == event.src_ip && key.port_min == event.src_port && key.ip_max
                    == event.dest_ip && key.port_max == event.dest_port
                ||| key.ip_min == event.dest_ip && key.port_min == event.dest_port && key.ip_max
                    == event.src_ip && key.port_max == event.src_port
            }
            &&& key.ip_min.before(key.ip_max) || (key.ip_min == key.ip_max && key.port_min
                <= key.port_max)
        }),
{
}

/// A key built from endpoints is the key of the packet between them.
pub proof fn law_key_of_endpoints_holds_them(
    src_ip: IpAddr,
    src_port: u16,
    dest_ip: IpAddr,
    dest_port: u16,
    protocol: u8,
    key: FlowKey,
)
    requires
        call_ensures(FlowKey::new, (src_ip, src_port, dest_ip, dest_port, protocol), key),
    ensures
        key.protocol == protocol,
        ({
            ||| key.ip_min == src_ip && key.port_min == src_port && key.ip_max == dest_ip
                && key.port_max == dest_port
            ||| key.ip_min == dest_ip && key.port_min == dest_port && key.ip_max == src_ip
                && key.port_max == src_port
        }),
        key.ip_min.before(key.ip_max) || (key.ip_min == key.ip_max && key.port_min <= key.port_max),
{
}

/// The integers of a flow key are those of its addresses, its ports and its protocol.
pub proof fn law_flow_id_holds_the_fields(key: FlowKey)
    ensures
        key.spec_id().0 == key.ip_min.spec_id(),
        key.spec_id().1 == key.ip_max.spec_id(),
        key.spec_id().2 == key.port_min,
        key.spec_id().3 == key.port_max,
        key.spec_id().4 == key.protocol,
{
}

/// The window keeps of a packet its own time in whole milliseconds, its own length, direction
/// and flags.
pub proof fn law_summary_carries_the_packet(event: PacketEvent, direction: Direction)
    ensures
        ({
            let summary = event.summary(direction);
            &&& summary.timestamp_ms == (match event.timestamp {
                Timestamp::BeforeEpoch => 0int,
                Timestamp::SinceEpoch { secs, nanos } => (secs * 1000 + nanos / 1_000_000)
                    % 0x1_0000_0000_0000_0000,
            })
            &&& summary.len == event.len
            &&& summary.direction == direction
            &&& event.tcp_flags matches Some(flags) ==> summary.tcp_flags == flags
            &&& event.tcp_flags is None ==> summary.tcp_flags == 0
            &&& summary == summarize(event.timestamp, event.len, direction, event.tcp_flags)
        }),
{
}

/// A packet travelling the other way differs only in that its endpoints change places.
pub proof fn law_reversal_swaps_endpoints(event: PacketEvent)
    ensures
        event.reversed().src_ip == event.dest_ip && event.reversed().src_port == event.dest_port,
        event.reversed().dest_ip == event.src_ip && event.reversed().dest_port == event.src_port,
        event.reversed().protocol == event.protocol,
        event.reversed().reversed() == event,
{
}

/// Both directions of a conversation ask for the same key, and it holds the endpoints.
pub proof fn law_flow_key_serves_both_directions(
    event: PacketEvent,
    reply: PacketEvent,
    a: FlowKey,
    b: FlowKey,
)
    requires
        call_ensures(PacketEvent::flow_key, (&event,), a),
        call_ensures(PacketEvent::flow_key, (&reply,), b),
        reply.src_ip == event.dest_ip && reply.src_port == event.dest_port,
        reply.dest_ip == event.src_ip && reply.dest_port == event.src_port,
        reply.protocol == event.protocol,
    ensures
        a == b,
        a == event.spec_flow_key(),
        a.protocol == event.protocol,
{
}

} // verus!
