//! Where packets come from: parsing of captured frames and synthetic traffic.

use vstd::prelude::*;
use etherparse::InternetSlice::{Ipv4, Ipv6};
use etherparse::SlicedPacket;
use etherparse::TransportSlice::{Tcp, Udp};
use self::NetworkHeader::{Absent, V4, V6};
use self::TransportHeader::{Datagram, Other, Stream};
use crate::addr::{be_value, law_octets_are_digits_of_value, IpAddr};
use crate::packet::{Direction, PacketEvent};
use crate::time::Timestamp;
use crate::window::{measure, Measure, ACK, FIN, PSH, RST, SYN, URG};
use vstd::arithmetic::power::pow;

verus! {

/// The IP header of a frame: source octets, destination octets, and the protocol number.
#[derive(Debug, Clone, Copy)]
pub enum NetworkHeader {
    Absent,
    V4([u8; 4], [u8; 4], u8),
    V6([u8; 16], [u8; 16], u8),
}

/// The transport header of a frame: source port, destination port, and for TCP the flags
/// fin, syn, rst, psh, ack and urg.
#[derive(Debug, Clone, Copy)]
pub enum TransportHeader {
    Other,
    Datagram(u16, u16),
    Stream(u16, u16, [bool; 6]),
}

/// What the event of a packet is made of.
#[derive(Debug, Clone, Copy)]
pub struct PacketHeaders {
    pub network: NetworkHeader,
    pub transport: TransportHeader,
}

/// The headers that `etherparse` finds in an Ethernet frame, if it can slice the frame.
pub uninterp spec fn ethernet_headers(frame: Seq<u8>) -> Option<PacketHeaders>;

/// `etherparse::SlicedPacket::from_ethernet`, with the header fields copied out of the
/// slices. The contract claims that the result depends on the bytes of the frame alone.
#[verifier::external_body]
fn slice_ethernet(frame: &[u8]) -> (r: Option<PacketHeaders>)
    ensures
        r == ethernet_headers(frame@),
{
    let s = SlicedPacket::from_ethernet(frame).ok()?;
    let network = match s.ip {
        Some(Ipv4(h, _)) => V4(h.source(), h.destination(), h.protocol()),
        Some(Ipv6(h, _)) => V6(h.source(), h.destination(), h.next_header()),
        None => Absent,
    };
    let transport = match s.transport {
        Some(Tcp(t)) => Stream(t.source_port(), t.destination_port(),
            [t.fin(), t.syn(), t.rst(), t.psh(), t.ack(), t.urg()]),
        Some(Udp(u)) => Datagram(u.source_port(), u.destination_port()),
        _ => Other,
    };
    Some(PacketHeaders { network, transport })
}

/// TCP flags as a bit set: fin is bit 0, then syn, rst, psh, ack and urg.
pub open spec fn flag_bits(flags: Seq<bool>) -> int {
    (if flags[0] { 1int } else { 0 }) + (if flags[1] { 2int } else { 0 }) + (if flags[2] {
        4int
    } else {
        0
    }) + (if flags[3] { 8int } else { 0 }) + (if flags[4] { 16int } else { 0 }) + (if flags[5] {
        32int
    } else {
        0
    })
}

/// The addresses and the protocol number that an IP header gives.
pub open spec fn network_fields(network: NetworkHeader) -> Option<(IpAddr, IpAddr, u8)> {
    match network {
        NetworkHeader::Absent => None,
        NetworkHeader::V4(src, dest, protocol) => Some(
            (
                IpAddr::V4(be_value(src@) as u32),
                IpAddr::V4(be_value(dest@) as u32),
                protocol,
            ),
        ),
        NetworkHeader::V6(src, dest, protocol) => Some(
            (
                IpAddr::V6(be_value(src@) as u128),
                IpAddr::V6(be_value(dest@) as u128),
                protocol,
            ),
        ),
    }
}

/// The ports and the TCP flags that a transport header gives; ports are 0 and there are no
/// flags where the transport protocol has none.
pub open spec fn transport_fields(transport: TransportHeader) -> (u16, u16, Option<u8>) {
    match transport {
        TransportHeader::Other => (0, 0, None),
        TransportHeader::Datagram(src, dest) => (src, dest, None),
        TransportHeader::Stream(src, dest, flags) => (src, dest, Some(flag_bits(flags@) as u8)),
    }
}

/// The event of a frame of `len` bytes with the given headers: none without an IP header.
pub open spec fn headers_event(
    headers: PacketHeaders,
    len: nat,
    timestamp: Timestamp,
) -> Option<PacketEvent> {
    match network_fields(headers.network) {
        None => None,
        Some((src_ip, dest_ip, protocol)) => {
            let (src_port, dest_port, tcp_flags) = transport_fields(headers.transport);
            Some(
                PacketEvent {
                    timestamp,
                    len: (len % 0x1_0000_0000) as u32,
                    src_ip,
                    dest_ip,
                    src_port,
                    dest_port,
                    protocol,
                    tcp_flags,
                },
            )
        },
    }
}

/// Packs TCP flags into a bit set.
pub fn pack_flags(flags: [bool; 6]) -> (r: u8)
    ensures
        r == flag_bits(flags@),
{
    let mut bits: u8 = 0;
    if flags[0] {
        bits = bits | FIN;
    }
    assert(0u8 | 0x01 == 1) by (bit_vector);
    let ghost b1 = bits;
    if flags[1] {
        bits = bits | SYN;
    }
    assert(b1 < 2 ==> (b1 | 0x02) == b1 + 2) by (bit_vector);
    let ghost b2 = bits;
    if flags[2] {
        bits = bits | RST;
    }
    assert(b2 < 4 ==> (b2 | 0x04) == b2 + 4) by (bit_vector);
    let ghost b3 = bits;
    if flags[3] {
        bits = bits | PSH;
    }
    assert(b3 < 8 ==> (b3 | 0x08) == b3 + 8) by (bit_vector);
    let ghost b4 = bits;
    if flags[4] {
        bits = bits | ACK;
    }
    assert(b4 < 16 ==> (b4 | 0x10) == b4 + 16) by (bit_vector);
    let ghost b5 = bits;
    if flags[5] {
        bits = bits | URG;
    }
    assert(b5 < 32 ==> (b5 | 0x20) == b5 + 32) by (bit_vector);
    bits
}

/// Makes the event of a frame of `len` bytes from its headers.
pub fn event_from_headers(headers: PacketHeaders, len: usize, timestamp: Timestamp) -> (r: Option<
    PacketEvent,
>)
    ensures
        r == headers_event(headers, len as nat, timestamp),
{
    let (src_ip, dest_ip, protocol) = match headers.network {
        NetworkHeader::Absent => {
            return None;
        },
        NetworkHeader::V4(src, dest, protocol) => (
            IpAddr::from_v4_octets(src),
            IpAddr::from_v4_octets(dest),
            protocol,
        ),
        NetworkHeader::V6(src, dest, protocol) => (
            IpAddr::from_v6_octets(src),
            IpAddr::from_v6_octets(dest),
            protocol,
        ),
    };
    let (src_port, dest_port, tcp_flags) = match headers.transport {
        TransportHeader::Other => (0u16, 0u16, None),
        TransportHeader::Datagram(src, dest) => (src, dest, None),
        TransportHeader::Stream(src, dest, flags) => (src, dest, Some(pack_flags(flags))),
    };
    Some(
        PacketEvent {
            timestamp,
            len: (len as u64 % 0x1_0000_0000) as u32,
            src_ip,
            dest_ip,
            src_port,
            dest_port,
            protocol,
            tcp_flags,
        },
    )
}

/// Network packet parser.
/// Parses the ethernet, IP, and TCP/UDP/ICMP headers from raw bytes and
/// extracts a stateless `PacketEvent`.
pub fn parse_packet(packet_data: &[u8], timestamp: Timestamp) -> (r: Option<PacketEvent>)
    ensures
        r == (match ethernet_headers(packet_data@) {
            Some(headers) => headers_event(headers, packet_data@.len(), timestamp),
            None => None,
        }),
{
    match slice_ethernet(packet_data) {
        Some(headers) => event_from_headers(headers, packet_data.len(), timestamp),
        None => None,
    }
}

/// The layouts of capture files.
#[derive(Debug, Clone, Copy, PartialEq, Eq, Structural)]
pub enum CaptureFormat {
    Pcap,
    PcapNg,
}

/// The layout of a capture file that begins with `head`: PCAPNG files begin with the type of
/// a section header block, 0A 0D 0D 0A; everything else is read as classic PCAP.
pub fn capture_format(head: &[u8]) -> (r: CaptureFormat)
    ensures
        r is PcapNg <==> (head@.len() >= 4 && head@.take(4) == seq![0x0au8, 0x0d, 0x0d, 0x0a]),
{
    let is_section = head.len() >= 4 && head[0] == 0x0a && head[1] == 0x0d && head[2] == 0x0d
        && head[3] == 0x0a;
    proof {
        let magic = seq![0x0au8, 0x0d, 0x0d, 0x0a];
        if is_section {
            assert(head@.take(4) =~= magic);
        } else if head@.len() >= 4 && head@.take(4) == magic {
            assert(head@[0] == magic[0] && head@[1] == magic[1] && head@[2] == magic[2] && head@[3]
                == magic[3]) by {
                assert(forall|i: int| 0 <= i < 4 ==> head@.take(4)[i] == head@[i]);
            }
        }
    }
    if is_section {
        CaptureFormat::PcapNg
    } else {
        CaptureFormat::Pcap
    }
}

/// The first source address of synthetic traffic, 10.0.0.0.
pub const MOCK_BASE_IP: u32 = 0x0A00_0000;

/// How far above the first source address the first destination address lies.
pub const MOCK_DEST_OFFSET: u32 = 1000;

/// The synthetic packet number `count` among `num_ips` addresses: sources and destinations
/// run through all pairs, TCP and UDP alternate.
pub open spec fn spec_mock_event(count: u64, num_ips: u32, now: Timestamp) -> PacketEvent {
    let tcp = count % 2 == 0;
    let ephemeral = (1024 + count % 50000) as u16;
    PacketEvent {
        timestamp: now,
        len: (64 + count % 1400) as u32,
        src_ip: IpAddr::V4((MOCK_BASE_IP + count % (num_ips as u64)) as u32),
        dest_ip: IpAddr::V4(
            (MOCK_BASE_IP + (count / (num_ips as u64)) % (num_ips as u64) + MOCK_DEST_OFFSET) as u32,
        ),
        src_port: if tcp { ephemeral } else { 53 },
        dest_port: if !tcp {
            ephemeral
        } else if count % 3 == 0 {
            80
        } else {
            443
        },
        protocol: if tcp { 6 } else { 17 },
        tcp_flags: if !tcp {
            None
        } else if count % 10 == 0 {
            Some(SYN)
        } else {
            Some(ACK)
        },
    }
}

/// The addresses of synthetic packet number `count` fit in 32 bits.
pub open spec fn mock_in_range(count: u64, num_ips: u32) -> bool {
    &&& num_ips > 0
    &&& MOCK_BASE_IP + count % (num_ips as u64) <= u32::MAX
    &&& MOCK_BASE_IP + (count / (num_ips as u64)) % (num_ips as u64) + MOCK_DEST_OFFSET <= u32::MAX
}

/// Whether the addresses of synthetic packet number `count` fit in 32 bits.
pub fn mock_fits(count: u64, num_ips: u32) -> (r: bool)
    ensures
        r == mock_in_range(count, num_ips),
{
    if num_ips == 0 {
        return false;
    }
    let src_offset: u64 = count % (num_ips as u64);
    let dest_offset: u64 = (count / (num_ips as u64)) % (num_ips as u64);
    MOCK_BASE_IP as u64 + src_offset <= u32::MAX as u64 && MOCK_BASE_IP as u64 + dest_offset
        + MOCK_DEST_OFFSET as u64 <= u32::MAX as u64
}

/// Generates synthetic packet number `count`, deterministically from its number.
pub fn mock_event(count: u64, num_ips: u32, now: Timestamp) -> (r: PacketEvent)
    requires
        mock_in_range(count, num_ips),
    ensures
        r == spec_mock_event(count, num_ips, now),
{
    let src_offset: u32 = (count % (num_ips as u64)) as u32;
    let dest_offset: u32 = ((count / (num_ips as u64)) % (num_ips as u64)) as u32;
    let ephemeral: u16 = (1024 + (count % 50000)) as u16;
    let protocol: u8 = if count % 2 == 0 {
        6
    } else {
        17
    };
    let (src_port, dest_port, tcp_flags) = if protocol == 6 {
        let dest_port: u16 = if count % 3 == 0 {
            80
        } else {
            443
        };
        let flags = if count % 10 == 0 {
            Some(SYN)
        } else {
            Some(ACK)
        };
        (ephemeral, dest_port, flags)
    } else {
        (53u16, ephemeral, None)
    };
    PacketEvent {
        timestamp: now,
        len: 64 + (count % 1400) as u32,
        src_ip: IpAddr::V4(MOCK_BASE_IP + src_offset),
        dest_ip: IpAddr::V4(MOCK_BASE_IP + dest_offset + MOCK_DEST_OFFSET),
        src_port,
        dest_port,
        protocol,
        tcp_flags,
    }
}

/// How synthetic traffic keeps to a rate: packets per batch, and the pause after a batch.
#[derive(Debug, Clone, Copy, PartialEq, Eq, Structural)]
pub struct Pacing {
    pub batch_size: u64,
    pub sleep_nanos: u64,
}

/// Paces `packets_per_sec` packets per second: above ten thousand they go out in batches of
/// a thousand, and the pause after each batch is the time that its packets take up.
pub fn mock_pacing(packets_per_sec: u64) -> (r: Pacing)
    requires
        packets_per_sec > 0,
    ensures
        r.batch_size == if packets_per_sec > 10_000 {
            1000int
        } else {
            1int
        },
        r.sleep_nanos == (1_000_000_000 * r.batch_size) / (packets_per_sec as int),
{
    let batch_size: u64 = if packets_per_sec > 10_000 {
        1000
    } else {
        1
    };
    Pacing { batch_size, sleep_nanos: (1_000_000_000 * batch_size) / packets_per_sec }
}

/// Each TCP flag can be read back from the packed bits.
pub proof fn law_packed_flags_read_back(flags: Seq<bool>, bits: u8)
    requires
        flags.len() == 6,
        bits == flag_bits(flags),
    ensures
        (bits & FIN != 0) == flags[0],
        (bits & SYN != 0) == flags[1],
        (bits & RST != 0) == flags[2],
        (bits & PSH != 0) == flags[3],
        (bits & ACK != 0) == flags[4],
        (bits & URG != 0) == flags[5],
{
    let (f, s, r, p, a, u) = (flags[0], flags[1], flags[2], flags[3], flags[4], flags[5]);
    assert({
        &&& (bits & 0x01 != 0) == f
        &&& (bits & 0x02 != 0) == s
        &&& (bits & 0x04 != 0) == r
        &&& (bits & 0x08 != 0) == p
        &&& (bits & 0x10 != 0) == a
        &&& (bits & 0x20 != 0) == u
    }) by (bit_vector)
        requires
            bits == (if f { 1u8 } else { 0u8 }) + (if s { 2u8 } else { 0u8 }) + (if r {
                4u8
            } else {
                0u8
            }) + (if p { 8u8 } else { 0u8 }) + (if a { 16u8 } else { 0u8 }) + (if u {
                32u8
            } else {
                0u8
            }),
    ;
}

/// A frame gives an event exactly if its headers hold an IP header; ports and flags do not
/// matter for that.
pub proof fn law_event_needs_ip_header(headers: PacketHeaders, len: nat, timestamp: Timestamp)
    ensures
        headers_event(headers, len, timestamp) is Some <==> !(headers.network is Absent),
{
}

/// The pause after a batch is the time that the batch takes at the nominal rate, rounded down
/// to a nanosecond.
pub proof fn law_pacing_keeps_rate(packets_per_sec: u64, pacing: Pacing)
    requires
        packets_per_sec > 0,
        pacing.sleep_nanos == (1_000_000_000 * pacing.batch_size) / (packets_per_sec as int),
    ensures
        pacing.sleep_nanos * packets_per_sec <= 1_000_000_000 * pacing.batch_size,
        1_000_000_000 * pacing.batch_size < (pacing.sleep_nanos + 1) * packets_per_sec,
{
    let a = 1_000_000_000 * pacing.batch_size;
    let b = packets_per_sec as int;
    vstd::arithmetic::div_mod::lemma_fundamental_div_mod(a, b);
    vstd::arithmetic::div_mod::lemma_mod_bound(a, b);
    assert(pacing.sleep_nanos * packets_per_sec == b * (a / b)) by (nonlinear_arith)
        requires
            pacing.sleep_nanos == a / b,
            b == packets_per_sec,
    ;
    assert((pacing.sleep_nanos + 1) * packets_per_sec == b * (a / b) + b) by (nonlinear_arith)
        requires
            pacing.sleep_nanos == a / b,
            b == packets_per_sec,
    ;
}

/// Synthetic packets up to number `num_ips * num_ips` have pairwise different address pairs.
pub proof fn law_mock_pairs_are_distinct(a: u64, b: u64, num_ips: u32, now: Timestamp)
    requires
        mock_in_range(a, num_ips),
        mock_in_range(b, num_ips),
        a < num_ips * num_ips,
        b < num_ips * num_ips,
        spec_mock_event(a, num_ips, now).src_ip == spec_mock_event(b, num_ips, now).src_ip,
        spec_mock_event(a, num_ips, now).dest_ip == spec_mock_event(b, num_ips, now).dest_ip,
    ensures
        a == b,
{
    let n = num_ips as int;
    let (x, y) = (a as int, b as int);
    assert(x / n < n && y / n < n) by (nonlinear_arith)
        requires
            0 <= x < n * n,
            0 <= y < n * n,
            n > 0,
    ;
    assert(0 <= x / n && 0 <= y / n) by (nonlinear_arith)
        requires
            0 <= x,
            0 <= y,
            n > 0,
    ;
    vstd::arithmetic::div_mod::lemma_small_mod((x / n) as nat, n as nat);
    vstd::arithmetic::div_mod::lemma_small_mod((y / n) as nat, n as nat);
    vstd::arithmetic::div_mod::lemma_fundamental_div_mod(x, n);
    vstd::arithmetic::div_mod::lemma_fundamental_div_mod(y, n);
}

/// An event carries what its frame says: the capture time, the number of bytes of the frame,
/// the addresses octet by octet and the protocol of the IP header of either version, the ports
/// of the TCP or UDP header, and each TCP flag in its own bit. Other protocols have neither
/// ports nor flags.
pub proof fn law_event_carries_the_frame(
    headers: PacketHeaders,
    len: nat,
    timestamp: Timestamp,
    event: PacketEvent,
)
    requires
        headers_event(headers, len, timestamp) == Some(event),
    ensures
        event.timestamp == timestamp,
        len <= 0xffff_ffff ==> event.len == len,
        (len - event.len) % 0x1_0000_0000 == 0,
        headers.network matches NetworkHeader::V4(src, dest, protocol) ==> {
            &&& event.src_ip matches IpAddr::V4(a) && a == src@[0] * 0x100_0000 + src@[1] * 0x1_0000
                + src@[2] * 0x100 + src@[3]
            &&& event.dest_ip matches IpAddr::V4(b) && b == dest@[0] * 0x100_0000 + dest@[1]
                * 0x1_0000 + dest@[2] * 0x100 + dest@[3]
            &&& event.protocol == protocol
        },
        headers.network matches NetworkHeader::V6(src, dest, protocol) ==> {
            &&& event.src_ip matches IpAddr::V6(a) && forall|i: int|
                0 <= i < 16 ==> (a as int / pow(256, (15 - i) as nat)) % 256 == #[trigger] src@[i]
            &&& event.dest_ip matches IpAddr::V6(b) && forall|i: int|
                0 <= i < 16 ==> (b as int / pow(256, (15 - i) as nat)) % 256 == #[trigger] dest@[i]
            &&& event.protocol == protocol
        },
        headers.transport matches TransportHeader::Stream(src, dest, flags) ==> {
            &&& event.src_port == src && event.dest_port == dest
            &&& event.tcp_flags matches Some(bits) && bits == (if flags@[0] {
                0x01int
            } else {
                0
            }) + (if flags@[1] {
                0x02int
            } else {
                0
            }) + (if flags@[2] {
                0x04int
            } else {
                0
            }) + (if flags@[3] {
                0x08int
            } else {
                0
            }) + (if flags@[4] {
                0x10int
            } else {
                0
            }) + (if flags@[5] {
                0x20int
            } else {
                0
            })
        },
        headers.transport matches TransportHeader::Datagram(src, dest) ==> event.src_port == src
            && event.dest_port == dest && event.tcp_flags is None,
        headers.transport is Other ==> event.src_port == 0 && event.dest_port == 0
            && event.tcp_flags is None,
{
    match headers.network {
        NetworkHeader::V4(src, dest, protocol) => {
            lemma_four_octets(src@);
            lemma_four_octets(dest@);
        },
        NetworkHeader::V6(src, dest, protocol) => {
            lemma_sixteen_octets(src@);
            lemma_sixteen_octets(dest@);
        },
        NetworkHeader::Absent => {},
    }
}

proof fn lemma_four_octets(s: Seq<u8>)
    requires
        s.len() == 4,
    ensures
        be_value(s) == s[0] * 0x100_0000 + s[1] * 0x1_0000 + s[2] * 0x100 + s[3],
{
    reveal_with_fuel(be_value, 5);
    assert(s.drop_last() =~= seq![s[0], s[1], s[2]]);
    assert(s.drop_last().drop_last() =~= seq![s[0], s[1]]);
    assert(s.drop_last().drop_last().drop_last() =~= seq![s[0]]);
}

proof fn lemma_sixteen_octets(s: Seq<u8>)
    requires
        s.len() == 16,
    ensures
        be_value(s) <= u128::MAX,
        forall|i: int|
            0 <= i < 16 ==> (be_value(s) as int / pow(256, (15 - i) as nat)) % 256 == #[trigger] s[i],
{
    assert forall|i: int| 0 <= i < 16 implies (be_value(s) as int / pow(256, (15 - i) as nat)) % 256
        == #[trigger] s[i] by {
        law_octets_are_digits_of_value(s, i);
    }
    law_octets_are_digits_of_value(s, 0);
    assert(pow(256, 16) == 0x1_0000_0000_0000_0000_0000_0000_0000_0000) by {
        reveal_with_fuel(pow, 17);
    }
}

/// A TCP flag of a captured frame counts in its flow exactly if it was set, independently of
/// the others.
pub proof fn law_captured_flags_count(
    headers: PacketHeaders,
    len: nat,
    timestamp: Timestamp,
    event: PacketEvent,
    direction: Direction,
)
    requires
        headers_event(headers, len, timestamp) == Some(event),
        headers.transport is Stream,
    ensures
        ({
            let flags = headers.transport->Stream_2@;
            let p = event.summary(direction);
            &&& measure(Measure::Flag(0x01), p) == 1 <==> flags[0]
            &&& measure(Measure::Flag(0x02), p) == 1 <==> flags[1]
            &&& measure(Measure::Flag(0x04), p) == 1 <==> flags[2]
            &&& measure(Measure::Flag(0x08), p) == 1 <==> flags[3]
            &&& measure(Measure::Flag(0x10), p) == 1 <==> flags[4]
            &&& measure(Measure::Flag(0x20), p) == 1 <==> flags[5]
        }),
{
    let flags = headers.transport->Stream_2@;
    law_packed_flags_read_back(flags, flag_bits(flags) as u8);
}

/// Packing sets bit `i` exactly if flag `i` is set, and no bit above the six flags.
pub proof fn law_packing_sets_each_bit(flags: [bool; 6], r: u8)
    requires
        call_ensures(pack_flags, (flags,), r),
    ensures
        (r & 0x01 != 0) == flags@[0],
        (r & 0x02 != 0) == flags@[1],
        (r & 0x04 != 0) == flags@[2],
        (r & 0x08 != 0) == flags@[3],
        (r & 0x10 != 0) == flags@[4],
        (r & 0x20 != 0) == flags@[5],
        r < 0x40,
{
    law_packed_flags_read_back(flags@, r);
}

/// A frame gives the event of the headers found in it, with the frame's own length.
pub proof fn law_parsed_frame_has_its_length(
    frame: &[u8],
    timestamp: Timestamp,
    r: Option<PacketEvent>,
)
    requires
        call_ensures(parse_packet, (frame, timestamp), r),
    ensures
        r is Some <==> (ethernet_headers(frame@) matches Some(h) && !(h.network is Absent)),
        r matches Some(event) ==> {
            &&& event.timestamp == timestamp
            &&& frame@.len() <= 0xffff_ffff ==> event.len == frame@.len()
            &&& headers_event(ethernet_headers(frame@)->0, frame@.len(), timestamp) == Some(event)
        },
{
    if let Some(event) = r {
        law_event_carries_the_frame(
            ethernet_headers(frame@)->0,
            frame@.len(),
            timestamp,
            event,
        );
    }
}

/// Synthetic packets walk through addresses, ports and lengths with their number: the source
/// moves on by one per packet and the destination by one per round of sources, lengths run
/// from 64 to 1463, and even numbers are TCP to a web port while odd ones are UDP from port 53.
pub proof fn law_mock_packets_walk_with_their_number(
    count: u64,
    num_ips: u32,
    now: Timestamp,
    round: int,
    src: int,
    lap: int,
    dest: int,
)
    requires
        mock_in_range(count, num_ips),
        count == round * num_ips + src,
        0 <= src < num_ips,
        round == lap * num_ips + dest,
        0 <= dest < num_ips,
    ensures
        ({
            let e = spec_mock_event(count, num_ips, now);
            &&& e.timestamp == now
            &&& e.src_ip matches IpAddr::V4(a) && a == 0x0A00_0000 + src
            &&& e.dest_ip matches IpAddr::V4(b) && b == 0x0A00_0000 + 1000 + dest
            &&& 64 <= e.len < 1464 && (count + 64 - e.len) % 1400 == 0
            &&& count % 2 == 0 ==> {
                &&& e.protocol == 6
                &&& 1024 <= e.src_port < 51024 && (count + 1024 - e.src_port) % 50000 == 0
                &&& e.dest_port == 80 || e.dest_port == 443
                &&& e.dest_port == 80 <==> count % 3 == 0
                &&& e.tcp_flags == (if count % 10 == 0 {
                    Some(0x02u8)
                } else {
                    Some(0x10u8)
                })
            }
            &&& count % 2 == 1 ==> {
                &&& e.protocol == 17
                &&& e.src_port == 53
                &&& 1024 <= e.dest_port < 51024 && (count + 1024 - e.dest_port) % 50000 == 0
                &&& e.tcp_flags is None
            }
        }),
{
    vstd::arithmetic::div_mod::lemma_fundamental_div_mod_converse(
        count as int,
        num_ips as int,
        round,
        src,
    );
    vstd::arithmetic::div_mod::lemma_fundamental_div_mod_converse(round, num_ips as int, lap, dest);
    lemma_rest_is_congruent(count as int, 1400);
    lemma_rest_is_congruent(count as int, 50000);
}

proof fn lemma_rest_is_congruent(x: int, m: int)
    requires
        x >= 0,
        m > 0,
    ensures
        0 <= x % m < m,
        (x - x % m) % m == 0,
{
    vstd::arithmetic::div_mod::lemma_fundamental_div_mod(x, m);
    vstd::arithmetic::div_mod::lemma_mod_multiples_basic(x / m, m);
    assert(m * (x / m) == (x / m) * m) by (nonlinear_arith);
}

/// Every packet number fits as long as the addresses, counted up from the first destination,
/// stay within 32 bits.
pub proof fn law_ordinary_mock_traffic_fits(count: u64, num_ips: u32)
    requires
        0 < num_ips <= 0xffff_ffff - 0x0A00_0000 - 1000,
    ensures
        mock_in_range(count, num_ips),
{
    vstd::arithmetic::div_mod::lemma_mod_bound(count as int, num_ips as int);
    vstd::arithmetic::div_mod::lemma_mod_bound(count as int / num_ips as int, num_ips as int);
}

/// Traffic of more than ten thousand packets per second goes out in batches of a thousand, and
/// the pause after a batch is its time at the nominal rate.
pub proof fn law_fast_traffic_is_batched(packets_per_sec: u64, pacing: Pacing)
    requires
        packets_per_sec > 0,
        call_ensures(mock_pacing, (packets_per_sec,), pacing),
    ensures
        pacing.batch_size == 1000 <==> packets_per_sec > 10_000,
        pacing.batch_size == 1 <==> packets_per_sec <= 10_000,
        pacing.sleep_nanos * packets_per_sec <= 1_000_000_000 * pacing.batch_size,
        1_000_000_000 * pacing.batch_size < (pacing.sleep_nanos + 1) * packets_per_sec,
{
    law_pacing_keeps_rate(packets_per_sec, pacing);
}

/// A file is PCAPNG exactly if its first four bytes are 0A 0D 0D 0A.
pub proof fn law_section_header_marks_pcapng(head: &[u8], r: CaptureFormat)
    requires
        call_ensures(capture_format, (head,), r),
    ensures
        r is PcapNg <==> head@.len() >= 4 && head@[0] == 0x0a && head@[1] == 0x0d && head@[2] == 0x0d
            && head@[3] == 0x0a,
{
    let magic = seq![0x0au8, 0x0d, 0x0d, 0x0a];
    if head@.len() >= 4 {
        assert(forall|i: int| 0 <= i < 4 ==> head@.take(4)[i] == head@[i]);
        if head@[0] == 0x0a && head@[1] == 0x0d && head@[2] == 0x0d && head@[3] == 0x0a {
            assert(head@.take(4) =~= magic);
        }
        if head@.take(4) == magic {
            assert(head@.take(4)[0] == magic[0] && head@.take(4)[1] == magic[1] && head@.take(4)[2]
                == magic[2] && head@.take(4)[3] == magic[3]);
        }
    }
}

/// Headers become an event with the frame's own length, time, ports and protocol, exactly if
/// there is an IP header.
pub proof fn law_headers_become_their_event(
    headers: PacketHeaders,
    len: usize,
    timestamp: Timestamp,
    r: Option<PacketEvent>,
)
    requires
        call_ensures(event_from_headers, (headers, len, timestamp), r),
    ensures
        r is None <==> headers.network is Absent,
        r matches Some(event) ==> {
            &&& event.timestamp == timestamp
            &&& len <= 0xffff_ffff ==> event.len == len
            &&& headers.network matches NetworkHeader::V4(_, _, protocol) ==> event.protocol == protocol
            &&& headers.network matches NetworkHeader::V6(_, _, protocol) ==> event.protocol == protocol
            &&& headers.transport matches TransportHeader::Stream(src, dest, _) ==> event.src_port
                == src && event.dest_port == dest && event.tcp_flags is Some
            &&& headers.transport matches TransportHeader::Datagram(src, dest) ==> event.src_port
                == src && event.dest_port == dest && event.tcp_flags is None
        },
{
    if let Some(event) = r {
        law_event_carries_the_frame(headers, len as nat, timestamp, event);
    }
}

/// The generator makes the synthetic packet of the number that it is given.
pub proof fn law_generator_makes_the_numbered_packet(
    count: u64,
    num_ips: u32,
    now: Timestamp,
    r: PacketEvent,
)
    requires
        mock_in_range(count, num_ips),
        call_ensures(mock_event, (count, num_ips, now), r),
    ensures
        r == spec_mock_event(count, num_ips, now),
        r.src_ip matches IpAddr::V4(a) && a == 0x0A00_0000 + count as int % num_ips as int,
        r.dest_ip matches IpAddr::V4(b) && b == 0x0A00_0000 + 1000 + (count as int / num_ips as int)
            % num_ips as int,
        64 <= r.len < 1464,
{
}

} // verus!
