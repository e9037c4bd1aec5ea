use etherparse::PacketBuilder;
use r_nads::addr::IpAddr;
use r_nads::capture::{
    capture_format, event_from_headers, mock_event, mock_fits, mock_pacing, pack_flags,
    parse_packet, CaptureFormat, NetworkHeader, Pacing, PacketHeaders, TransportHeader,
};
use r_nads::packet::PacketEvent;
use r_nads::router::{route, worker_index};
use r_nads::time::Timestamp;

const T: Timestamp = Timestamp::SinceEpoch { secs: 1000, nanos: 5 };

fn tcp_frame() -> Vec<u8> {
    let builder = PacketBuilder::ethernet2([1, 2, 3, 4, 5, 6], [7, 8, 9, 10, 11, 12])
        .ipv4([192, 168, 1, 1], [10, 0, 0, 7], 20)
        .tcp(4567, 80, 1, 1024)
        .syn()
        .ack(77);
    let payload = [1u8, 2, 3];
    let mut frame = Vec::new();
    builder.write(&mut frame, &payload).unwrap();
    frame
}

#[test]
fn tcp_frame_gives_event() {
    let frame = tcp_frame();
    let event = parse_packet(&frame, T).unwrap();
    assert_eq!(
        event,
        PacketEvent {
            timestamp: T,
            len: frame.len() as u32,
            src_ip: IpAddr::V4(0xC0A8_0101),
            dest_ip: IpAddr::V4(0x0A00_0007),
            src_port: 4567,
            dest_port: 80,
            protocol: 6,
            tcp_flags: Some(0x12),
        }
    );
}

#[test]
fn udp_over_ipv6_gives_event() {
    let mut src = [0u8; 16];
    src[0] = 0xfe;
    src[1] = 0x80;
    src[15] = 1;
    let mut dest = src;
    dest[15] = 2;
    let builder = PacketBuilder::ethernet2([1, 2, 3, 4, 5, 6], [7, 8, 9, 10, 11, 12])
        .ipv6(src, dest, 64)
        .udp(53, 3000);
    let mut frame = Vec::new();
    builder.write(&mut frame, &[9u8; 20]).unwrap();
    let event = parse_packet(&frame, T).unwrap();
    assert_eq!(event.src_ip, IpAddr::V6(0xfe80_0000_0000_0000_0000_0000_0000_0001));
    assert_eq!(event.dest_ip, IpAddr::V6(0xfe80_0000_0000_0000_0000_0000_0000_0002));
    assert_eq!((event.src_port, event.dest_port), (53, 3000));
    assert_eq!(event.protocol, 17);
    assert_eq!(event.tcp_flags, None);
}

#[test]
fn icmp_has_no_ports() {
    let builder = PacketBuilder::ethernet2([1, 2, 3, 4, 5, 6], [7, 8, 9, 10, 11, 12])
        .ipv4([1, 2, 3, 4], [5, 6, 7, 8], 20)
        .icmpv4_echo_request(1, 2);
    let mut frame = Vec::new();
    builder.write(&mut frame, &[0u8; 4]).unwrap();
    let event = parse_packet(&frame, T).unwrap();
    assert_eq!((event.src_port, event.dest_port, event.tcp_flags), (0, 0, None));
    assert_eq!(event.protocol, 1);
}

#[test]
fn frames_without_ip_give_nothing() {
    assert_eq!(parse_packet(&[], T), None);
    assert_eq!(parse_packet(&[0u8; 13], T), None);
    // An ARP frame is sliced, but has no IP header
    let mut arp = vec![0u8; 42];
    arp[12] = 0x08;
    arp[13] = 0x06;
    assert_eq!(parse_packet(&arp, T), None);
    // Cut off in the middle of the IP header
    let frame = tcp_frame();
    assert_eq!(parse_packet(&frame[..20], T), None);
}

#[test]
fn headers_become_events() {
    let headers = PacketHeaders {
        network: NetworkHeader::V4([10, 0, 0, 1], [10, 0, 0, 2], 6),
        transport: TransportHeader::Stream(1, 2, [true, false, true, false, false, true]),
    };
    let event = event_from_headers(headers, 60, T).unwrap();
    assert_eq!(event.tcp_flags, Some(0x25));
    assert_eq!(event.len, 60);
    assert_eq!(event.src_ip, IpAddr::V4(0x0A00_0001));
    let without_ip = PacketHeaders { network: NetworkHeader::Absent, ..headers };
    assert_eq!(event_from_headers(without_ip, 60, T), None);
}

#[test]
fn flags_pack_by_bit() {
    assert_eq!(pack_flags([false; 6]), 0);
    assert_eq!(pack_flags([true; 6]), 0x3f);
    for i in 0..6 {
        let mut flags = [false; 6];
        flags[i] = true;
        assert_eq!(pack_flags(flags), 1u8 << i);
    }
}

#[test]
fn mock_traffic_is_deterministic() {
    let e = mock_event(0, 1000, T);
    assert_eq!(e.src_ip, IpAddr::V4(0x0A00_0000));
    assert_eq!(e.dest_ip, IpAddr::V4(0x0A00_0000 + 1000));
    assert_eq!((e.protocol, e.src_port, e.dest_port), (6, 1024, 80));
    assert_eq!((e.tcp_flags, e.len), (Some(0x02), 64));

    let e = mock_event(1, 1000, T);
    assert_eq!((e.protocol, e.src_port, e.dest_port), (17, 53, 1025));
    assert_eq!((e.tcp_flags, e.len), (None, 65));

    let e = mock_event(52_004, 1000, T);
    assert_eq!(e.src_ip, IpAddr::V4(0x0A00_0000 + 4));
    assert_eq!(e.dest_ip, IpAddr::V4(0x0A00_0000 + 52 + 1000));
    assert_eq!((e.src_port, e.dest_port), (1024 + 2004, 443));
    assert_eq!((e.tcp_flags, e.len), (Some(0x10), 64 + 204));
}

#[test]
fn mock_address_pairs_do_not_repeat_early() {
    let mut seen = std::collections::HashSet::new();
    for count in 0..400u64 {
        let e = mock_event(count, 20, T);
        assert!(seen.insert((e.src_ip, e.dest_ip)));
    }
    let again = mock_event(400, 20, T);
    assert!(seen.contains(&(again.src_ip, again.dest_ip)));
}

#[test]
fn mock_range_is_checked() {
    assert!(!mock_fits(0, 0));
    assert!(mock_fits(u64::MAX, 1000));
    assert!(!mock_fits(u32::MAX as u64 - 1, u32::MAX));
    assert!(mock_fits(5, u32::MAX));
}

#[test]
fn pacing_batches_fast_traffic() {
    assert_eq!(mock_pacing(10_000), Pacing { batch_size: 1, sleep_nanos: 100_000 });
    assert_eq!(mock_pacing(20_000), Pacing { batch_size: 1000, sleep_nanos: 50_000_000 });
    assert_eq!(mock_pacing(3), Pacing { batch_size: 1, sleep_nanos: 333_333_333 });
}

#[test]
fn one_worker_takes_both_directions() {
    assert_eq!(worker_index(17, 4), 1);
    assert_eq!(worker_index(u64::MAX, 1), 0);
    let mut used = [false; 8];
    for count in 0..2000u64 {
        let e = mock_event(count, 100, T);
        let reply = PacketEvent {
            src_ip: e.dest_ip,
            dest_ip: e.src_ip,
            src_port: e.dest_port,
            dest_port: e.src_port,
            ..e
        };
        let worker = route(&e, 8);
        assert!(worker < 8);
        assert_eq!(worker, route(&reply, 8));
        used[worker] = true;
    }
    assert_eq!(used, [true; 8]);
}

#[test]
fn capture_files_are_told_apart() {
    assert_eq!(capture_format(&[0x0a, 0x0d, 0x0d, 0x0a]), CaptureFormat::PcapNg);
    assert_eq!(capture_format(&[0x0a, 0x0d, 0x0d, 0x0a, 0xff]), CaptureFormat::PcapNg);
    assert_eq!(capture_format(&[0xd4, 0xc3, 0xb2, 0xa1]), CaptureFormat::Pcap);
    assert_eq!(capture_format(&[0x0a, 0x0d, 0x0d]), CaptureFormat::Pcap);
    assert_eq!(capture_format(&[]), CaptureFormat::Pcap);
}

#[test]
fn block_times_follow_their_resolution() {
    let at = |secs, nanos| Timestamp::SinceEpoch { secs, nanos };
    assert_eq!(Timestamp::from_units(1_700_000_000_123_456, 6), at(1_700_000_000, 123_456_000));
    assert_eq!(Timestamp::from_units(1_700_000_000_123_456, 6).millis(), 1_700_000_000_123);
    assert_eq!(Timestamp::from_units(5_000_000_007, 9), at(5, 7));
    assert_eq!(Timestamp::from_units(42, 0), at(42, 0));
    assert_eq!(Timestamp::from_units(3, 128 + 1), at(1, 500_000_000));
    assert_eq!(Timestamp::from_units(u64::MAX, 20), at(0, 184_467_440));
    assert_eq!(Timestamp::from_units(u64::MAX, 127), at(0, 0));
    assert_eq!(Timestamp::from_units(u64::MAX, 255), at(0, 0));
}
