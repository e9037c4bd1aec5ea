use r_nads::addr::IpAddr;
use r_nads::flow::{FlowMetrics, FlowState, MAX_SAFE_LEN};
use r_nads::packet::{Direction, FlowKey, PacketEvent, PacketSummary};
use r_nads::table::FlowTable;
use r_nads::time::Timestamp;
use r_nads::window::WINDOW_SIZE;

fn v4(a: u8, b: u8, c: u8, d: u8) -> IpAddr {
    IpAddr::from_v4_octets([a, b, c, d])
}

fn at_millis(ms: u64) -> Timestamp {
    Timestamp::SinceEpoch {
        secs: ms / 1000,
        nanos: ((ms % 1000) * 1_000_000) as u32,
    }
}

const START: u64 = 1_700_000_000_000;

// The detector's view of the features, divided out.
fn mean_len(m: &FlowMetrics) -> f64 {
    m.sum_len as f64 / m.sample_count as f64
}

fn var_len(m: &FlowMetrics) -> f64 {
    (m.sum_len_sq as f64 / m.sample_count as f64 - mean_len(m) * mean_len(m)).max(0.0)
}

fn packet_rate(m: &FlowMetrics) -> f64 {
    m.window_len as f64 / (m.duration_ms as f64 / 1000.0)
}

fn byte_rate(m: &FlowMetrics) -> f64 {
    m.bytes as f64 / (m.duration_ms as f64 / 1000.0)
}

fn ratio(count: u32, m: &FlowMetrics) -> f64 {
    count as f64 / m.sample_count as f64
}

fn interval_stats(m: &FlowMetrics) -> (f64, f64) {
    let n = m.intervals.len();
    if n == 0 {
        return (0.0, 0.0);
    }
    let mut sum = 0.0;
    let mut sum_sq = 0.0;
    for &i in &m.intervals {
        sum += i as f64;
        sum_sq += i as f64 * i as f64;
    }
    let mean = sum / n as f64;
    (mean, (sum_sq / n as f64 - mean * mean).max(0.0))
}

#[test]
fn aggregator_test_symmetric_flow_key() {
    let ip_a = v4(10, 0, 0, 1);
    let ip_b = v4(192, 168, 1, 100);

    let key1 = FlowKey::new(ip_a, 1234, ip_b, 80, 6);
    let key2 = FlowKey::new(ip_b, 80, ip_a, 1234, 6);

    assert_eq!(key1, key2);
    assert_eq!(key1.ip_min, ip_a);
    assert_eq!(key1.ip_max, ip_b);
    assert_eq!(key1.port_min, 1234);
    assert_eq!(key1.port_max, 80);
}

#[test]
fn lib_test_symmetric_flow_key() {
    let ip_a = v4(10, 0, 0, 1);
    let ip_b = v4(192, 168, 1, 100);

    let key1 = FlowKey::new(ip_a, 1234, ip_b, 80, 6);
    let key2 = FlowKey::new(ip_b, 80, ip_a, 1234, 6);

    assert_eq!(key1, key2);
    assert_eq!(key1.ip_min, ip_a);
    assert_eq!(key1.ip_max, ip_b);
    assert_eq!(key1.port_min, 1234);
    assert_eq!(key1.port_max, 80);
}

#[test]
fn flow_key_orders_equal_addresses_by_port() {
    let ip = v4(127, 0, 0, 1);
    let key = FlowKey::new(ip, 9000, ip, 80, 6);
    assert_eq!(key.port_min, 80);
    assert_eq!(key.port_max, 9000);
    assert_eq!(key, FlowKey::new(ip, 80, ip, 9000, 6));
    assert_ne!(key, FlowKey::new(ip, 80, ip, 9000, 17));
}

#[test]
fn every_v4_address_precedes_every_v6_address() {
    let a = IpAddr::V4(u32::MAX);
    let b = IpAddr::V6(0);
    assert!(a.is_before(&b));
    assert!(!b.is_before(&a));
    assert!(v4(10, 0, 0, 1).is_before(&v4(10, 0, 0, 2)));
    assert!(IpAddr::V6(7).is_before(&IpAddr::V6(8)));
    assert!(!IpAddr::V6(8).is_before(&IpAddr::V6(8)));
    let key = FlowKey::new(b, 1, a, 2, 6);
    assert_eq!(key.ip_min, a);
    assert_eq!(key.port_min, 2);
}

#[test]
fn addresses_and_pairs_convert_both_ways() {
    assert_eq!(v4(10, 0, 0, 1), IpAddr::V4(0x0A00_0001));
    let mut octets = [0u8; 16];
    octets[0] = 0x20;
    octets[1] = 0x01;
    octets[15] = 0x05;
    let v6 = IpAddr::from_v6_octets(octets);
    assert_eq!(v6, IpAddr::V6(0x2001_0000_0000_0000_0000_0000_0000_0005));
    assert_eq!(v6.id(), (6, 0x2001_0000_0000_0000_0000_0000_0000_0005));
    assert_eq!(IpAddr::from_id(v6.id()), Some(v6));
    assert_eq!(IpAddr::from_id((4, 5)), Some(IpAddr::V4(5)));
    assert_eq!(IpAddr::from_id((4, 1u128 << 32)), None);
    assert_eq!(IpAddr::from_id((5, 0)), None);
    assert_eq!(IpAddr::from_v6_octets([0xff; 16]), IpAddr::V6(u128::MAX));
}

#[test]
fn timestamps_count_milliseconds() {
    assert_eq!(Timestamp::BeforeEpoch.millis(), 0);
    let t = Timestamp::SinceEpoch { secs: 12, nanos: 345_999_999 };
    assert_eq!(t.millis(), 12_345);
    assert_eq!(Timestamp::SinceEpoch { secs: u64::MAX, nanos: 0 }.millis(), u64::MAX - 999);
    assert_eq!(Timestamp::from_timeval(5, 250_000).millis(), 5_250);
    assert_eq!(
        Timestamp::from_timeval(5, 1_250_000),
        Timestamp::SinceEpoch { secs: 6, nanos: 250_000_000 }
    );
    assert_eq!(
        Timestamp::since_epoch(1, 3_000_000_001),
        Timestamp::SinceEpoch { secs: 4, nanos: 1 }
    );
    assert_eq!(t.unix_seconds(), 12);
    assert_eq!(Timestamp::BeforeEpoch.unix_seconds(), 0);
    assert_eq!(Timestamp::SinceEpoch { secs: u64::MAX, nanos: 0 }.unix_seconds(), -1);
}

#[test]
fn aggregator_test_flow_state_aggregates() {
    let ip = v4(10, 0, 0, 1);
    let mut state = FlowState::new(ip);

    // Feed 3 packets: 100 bytes forward, 200 bytes backward, 300 bytes forward
    state.update(at_millis(START), 100, Direction::Forward, Some(0x02));
    state.update(at_millis(START + 100), 200, Direction::Backward, Some(0x10));
    state.update(at_millis(START + 200), 300, Direction::Forward, Some(0x04));

    let key = FlowKey::new(ip, 1234, v4(10, 0, 0, 2), 80, 6);
    let metrics = state.compute_metrics(key);

    assert_eq!(metrics.packet_count, 3);
    assert_eq!(state.packets_fwd, 2);
    assert_eq!(state.packets_bwd, 1);
    assert_eq!(state.bytes_fwd, 400);
    assert_eq!(state.bytes_bwd, 200);
    assert_eq!(state.syn_count, 1);
    assert_eq!(state.rst_count, 1);
    assert_eq!(state.fin_count, 0);
    assert_eq!(state.psh_count, 0);
    assert_eq!(state.ack_count, 1);

    // Mean should be (100 + 200 + 300) / 3 = 200.0
    assert_eq!(mean_len(&metrics), 200.0);

    // Sum of squares = 100^2 + 200^2 + 300^2 = 140000
    // Variance = 140000 / 3 - 200^2 = 6666.6667
    assert!((var_len(&metrics) - 6666.6667).abs() < 0.1);

    // Duration is 200ms = 0.2s. 3 packets / 0.2s = 15.0 packets/sec
    assert_eq!(packet_rate(&metrics), 15.0);
    // Bytes rate is 600 bytes / 0.2s = 3000 bytes/sec
    assert_eq!(byte_rate(&metrics), 3000.0);

    // Ratios
    assert!((ratio(metrics.syn_count, &metrics) - 0.3333).abs() < 0.01);
    assert!((ratio(metrics.rst_count, &metrics) - 0.3333).abs() < 0.01);
    assert_eq!(ratio(metrics.fin_count, &metrics), 0.0);
    assert_eq!(ratio(metrics.psh_count, &metrics), 0.0);
    assert!((ratio(metrics.ack_count, &metrics) - 0.3333).abs() < 0.01);

    // Interval statistics
    let (mean_interval, var_interval) = interval_stats(&metrics);
    assert_eq!(mean_interval, 100.0);
    assert_eq!(var_interval, 0.0);
}

#[test]
fn lib_test_flow_state_aggregates() {
    let ip = v4(10, 0, 0, 1);
    let mut state = FlowState::new(ip);

    state.update(at_millis(START), 100, Direction::Forward, Some(0x02));
    state.update(at_millis(START + 100), 200, Direction::Backward, Some(0x10));
    state.update(at_millis(START + 200), 300, Direction::Forward, Some(0x04));

    let key = FlowKey::new(ip, 1234, v4(10, 0, 0, 2), 80, 6);
    let metrics = state.compute_metrics(key);

    assert_eq!(metrics.packet_count, 3);
    assert_eq!(state.packets_fwd, 2);
    assert_eq!(state.packets_bwd, 1);
    assert_eq!(state.bytes_fwd, 400);
    assert_eq!(state.bytes_bwd, 200);
    assert_eq!(state.syn_count, 1);
    assert_eq!(state.rst_count, 1);

    assert_eq!(mean_len(&metrics), 200.0);
    assert!((var_len(&metrics) - 6666.6667).abs() < 0.1);
    assert_eq!(packet_rate(&metrics), 15.0);
    assert_eq!(byte_rate(&metrics), 3000.0);
}

#[test]
fn empty_flow_has_harmless_divisors() {
    let state = FlowState::new(v4(1, 2, 3, 4));
    let key = FlowKey::new(v4(1, 2, 3, 4), 1, v4(5, 6, 7, 8), 2, 17);
    let m = state.compute_metrics(key);
    assert_eq!(m.window_len, 0);
    assert_eq!(m.sample_count, 1);
    assert_eq!(m.duration_ms, 1);
    assert_eq!(m.bwd_divisor, 1);
    assert!(m.intervals.is_empty());
    assert_eq!(m.src_ip, v4(1, 2, 3, 4));
    assert_eq!(m.dest_ip, v4(5, 6, 7, 8));
    assert_eq!((m.src_port, m.dest_port, m.protocol), (1, 2, 17));
}

#[test]
fn full_window_slides() {
    let mut state = FlowState::new(v4(1, 1, 1, 1));
    for i in 0..(WINDOW_SIZE as u64) {
        state.update(at_millis(START + i), 10, Direction::Forward, Some(0x02));
    }
    assert_eq!(state.count, WINDOW_SIZE);
    assert_eq!(state.syn_count, 128);
    assert_eq!(state.sum_len, 1280);
    // 3 packets push out the 3 oldest
    state.update(at_millis(START + 200), 20, Direction::Backward, Some(0x01));
    state.update(at_millis(START + 300), 20, Direction::Backward, Some(0x08));
    state.update(at_millis(START + 400), 20, Direction::Backward, None);
    assert_eq!(state.count, WINDOW_SIZE);
    assert_eq!(state.total_packets, 131);
    assert_eq!(state.packets_fwd, 125);
    assert_eq!(state.packets_bwd, 3);
    assert_eq!(state.bytes_fwd, 1250);
    assert_eq!(state.bytes_bwd, 60);
    assert_eq!(state.syn_count, 125);
    assert_eq!(state.fin_count, 1);
    assert_eq!(state.psh_count, 1);
    assert_eq!(state.sum_len_sq, 125 * 100 + 3 * 400);
    let m = state.compute_metrics(FlowKey::new(v4(1, 1, 1, 1), 1, v4(2, 2, 2, 2), 2, 6));
    // from packet 3 to the last one
    assert_eq!(m.duration_ms, 397);
    assert_eq!(m.packet_count, 131);
    assert_eq!(m.intervals.len(), 127);
    assert_eq!(m.intervals.iter().sum::<u64>(), 397);
    assert!(m.sum_len * m.sum_len <= m.sample_count as u64 * m.sum_len_sq);
}

#[test]
fn head_goes_around_the_ring() {
    let t = Timestamp::SinceEpoch { secs: 1, nanos: 0 };
    let mut s = FlowState::new(v4(10, 0, 0, 1));
    assert_eq!(s.head, 0);
    s.update(t, 1000, Direction::Backward, Some(0x1F));
    assert_eq!(s.buffer[0].len, 1000);
    assert_eq!(s.buffer[1], PacketSummary::default());
    assert_eq!(s.buffer[127], PacketSummary::default());
    for n in 2..=129usize {
        s.update(t, 1, Direction::Forward, Some(0x10));
        assert_eq!(s.head, n % WINDOW_SIZE);
    }
    assert_eq!((s.total_packets, s.count, s.head), (129, 128, 1));
    assert_eq!((s.packets_fwd, s.packets_bwd), (128, 0));
    assert_eq!((s.bytes_fwd, s.bytes_bwd), (128, 0));
    assert_eq!((s.sum_len, s.sum_len_sq), (128, 128));
    assert_eq!((s.fin_count, s.syn_count, s.rst_count, s.psh_count), (0, 0, 0, 0));
    assert_eq!(s.ack_count, 128);
    assert_eq!(s.buffer[0].len, 1);
}

#[test]
fn missing_flags_and_time_count_as_zero() {
    let mut a = FlowState::new(v4(10, 0, 0, 1));
    let mut b = FlowState::new(v4(10, 0, 0, 1));
    a.update(Timestamp::BeforeEpoch, 9, Direction::Backward, None);
    b.update(at_millis(0), 9, Direction::Backward, Some(0));
    assert_eq!(a.buffer, b.buffer);
    assert_eq!(format!("{:?}", a), format!("{:?}", b));
}

#[test]
fn intervals_come_from_sorted_timestamps() {
    let mut state = FlowState::new(v4(1, 1, 1, 1));
    for ms in [500u64, 100, 400, 100] {
        state.update(at_millis(ms), 1, Direction::Forward, None);
    }
    let m = state.compute_metrics(FlowKey::new(v4(1, 1, 1, 1), 1, v4(2, 2, 2, 2), 2, 6));
    assert_eq!(m.intervals, vec![0, 300, 100]);
    assert_eq!(m.duration_ms, 400);
}

#[test]
fn coinciding_packets_span_one_millisecond() {
    let mut state = FlowState::new(v4(1, 1, 1, 1));
    state.update(Timestamp::BeforeEpoch, 5, Direction::Forward, None);
    state.update(Timestamp::BeforeEpoch, 5, Direction::Backward, None);
    let m = state.compute_metrics(FlowKey::new(v4(1, 1, 1, 1), 1, v4(2, 2, 2, 2), 2, 6));
    assert_eq!(m.duration_ms, 1);
    assert_eq!(m.intervals, vec![0]);
    assert_eq!(m.bwd_divisor, 1);
}

#[test]
fn reset_state_is_like_a_new_one() {
    let mut state = FlowState::new(v4(1, 1, 1, 1));
    for _ in 0..200 {
        state.update(at_millis(START), 99, Direction::Backward, Some(0x1f));
    }
    state.reset(v4(2, 2, 2, 2));
    assert_eq!(state.initiator_ip, v4(2, 2, 2, 2));
    assert_eq!(state.total_packets, 0);
    assert_eq!(state.count, 0);
    assert_eq!(state.buffer[0].len, 99);
    state.update(at_millis(START), 7, Direction::Forward, None);
    assert_eq!(state.sum_len, 7);
    assert_eq!(state.sum_len_sq, 49);
    assert_eq!(state.packets_bwd, 0);
    assert_eq!(state.ack_count, 0);
}

#[test]
fn room_runs_out_with_huge_packets() {
    let mut state = FlowState::new(v4(1, 1, 1, 1));
    assert!(state.has_room(u32::MAX));
    state.update(at_millis(0), u32::MAX, Direction::Forward, None);
    assert!(!state.has_room(u32::MAX));
    assert!(state.has_room(0));
    let mut ordinary = FlowState::new(v4(1, 1, 1, 1));
    for _ in 0..300 {
        assert!(ordinary.has_room(MAX_SAFE_LEN));
        ordinary.update(at_millis(0), MAX_SAFE_LEN, Direction::Forward, None);
    }
    assert!(!ordinary.has_room(u32::MAX));
    let exhausted = FlowState { total_packets: u64::MAX, ..FlowState::new(v4(1, 1, 1, 1)) };
    assert!(!exhausted.has_room(0));
}

#[test]
fn default_summary_is_blank() {
    let p = PacketSummary::default();
    assert_eq!(p.timestamp_ms, 0);
    assert_eq!(p.len, 0);
    assert_eq!(p.direction, Direction::Forward);
    assert_eq!(p.tcp_flags, 0);
}

fn make_packet(src: IpAddr, dest: IpAddr, port: u16) -> PacketEvent {
    PacketEvent {
        timestamp: at_millis(START),
        len: 64,
        src_ip: src,
        dest_ip: dest,
        src_port: port,
        dest_port: 80,
        protocol: 6,
        tcp_flags: None,
    }
}

#[test]
fn aggregator_test_flow_table_lru_eviction() {
    // Table capacity 2
    let mut table = FlowTable::new(2);

    let ip1 = v4(10, 0, 0, 1);
    let ip2 = v4(10, 0, 0, 2);
    let ip3 = v4(10, 0, 0, 3);
    let dest = v4(192, 168, 1, 100);

    // Ingest flow 1
    table.process_packet(&make_packet(ip1, dest, 1001));
    assert_eq!(table.len(), 1);

    // Ingest flow 2
    table.process_packet(&make_packet(ip2, dest, 1002));
    assert_eq!(table.len(), 2);

    // Access flow 1 again (making it most recently used)
    table.process_packet(&make_packet(ip1, dest, 1001));

    // Ingest flow 3 (should trigger eviction of flow 2, since flow 1 was recently accessed)
    table.process_packet(&make_packet(ip3, dest, 1003));
    assert_eq!(table.len(), 2);

    // Check that flow 1 and 3 are present, and flow 2 was evicted
    let key1 = FlowKey::new(ip1, 1001, dest, 80, 6);
    let key2 = FlowKey::new(ip2, 1002, dest, 80, 6);
    let key3 = FlowKey::new(ip3, 1003, dest, 80, 6);

    assert!(table.contains(&key1));
    assert!(table.contains(&key3));
    assert!(!table.contains(&key2));
}

#[test]
fn lib_test_flow_table_lru_eviction() {
    let mut table = FlowTable::new(2);

    let ip1 = v4(10, 0, 0, 1);
    let ip2 = v4(10, 0, 0, 2);
    let ip3 = v4(10, 0, 0, 3);
    let dest = v4(192, 168, 1, 100);

    table.process_packet(&make_packet(ip1, dest, 1001));
    assert_eq!(table.len(), 1);
    table.process_packet(&make_packet(ip2, dest, 1002));
    assert_eq!(table.len(), 2);
    table.process_packet(&make_packet(ip1, dest, 1001));
    table.process_packet(&make_packet(ip3, dest, 1003));
    assert_eq!(table.len(), 2);

    let key1 = FlowKey::new(ip1, 1001, dest, 80, 6);
    let key2 = FlowKey::new(ip2, 1002, dest, 80, 6);
    let key3 = FlowKey::new(ip3, 1003, dest, 80, 6);

    assert!(table.contains(&key1));
    assert!(table.contains(&key3));
    assert!(!table.contains(&key2));
}

#[test]
fn table_counts_both_directions_in_one_flow() {
    let mut table = FlowTable::new(4);
    assert!(table.is_empty());
    let client = v4(10, 0, 0, 1);
    let server = v4(10, 0, 0, 2);
    let request = make_packet(client, server, 5555);
    let reply = PacketEvent {
        src_ip: server,
        dest_ip: client,
        src_port: 80,
        dest_port: 5555,
        len: 1000,
        ..request
    };
    let m = table.process_packet(&request);
    assert_eq!((m.packet_count, m.packets_fwd, m.bwd_divisor), (1, 1, 1));
    table.process_packet(&reply);
    let m = table.process_packet(&reply);
    assert_eq!(table.len(), 1);
    assert!(!table.is_empty());
    assert_eq!((m.packet_count, m.packets_fwd, m.bwd_divisor), (3, 1, 2));
    assert_eq!(m.bytes, 64 + 2000);
    assert_eq!(m.key, request.flow_key());
}

#[test]
fn recycled_slot_starts_afresh() {
    let mut table = FlowTable::new(1);
    let dest = v4(9, 9, 9, 9);
    for _ in 0..10 {
        table.process_packet(&make_packet(v4(1, 0, 0, 1), dest, 1));
    }
    let m = table.process_packet(&make_packet(v4(1, 0, 0, 2), dest, 2));
    assert_eq!(m.packet_count, 1);
    assert_eq!(m.sum_len, 64);
    assert_eq!(table.len(), 1);
    // The first flow was forgotten
    let m = table.process_packet(&make_packet(v4(1, 0, 0, 1), dest, 1));
    assert_eq!(m.packet_count, 1);
}

#[test]
fn eviction_follows_recency_over_many_flows() {
    let capacity = 8usize;
    let mut table = FlowTable::new(capacity);
    let dest = v4(200, 0, 0, 1);
    let mut recent: Vec<u16> = Vec::new();
    let mut x: u32 = 12345;
    for _ in 0..2000 {
        x = x.wrapping_mul(1_103_515_245).wrapping_add(12345);
        let port = ((x >> 16) % 20) as u16;
        let event = make_packet(v4(10, 1, 1, 1), dest, port);
        assert!(table.accepts(&event));
        table.process_packet(&event);
        recent.retain(|&p| p != port);
        recent.insert(0, port);
        recent.truncate(capacity);
        assert_eq!(table.len(), recent.len());
        for p in 0..20u16 {
            let key = make_packet(v4(10, 1, 1, 1), dest, p).flow_key();
            assert_eq!(table.contains(&key), recent.contains(&p));
        }
    }
}

#[test]
fn table_refuses_what_it_cannot_take() {
    let empty = FlowTable::new(0);
    let event = make_packet(v4(1, 0, 0, 1), v4(1, 0, 0, 2), 1);
    assert!(!empty.accepts(&event));
    let mut table = FlowTable::new(2);
    let huge = PacketEvent { len: u32::MAX, ..event };
    assert!(table.accepts(&huge));
    table.process_packet(&huge);
    assert!(!table.accepts(&huge));
    assert!(table.accepts(&PacketEvent { len: 1, ..event }));
}

#[test]
fn a_slot_fits_its_bound() {
    assert!(2 * std::mem::size_of::<r_nads::store::LruNode>() + 64 <= r_nads::store::SLOT_BYTES);
}
