use r_nads::addr::IpAddr;
use r_nads::blocklist::{Blocklist, Verdict};
use r_nads::config::{
    capture_mode, needs_training, select_capture, worker_capacity, AppConfig, CaptureError,
    CaptureSource, ConfigWatch, SystemConfig,
};
use r_nads::dashboard::DASHBOARD_HTML;
use r_nads::meter::{report_due, RateMeter, RateSample};
use r_nads::mitigation::{
    check_reply, client_address, handle_check, real_ip_text, route, RequestHeader, Route,
};
use r_nads::text::{eq_ignore_case, same_text, trim};
use r_nads::training::{collect_step, pair_plan, CollectStep, PairPlan, SimpleRand};

const SEC: u128 = 1_000_000_000;

fn header(field: &str, value: &str) -> RequestHeader {
    RequestHeader { field: field.as_bytes().to_vec(), value: value.as_bytes().to_vec() }
}

fn config() -> SystemConfig {
    SystemConfig {
        mode: "classify".to_string(),
        workers: 1,
        capacity: 100,
        database_path: "test_anomalies.db".to_string(),
        log_path: "test_r-nads.log".to_string(),
        block_list_ttl: 30,
        nginx_bind: "127.0.0.1:18085".to_string(),
        capture_source: "mock".to_string(),
        pps: 10,
        flows: 10,
        pcap_file: None,
        interface: None,
        training_samples: 10,
        mitigation_mode: "monitor".to_string(),
        model_path: "model.json".to_string(),
    }
}

#[test]
fn test_mitigation_server_routes() {
    let mut cfg = config();
    let mut blocklist = Blocklist::new();

    // Test 1: GET /check (should return 200 OK)
    assert_eq!(route("/check"), Route::Check);
    let client = client_address(None, Some(IpAddr::V4(0x7f00_0001)));
    let reply = handle_check(&mut blocklist, client, 0, cfg.block_list_ttl, &cfg.mitigation_mode);
    assert_eq!(reply.status_code, 200);
    assert_eq!(reply.mode_header, "X-RNADS-Mode: Monitoring");
    assert_eq!(reply.status_header, "X-RNADS-Detection-Status: Allowed");
    assert_eq!(reply.body, "OK");

    // Test 2: GET /svdd_visualization.html (should return 200 OK and HTML)
    let page = route("/svdd_visualization.html");
    assert_eq!(page, Route::Dashboard);
    assert_eq!(page.page_status(), 200);
    assert_eq!(page.content_type(), Some("Content-Type: text/html"));
    assert!(page.page_body().unwrap().contains("R-NADS // THREAT INTELLIGENCE"));

    // Test 3: GET /api/stats (should return 200 OK and JSON)
    let stats = route("/api/stats");
    assert_eq!(stats, Route::Stats);
    assert_eq!(stats.page_status(), 200);
    assert_eq!(stats.content_type(), Some("Content-Type: application/json"));

    // Test 4: Blocked IP handling
    let test_ip = IpAddr::from_v4_octets([192, 51, 100, 5]);
    assert_eq!(blocklist.observe(test_ip, true, 0), Verdict::Blocked);
    cfg.mitigation_mode = "mitigate".to_string();
    let headers = vec![header("Host", "127.0.0.1:18085"), header("X-Real-IP", "192.51.100.5")];
    assert_eq!(real_ip_text(&headers), Some(b"192.51.100.5".to_vec()));
    let client = client_address(Some(test_ip), Some(IpAddr::V4(0x7f00_0001)));
    let reply = handle_check(&mut blocklist, client, 0, cfg.block_list_ttl, &cfg.mitigation_mode);
    assert_eq!(reply.status_code, 403);
    assert_eq!(reply.status_header, "X-RNADS-Detection-Status: Blocked");
    assert_eq!(reply.body, "Forbidden");
}

#[test]
fn other_routes() {
    assert_eq!(route("/api/anomalies"), Route::Anomalies);
    assert_eq!(route("/dashboard"), Route::Dashboard);
    assert_eq!(route("/dashboard.html"), Route::Dashboard);
    assert_eq!(route("/check/"), Route::NotFound);
    assert_eq!(route(""), Route::NotFound);
    assert_eq!(route("/check?ip=1"), Route::NotFound);
    assert_eq!(Route::NotFound.page_status(), 404);
    assert_eq!(Route::NotFound.page_body(), Some("Not Found"));
    assert_eq!(Route::Dashboard.page_body(), Some(DASHBOARD_HTML));
    assert_eq!(Route::Check.page_body(), None);
    assert_eq!(Route::Stats.page_body(), None);
    assert_eq!(Route::Anomalies.page_body(), None);
    assert_eq!(Route::NotFound.content_type(), None);
    assert_eq!(Route::Check.content_type(), None);
    assert_eq!(Route::Anomalies.content_type(), Some("Content-Type: application/json"));
    assert_eq!(Route::Anomalies.page_status(), 200);
}

#[test]
fn replies_for_every_case() {
    let r = check_reply(true, "monitor");
    assert_eq!((r.status_code, r.body), (200, "OK"));
    assert_eq!(r.anomaly_header, "X-RNADS-Anomaly-Detected: Yes");
    assert_eq!(r.status_header, "X-RNADS-Detection-Status: Allowed");
    let r = check_reply(false, "mitigate");
    assert_eq!((r.status_code, r.body), (200, "OK"));
    assert_eq!(r.mode_header, "X-RNADS-Mode: Mitigation");
    assert_eq!(r.anomaly_header, "X-RNADS-Anomaly-Detected: No");
    let r = check_reply(true, "mitigate");
    assert_eq!((r.status_code, r.body), (403, "Forbidden"));
    assert_eq!(r.anomaly_header, "X-RNADS-Anomaly-Detected: Yes");
}

#[test]
fn client_is_found_in_headers() {
    assert_eq!(real_ip_text(&vec![]), None);
    assert_eq!(real_ip_text(&vec![header("X-Real-IPs", "1.1.1.1")]), None);
    let headers = vec![
        header("Accept", "*/*"),
        header("x-rEAL-ip", " \t 1.2.3.4 \r\n"),
        header("X-Real-IP", "5.6.7.8"),
    ];
    assert_eq!(real_ip_text(&headers), Some(b"1.2.3.4".to_vec()));
    assert_eq!(real_ip_text(&vec![header("X-REAL-IP", "   ")]), Some(vec![]));
    let a = IpAddr::V4(1);
    let b = IpAddr::V6(2);
    assert_eq!(client_address(Some(a), Some(b)), a);
    assert_eq!(client_address(None, Some(b)), b);
    assert_eq!(client_address(None, None), IpAddr::from_v4_octets([127, 0, 0, 1]));
}

#[test]
fn text_helpers() {
    assert!(same_text("mitigate", "mitigate"));
    assert!(!same_text("mitigate", "Mitigate"));
    assert!(eq_ignore_case(b"AbC-1", b"aBc-1"));
    assert!(!eq_ignore_case(b"abc", b"abcd"));
    assert!(!eq_ignore_case(b"[", b"{"));
    assert_eq!(trim(b"\x0b\x0c a b\n"), b"a b".to_vec());
    assert_eq!(trim(b""), Vec::<u8>::new());
}

#[test]
fn blocks_run_out_and_are_dropped() {
    let mut list = Blocklist::new();
    let ip = IpAddr::V4(9);
    list.observe(ip, true, 5 * SEC);
    assert!(list.is_blocked(ip, 5 * SEC, 30));
    assert!(list.is_blocked(ip, 35 * SEC - 1, 30));
    assert_eq!(list.len(), 1);
    assert!(!list.is_blocked(ip, 35 * SEC, 30));
    assert_eq!(list.len(), 0);
    assert!(!list.is_blocked(ip, 6 * SEC, 30));
    // A clock reading before the block counts as no time at all
    list.observe(ip, true, 5 * SEC);
    assert!(list.is_blocked(ip, SEC, 1));
    assert!(!list.is_blocked(ip, SEC, 0));
}

#[test]
fn normal_behaviour_lifts_a_block() {
    let mut list = Blocklist::new();
    let ip = IpAddr::V6(77);
    let other = IpAddr::V4(77);
    assert_eq!(list.observe(ip, false, 0), Verdict::Unchanged);
    assert_eq!(list.observe(ip, true, 1), Verdict::Blocked);
    assert_eq!(list.observe(other, true, 1), Verdict::Blocked);
    assert_eq!(list.observe(ip, false, 2), Verdict::Unblocked);
    let reply = handle_check(&mut list, ip, 3, 3600, "mitigate");
    assert_eq!((reply.status_code, reply.body), (200, "OK"));
    assert_eq!(reply.anomaly_header, "X-RNADS-Anomaly-Detected: No");
    assert!(!list.is_blocked(ip, 3, 3600));
    assert!(list.is_blocked(other, 3, 3600));
    assert!(list.has_room());
}

#[test]
fn listed_clients_show_remaining_seconds() {
    let mut list = Blocklist::new();
    assert!(list.clients(0, 30).is_empty());
    let (a, b, c) = (IpAddr::V4(1), IpAddr::V6(2), IpAddr::V4(3));
    list.observe(a, true, 10 * SEC);
    list.observe(b, true, 20 * SEC);
    list.observe(c, true, 0);
    list.observe(a, true, 12 * SEC);
    let clients = list.clients(32 * SEC - 1, 30);
    assert_eq!(clients.len(), 3);
    let of = |ip: IpAddr| clients.iter().find(|x| x.ip == ip).unwrap().remaining_seconds;
    assert_eq!(of(a), 30 - 19);
    assert_eq!(of(b), 30 - 11);
    assert_eq!(of(c), 0);
}

#[test]
fn capture_sources() {
    let none = None;
    let some = Some("x".to_string());
    match select_capture("mock", 5, 6, &none, &none) {
        Ok(CaptureSource::Mock { pps, flows }) => assert_eq!((pps, flows), (5, 6)),
        other => panic!("{:?}", other),
    }
    match select_capture("pcap", 5, 6, &some, &none) {
        Ok(CaptureSource::Pcap { path }) => assert_eq!(path, "x"),
        other => panic!("{:?}", other),
    }
    match select_capture("live", 5, 6, &none, &some) {
        Ok(CaptureSource::Live { interface }) => assert_eq!(interface, "x"),
        other => panic!("{:?}", other),
    }
    let error = select_capture("pcap", 5, 6, &none, &some).unwrap_err();
    assert!(matches!(error, CaptureError::MissingPcapFile));
    assert_eq!(
        error.message(),
        "Error: pcap_file path must be specified in config.toml for pcap capture source."
    );
    let error = select_capture("live", 5, 6, &some, &none).unwrap_err();
    assert!(matches!(error, CaptureError::MissingInterface));
    assert_eq!(
        error.message(),
        "Error: interface must be specified in config.toml for live capture source."
    );
    let error = select_capture("wire", 5, 6, &some, &some).unwrap_err();
    assert_eq!(error.message(), "Unknown capture source: wire");
    assert_eq!(error.flag_message(), "Unknown capture mode: wire");
    assert_eq!(
        CaptureError::MissingPcapFile.flag_message(),
        "Error: PCAP file path must be specified with --pcap-file in pcap mode."
    );
    assert_eq!(
        CaptureError::MissingInterface.flag_message(),
        "Error: Interface name must be specified with --interface in live mode."
    );
}

#[test]
fn modes() {
    assert_eq!(capture_mode("train", true), "pcap");
    assert_eq!(capture_mode("train", false), "mock");
    assert_eq!(capture_mode("live", true), "live");
    assert!(needs_training("train", true));
    assert!(needs_training("classify", false));
    assert!(!needs_training("classify", true));
    assert_eq!(worker_capacity(65536, 4), 16384);
    assert_eq!(worker_capacity(10, 3), 3);
    let mut app = AppConfig { system: config() };
    app.override_mode(None);
    assert_eq!(app.system.mode, "classify");
    app.override_mode(Some("train".to_string()));
    assert_eq!(app.system.mode, "train");
    assert_eq!(app.system.capacity, 100);
}

#[test]
fn each_change_of_the_file_is_noticed_once() {
    assert_eq!(ConfigWatch::new(None, 7).last_modified, 7);
    let mut watch = ConfigWatch::new(Some(-3), 7);
    assert!(!watch.observe(None));
    assert!(!watch.observe(Some(-3)));
    assert!(watch.observe(Some(5)));
    assert!(!watch.observe(Some(5)));
    assert!(!watch.observe(Some(4)));
    assert_eq!(watch.last_modified, 5);
}

#[test]
fn meter_samples_once_per_period() {
    let mut meter = RateMeter::new(100, 0, 2);
    assert_eq!(meter.sample(150, 2 * SEC - 1), None);
    assert_eq!(meter.sample(150, 2 * SEC), Some(RateSample { packets: 50, nanos: 2 * SEC }));
    assert_eq!(meter.sample(160, 3 * SEC), None);
    assert_eq!(meter.sample(170, 5 * SEC), Some(RateSample { packets: 20, nanos: 3 * SEC }));
    assert!(report_due(50_000, 50_000));
    assert!(!report_due(50_001, 50_000));
}

#[test]
fn training_steps() {
    assert_eq!(collect_step(9, 10, true), CollectStep::Collect);
    assert_eq!(collect_step(9, 10, false), CollectStep::Abort);
    assert_eq!(collect_step(10, 10, false), CollectStep::Train);
    assert_eq!(pair_plan(0), None);
    assert_eq!(pair_plan(2), Some(PairPlan { subset: 2, pairs: 1, median: 0 }));
    assert_eq!(pair_plan(5), Some(PairPlan { subset: 5, pairs: 10, median: 5 }));
    assert_eq!(
        pair_plan(10_000),
        Some(PairPlan { subset: 2000, pairs: 1_999_000, median: 999_500 })
    );
}

#[test]
fn random_numbers_are_reproducible() {
    let mut a = SimpleRand::new();
    let mut state: u64 = 1337;
    for _ in 0..1000 {
        state = state.wrapping_mul(6364136223846793005).wrapping_add(1);
        let bits = a.next_bits();
        assert_eq!(bits, state >> 11);
        assert!(bits < 1 << 53);
    }
    assert_eq!(a.state, state);
}
