use atomic_bomb_engine::http_stats::{
    headers_size, is_success_status, pick_think_time, snapshot_api_counts, ApiEndpointStats, ThinkTime,
};

#[test]
fn success_statuses() {
    for code in [200u16, 201, 204, 208, 226, 300, 301, 304, 305, 307, 308] {
        assert!(is_success_status(code), "{}", code);
    }
    for code in [0u16, 100, 199, 209, 225, 227, 306, 309, 400, 404, 500, 503] {
        assert!(!is_success_status(code), "{}", code);
    }
}

#[test]
fn header_sizes() {
    assert_eq!(headers_size(&vec![]), 0);
    // "content-type: text/plain" -> 12 + 2 + 10 + 2
    assert_eq!(headers_size(&vec![(12, 10)]), 26);
    assert_eq!(headers_size(&vec![(12, 10), (0, 0)]), 30);
}

#[test]
fn think_time_within_bounds() {
    let tt = ThinkTime { min_millis: 10, max_millis: 20 };
    for _ in 0..50 {
        let d = pick_think_time(&tt).unwrap();
        assert!((10..=20).contains(&d));
    }
    assert_eq!(pick_think_time(&ThinkTime { min_millis: 5, max_millis: 5 }), Some(5));
    assert_eq!(pick_think_time(&ThinkTime { min_millis: 6, max_millis: 5 }), None);
}

#[test]
fn request_events() {
    let mut s = ApiEndpointStats::new("api".to_string(), "http://h.example:81/p/q".to_string(), "GET".to_string());
    assert_eq!(s.min_response_time, u64::MAX);
    s.on_loop_started();
    assert_eq!(s.concurrent_number, 1);
    s.on_response(200, 30);
    s.on_response(404, 10);
    assert_eq!(s.total_requests, 2);
    assert_eq!(s.err_count, 1);
    assert_eq!(s.max_response_time, 30);
    assert_eq!(s.min_response_time, 10);
    assert_eq!(s.total_response_time_ms, 40);
    s.on_bytes(100);
    s.on_bytes(23);
    assert_eq!(s.total_response_size, 123);
    s.on_success();
    assert_eq!(s.successful_requests, 1);
    s.on_error();
    assert_eq!(s.err_count, 2);
    s.on_send_failed();
    assert_eq!(s.total_requests, 3);
    assert_eq!(s.err_count, 3);
}

#[test]
fn api_snapshot() {
    let mut s = ApiEndpointStats::new("api".to_string(), "http://h.example:81/p/q".to_string(), "POST".to_string());
    s.on_response(200, 3);
    s.on_response(200, 4);
    let c = snapshot_api_counts(&s);
    assert_eq!(c.host, "h.example");
    assert_eq!(c.path, "/p/q");
    assert_eq!(c.method, "POST");
    assert_eq!(c.total_requests, 2);
    // 7 / 2 = 3.5, rounded up
    assert_eq!(c.avg_response_time, 4);
    assert_eq!(c.min_response_time, 3);
}
