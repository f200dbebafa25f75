use atomic_bomb_engine::ws_logic::{
    connection_deadline, errors_since, heartbeat_expired, heartbeat_timing, is_request_response,
    match_timeout_of, ramp_reaches_target, rate_history_capacity, should_reconnect, sum_counts,
    total_weight,
};
use atomic_bomb_engine::ws_model::{MessageMatcher, ReconnectPolicy, WsMode};
use atomic_bomb_engine::ws_stats::WsCounts;

#[test]
fn no_policy_never_reconnects() {
    let mut attempts: u32 = 0;
    assert!(!should_reconnect(&None, &mut attempts));
    assert_eq!(attempts, 0);
}

#[test]
fn reconnects_up_to_the_budget() {
    let policy = Some(ReconnectPolicy { max_attempts: 2, backoff_ms: 10 });
    let mut attempts: u32 = 0;
    assert!(should_reconnect(&policy, &mut attempts));
    assert_eq!(attempts, 1);
    assert!(should_reconnect(&policy, &mut attempts));
    assert_eq!(attempts, 2);
    assert!(!should_reconnect(&policy, &mut attempts));
    assert_eq!(attempts, 2);
    let zero = Some(ReconnectPolicy { max_attempts: 0, backoff_ms: 0 });
    let mut a: u32 = 0;
    assert!(!should_reconnect(&zero, &mut a));
}

#[test]
fn ramp_up_feasibility() {
    // 10 s, step 1 every 2 s: 1+2+3+4+5 = 15 connections.
    assert!(ramp_reaches_target(10, 1, 2, 15));
    assert!(!ramp_reaches_target(10, 1, 2, 16));
    // an interval of 0 counts as one second: 1+2+3 = 6
    assert!(ramp_reaches_target(3, 1, 0, 6));
    assert!(!ramp_reaches_target(3, 1, 0, 7));
    assert!(!ramp_reaches_target(100, 0, 1, 1));
    assert!(ramp_reaches_target(100, 0, 1, 0));
}

#[test]
fn rate_history_sizes() {
    assert_eq!(rate_history_capacity(None, 100, 60), 10);
    // 100 connections by steps of 10 every 5 s: reached after 50 s, 10 s left.
    assert_eq!(rate_history_capacity(Some((10, 5)), 100, 60), 10);
    assert_eq!(rate_history_capacity(Some((0, 0)), 5, 3), 0);
}

#[test]
fn total_weight_is_at_least_one() {
    assert_eq!(total_weight(&vec![]), 1);
    assert_eq!(total_weight(&vec![0, 0]), 1);
    assert_eq!(total_weight(&vec![1, 2, 3]), 6);
}

#[test]
fn deadlines() {
    let end: u64 = 10_000_000_000;
    assert_eq!(connection_deadline(1_000, Some(2), end), 2_000_001_000);
    assert_eq!(connection_deadline(1_000, Some(0), end), end);
    assert_eq!(connection_deadline(1_000, None, end), end);
    assert_eq!(connection_deadline(1_000, Some(100), end), end);
}

#[test]
fn heartbeat_settings() {
    assert_eq!(heartbeat_timing(0, 5), (1, 5));
    assert_eq!(heartbeat_timing(3, 0), (3, 1));
    assert!(heartbeat_expired(0, 2_000_000_001, 2));
    assert!(!heartbeat_expired(0, 2_000_000_000, 2));
    assert!(!heartbeat_expired(5, 1, 0));
}

#[test]
fn match_timeouts_by_mode() {
    assert_eq!(match_timeout_of(&WsMode::OneWay), None);
    let rr0 = WsMode::RequestResponse { match_by: MessageMatcher::Sequential, timeout_ms: 0 };
    assert_eq!(match_timeout_of(&rr0), None);
    let rr = WsMode::RequestResponse { match_by: MessageMatcher::Sequential, timeout_ms: 500 };
    assert_eq!(match_timeout_of(&rr), Some(500));
    assert!(is_request_response(&rr));
    assert!(!is_request_response(&WsMode::OneWay));
}

fn counts(name: &str, opened: u64, active: i32, err: i32, max_rt: u64, min_rt: u64) -> WsCounts {
    WsCounts {
        name: name.to_string(),
        url: String::new(),
        host: String::new(),
        path: String::new(),
        connections_opened: opened,
        connections_active: active,
        connections_failed: 1,
        connections_dropped: 2,
        heartbeat_timeouts: 3,
        reconnects: 4,
        total_requests: 10,
        messages_received: 9,
        successful_requests: 8,
        err_count: err,
        bytes_sent: 100,
        bytes_received: 200,
        max_response_time: max_rt,
        min_response_time: min_rt,
        avg_response_time: 5,
        match_timeouts: 1,
    }
}

#[test]
fn totals_over_endpoints() {
    let t = sum_counts(&vec![counts("a", 5, 2, 3, 40, 0), counts("b", 7, -1, 4, 30, 7)]);
    assert_eq!(t.connections_opened, 12);
    assert_eq!(t.connections_active, 1);
    assert_eq!(t.err_count, 7);
    assert_eq!(t.connections_failed, 2);
    assert_eq!(t.connections_dropped, 4);
    assert_eq!(t.heartbeat_timeouts, 6);
    assert_eq!(t.reconnects, 8);
    assert_eq!(t.messages_sent, 20);
    assert_eq!(t.messages_received, 18);
    assert_eq!(t.successful_requests, 16);
    assert_eq!(t.match_timeouts, 2);
    assert_eq!(t.max_response_time, 40);
    // the endpoint without a round trip (0) is skipped
    assert_eq!(t.min_response_time, 7);
}

#[test]
fn totals_without_round_trips() {
    let t = sum_counts(&vec![counts("a", 1, 0, 0, 0, 0)]);
    assert_eq!(t.min_response_time, 0);
    let empty = sum_counts(&vec![]);
    assert_eq!(empty.connections_opened, 0);
    assert_eq!(empty.max_response_time, 0);
    assert_eq!(empty.min_response_time, 0);
}

#[test]
fn errors_per_tick() {
    assert_eq!(errors_since(5, 3), 2);
    assert_eq!(errors_since(3, 5), 0);
    assert_eq!(errors_since(4, 4), 0);
}

#[test]
fn tick_errors_add_up_to_the_growth() {
    let totals: [i32; 4] = [2, 5, 5, 9];
    let mut last: i32 = 0;
    let mut reported: usize = 0;
    for t in totals {
        reported += errors_since(t, last);
        last = t;
    }
    assert_eq!(reported, 9);
}
