use atomic_bomb_engine::pending::PendingState;
use atomic_bomb_engine::ws_error_stats::WsErrKind;
use atomic_bomb_engine::ws_stats::{
    add_wrapping, atomic_max, atomic_min, average_rounded, close_reason, exit_error, expire_waiting,
    record_receive, record_send, record_sent, register_waiting, snapshot_counts, stream_end_reason, sub_wrapping,
    ExitReason, WsEndpointStats,
};

fn stats() -> WsEndpointStats {
    WsEndpointStats::new("ep".to_string(), "ws://example.com:8080/chat?x=1".to_string())
}

#[test]
fn new_stats_are_zero() {
    let s = stats();
    assert_eq!(s.messages_sent, 0);
    assert_eq!(s.successful_requests, 0);
    assert_eq!(s.max_response_time, 0);
    assert_eq!(s.min_response_time, u64::MAX);
}

#[test]
fn connection_events() {
    let mut s = stats();
    s.on_handshake_ok();
    s.on_handshake_ok();
    assert_eq!(s.connections_opened, 2);
    assert_eq!(s.concurrent_number, 2);
    s.on_connection_end(&ExitReason::Normal);
    assert_eq!(s.concurrent_number, 1);
    assert_eq!(s.connections_dropped, 0);
    s.on_connection_end(&ExitReason::HeartbeatTimeout);
    assert_eq!(s.concurrent_number, 0);
    assert_eq!(s.connections_dropped, 1);
    assert_eq!(s.heartbeat_timeouts, 1);
    s.on_connection_end(&ExitReason::ServerClose(1000, "bye".to_string()));
    assert_eq!(s.concurrent_number, usize::MAX);
    assert_eq!(s.connections_dropped, 2);
    assert_eq!(s.heartbeat_timeouts, 1);
    s.on_handshake_failed();
    assert_eq!(s.connections_failed, 1);
    assert_eq!(s.err_count, 1);
    s.on_request_invalid();
    assert_eq!(s.connections_failed, 2);
    assert_eq!(s.err_count, 1);
    s.on_reconnect();
    assert_eq!(s.reconnects, 1);
}

#[test]
fn message_events() {
    let mut s = stats();
    s.on_message_sent(10);
    s.on_heartbeat_sent(4);
    assert_eq!(s.messages_sent, 1);
    assert_eq!(s.bytes_sent, 14);
    s.on_match_timeouts(3);
    assert_eq!(s.match_timeouts, 3);
    assert_eq!(s.err_count, 3);
    s.on_message_received(7);
    assert_eq!(s.messages_received, 1);
    assert_eq!(s.bytes_received, 7);
    s.on_matched(12);
    s.on_matched(4);
    assert_eq!(s.successful_requests, 2);
    assert_eq!(s.max_response_time, 12);
    assert_eq!(s.min_response_time, 4);
    assert_eq!(s.total_response_time_ms, 16);
    s.on_error();
    assert_eq!(s.err_count, 4);
}

#[test]
fn request_response_round_trip() {
    let mut s = stats();
    let mut p = PendingState::new();
    record_send(&mut s, &mut p, true, Some("id-1".to_string()), 5, 0);
    assert_eq!(s.messages_sent, 1);
    assert_eq!(s.bytes_sent, 5);
    let rtt = record_receive(&mut s, &mut p, true, Some("id-1".to_string()), 8, 5_000_000);
    assert_eq!(rtt, Some(5));
    assert_eq!(s.messages_received, 1);
    assert_eq!(s.successful_requests, 1);
    assert_eq!(s.max_response_time, 5);
    assert_eq!(s.min_response_time, 5);
    // a second reply with the same key finds nothing waiting
    let again = record_receive(&mut s, &mut p, true, Some("id-1".to_string()), 8, 6_000_000);
    assert_eq!(again, None);
    assert_eq!(s.successful_requests, 1);
    assert_eq!(s.messages_received, 2);
}

#[test]
fn one_way_successes_are_sends() {
    let mut s = stats();
    let mut p = PendingState::new();
    record_send(&mut s, &mut p, false, Some("k".to_string()), 3, 0);
    assert_eq!(p.match_one("k"), None);
    assert_eq!(s.successful_requests, 1);
    let rtt = record_receive(&mut s, &mut p, false, None, 3, 10);
    assert_eq!(rtt, None);
    assert_eq!(s.successful_requests, 1);
    assert_eq!(s.messages_received, 1);
    record_sent(&mut s, false, 4);
    assert_eq!(s.successful_requests, 2);
    assert_eq!(s.messages_sent, 2);
    record_sent(&mut s, true, 4);
    assert_eq!(s.successful_requests, 2);
    assert_eq!(s.bytes_sent, 11);
}

#[test]
fn full_waiting_list_counts_a_match_timeout() {
    let mut s = stats();
    let mut p = PendingState::new();
    for i in 0..100000u64 {
        assert!(p.register("x".to_string(), i));
    }
    record_send(&mut s, &mut p, true, Some("y".to_string()), 1, 0);
    assert_eq!(s.match_timeouts, 1);
    assert_eq!(s.err_count, 1);
    assert_eq!(s.messages_sent, 1);
    assert_eq!(p.match_one("y"), None);
}

#[test]
fn rounded_averages() {
    assert_eq!(average_rounded(0, 0), 0);
    assert_eq!(average_rounded(7, 2), 4);
    assert_eq!(average_rounded(10, 4), 3);
    assert_eq!(average_rounded(9, 4), 2);
    assert_eq!(average_rounded(u64::MAX, 1), u64::MAX);
}

#[test]
fn snapshot_reads_the_counters() {
    let mut s = stats();
    let c = snapshot_counts(&s);
    assert_eq!(c.min_response_time, 0);
    assert_eq!(c.avg_response_time, 0);
    assert_eq!(c.host, "example.com");
    assert_eq!(c.path, "/chat");
    s.on_matched(2);
    s.on_matched(3);
    s.on_handshake_ok();
    let c = snapshot_counts(&s);
    assert_eq!(c.name, "ep");
    assert_eq!(c.successful_requests, 2);
    assert_eq!(c.min_response_time, 2);
    assert_eq!(c.max_response_time, 3);
    assert_eq!(c.avg_response_time, 3);
    assert_eq!(c.connections_active, 1);
}

#[test]
fn snapshot_of_an_unparsable_url() {
    let s = WsEndpointStats::new("ep".to_string(), "not a url".to_string());
    let c = snapshot_counts(&s);
    assert_eq!(c.host, "");
    assert_eq!(c.path, "");
}

#[test]
fn exit_reasons() {
    assert!(exit_error(&ExitReason::Normal).is_none());
    let (k, c, m) = exit_error(&ExitReason::HeartbeatTimeout).unwrap();
    assert_eq!(k, WsErrKind::HeartbeatTimeout);
    assert_eq!(c, 0);
    assert_eq!(m, "心跳超时");
    let (k, c, m) = exit_error(&ExitReason::ServerClose(1001, "away".to_string())).unwrap();
    assert_eq!(k, WsErrKind::ServerClose);
    assert_eq!(c, 1001);
    assert_eq!(m, "away");
    let (k, c, m) = exit_error(&ExitReason::StreamError("reset".to_string())).unwrap();
    assert_eq!(k, WsErrKind::Stream);
    assert_eq!(c, 0);
    assert_eq!(m, "reset");
}

#[test]
fn wrapping_and_extremes() {
    assert_eq!(add_wrapping(usize::MAX, 1), 0);
    assert_eq!(sub_wrapping(0, 1), usize::MAX);
    let mut m: u64 = 5;
    atomic_max(&mut m, 3);
    assert_eq!(m, 5);
    atomic_max(&mut m, 9);
    assert_eq!(m, 9);
    atomic_min(&mut m, 12);
    assert_eq!(m, 9);
    atomic_min(&mut m, 1);
    assert_eq!(m, 1);
}

#[test]
fn close_frames_and_stream_ends() {
    match close_reason(Some((1000, "done".to_string()))) {
        ExitReason::ServerClose(c, m) => {
            assert_eq!(c, 1000);
            assert_eq!(m, "done");
        }
        other => panic!("unexpected {:?}", other),
    }
    match close_reason(None) {
        ExitReason::ServerClose(c, m) => {
            assert_eq!(c, 0);
            assert_eq!(m, "对端发送 close frame");
        }
        other => panic!("unexpected {:?}", other),
    }
    match stream_end_reason() {
        ExitReason::ServerClose(c, m) => {
            assert_eq!(c, 0);
            assert_eq!(m, "对端关闭(无 frame)");
        }
        other => panic!("unexpected {:?}", other),
    }
}

#[test]
fn expired_sends_count_as_match_timeouts() {
    let mut s = stats();
    let mut p = PendingState::new();
    register_waiting(&mut s, &mut p, true, Some("a".to_string()), 0);
    register_waiting(&mut s, &mut p, true, Some("b".to_string()), 900);
    register_waiting(&mut s, &mut p, true, None, 0);
    assert_eq!(s.messages_sent, 0);
    assert_eq!(expire_waiting(&mut s, &mut p, 500, 1000), 1);
    assert_eq!(s.match_timeouts, 1);
    assert_eq!(s.err_count, 1);
    assert_eq!(p.match_one("a"), None);
    assert_eq!(p.match_one("b"), Some(900));
}
