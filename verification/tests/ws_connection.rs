use atomic_bomb_engine::pending::PendingState;
use atomic_bomb_engine::prebuilt::EndpointPrebuilt;
use atomic_bomb_engine::ws_connection::{
    connect_step, on_message_received, register_send, ConnectAction, ConnectEvent,
};
use atomic_bomb_engine::ws_error_stats::WsErrKind;
use atomic_bomb_engine::ws_model::{MessageMatcher, ReconnectPolicy, WsMode};
use atomic_bomb_engine::ws_stats::{ExitReason, WsEndpointStats};
use handlebars::Handlebars;
use serde_json::Value;

fn stats() -> WsEndpointStats {
    WsEndpointStats::new("ep".to_string(), "ws://h/x".to_string())
}

fn policy(max: u32) -> Option<ReconnectPolicy> {
    Some(ReconnectPolicy { max_attempts: max, backoff_ms: 250 })
}

#[test]
fn setup_failure_waits_a_second() {
    let mut s = stats();
    let mut attempts: u32 = 0;
    let (action, error) = connect_step(&policy(1), &mut attempts, &mut s, ConnectEvent::SetupFailed);
    assert_eq!(action, ConnectAction::RetryAfter(1000));
    assert!(error.is_none());
    assert_eq!(attempts, 0);
    assert_eq!(s.connections_failed, 0);
}

#[test]
fn opened_connection_runs() {
    let mut s = stats();
    let mut attempts: u32 = 0;
    let (action, error) = connect_step(&None, &mut attempts, &mut s, ConnectEvent::HandshakeOk);
    assert_eq!(action, ConnectAction::Run);
    assert!(error.is_none());
    assert_eq!(s.connections_opened, 1);
    assert_eq!(s.concurrent_number, 1);
}

#[test]
fn failed_handshakes_retry_within_the_budget() {
    let mut s = stats();
    let mut attempts: u32 = 0;
    let (action, error) =
        connect_step(&policy(1), &mut attempts, &mut s, ConnectEvent::HandshakeFailed("refused".to_string()));
    assert_eq!(action, ConnectAction::RetryAfter(250));
    let (kind, code, msg) = error.unwrap();
    assert_eq!(kind, WsErrKind::Handshake);
    assert_eq!(code, 0);
    assert_eq!(msg, "refused");
    assert_eq!(attempts, 1);
    assert_eq!(s.connections_failed, 1);
    assert_eq!(s.err_count, 1);
    assert_eq!(s.reconnects, 1);
    let (action, _) =
        connect_step(&policy(1), &mut attempts, &mut s, ConnectEvent::HandshakeFailed("refused".to_string()));
    assert_eq!(action, ConnectAction::Stop);
    assert_eq!(attempts, 1);
    assert_eq!(s.connections_failed, 2);
    assert_eq!(s.reconnects, 1);
}

#[test]
fn invalid_request_is_an_internal_error() {
    let mut s = stats();
    let mut attempts: u32 = 0;
    let (action, error) =
        connect_step(&None, &mut attempts, &mut s, ConnectEvent::RequestInvalid("bad url".to_string()));
    assert_eq!(action, ConnectAction::Stop);
    let (kind, _, msg) = error.unwrap();
    assert_eq!(kind, WsErrKind::Internal);
    assert_eq!(msg, "bad url");
    assert_eq!(s.connections_failed, 1);
    assert_eq!(s.err_count, 0);
    let mut a2: u32 = 0;
    let (action, _) =
        connect_step(&policy(3), &mut a2, &mut s, ConnectEvent::RequestInvalid("bad url".to_string()));
    assert_eq!(action, ConnectAction::RetryAfter(250));
    assert_eq!(a2, 1);
    assert_eq!(s.reconnects, 0);
}

#[test]
fn connection_ends() {
    let mut s = stats();
    let mut attempts: u32 = 0;
    connect_step(&policy(5), &mut attempts, &mut s, ConnectEvent::HandshakeOk);
    let (action, error) = connect_step(&policy(5), &mut attempts, &mut s, ConnectEvent::Ended(ExitReason::Normal));
    assert_eq!(action, ConnectAction::Stop);
    assert!(error.is_none());
    assert_eq!(s.concurrent_number, 0);
    assert_eq!(s.connections_dropped, 0);
    connect_step(&policy(5), &mut attempts, &mut s, ConnectEvent::HandshakeOk);
    let (action, error) =
        connect_step(&policy(5), &mut attempts, &mut s, ConnectEvent::Ended(ExitReason::HeartbeatTimeout));
    assert_eq!(action, ConnectAction::RetryAfter(250));
    let (kind, _, msg) = error.unwrap();
    assert_eq!(kind, WsErrKind::HeartbeatTimeout);
    assert_eq!(msg, "心跳超时");
    assert_eq!(s.heartbeat_timeouts, 1);
    assert_eq!(s.connections_dropped, 1);
    assert_eq!(s.reconnects, 1);
    assert_eq!(attempts, 1);
    connect_step(&policy(5), &mut attempts, &mut s, ConnectEvent::HandshakeOk);
    let (_, error) = connect_step(
        &policy(5),
        &mut attempts,
        &mut s,
        ConnectEvent::Ended(ExitReason::ServerClose(1008, "policy".to_string())),
    );
    let (kind, code, msg) = error.unwrap();
    assert_eq!(kind, WsErrKind::ServerClose);
    assert_eq!(code, 1008);
    assert_eq!(msg, "policy");
    assert_eq!(s.connections_dropped, 2);
    assert_eq!(s.heartbeat_timeouts, 1);
}

fn jsonpath_prebuilt() -> EndpointPrebuilt {
    let mode = WsMode::RequestResponse {
        match_by: MessageMatcher::JsonPath { send_path: "$.id".to_string(), recv_path: "$.id".to_string() },
        timeout_ms: 100,
    };
    EndpointPrebuilt::build("c", None, None, None, &mode, Handlebars::new()).unwrap()
}

#[test]
fn sends_and_replies_pair_by_key() {
    let p = jsonpath_prebuilt();
    let mut s = stats();
    let mut pending = PendingState::new();
    let v: Value = serde_json::from_str("{\"id\":\"a\"}").unwrap();
    register_send(&mut s, &mut pending, true, &p.matcher, &Some(v), 1_000_000);
    s.on_message_sent(9);
    let (rtt, post) =
        on_message_received(&mut s, &mut pending, true, &p.matcher, b"{\"id\":\"a\"}", true, 4_000_000, true, 1);
    assert_eq!(rtt, Some(3));
    assert!(post);
    assert_eq!(s.successful_requests, 1);
    assert_eq!(s.messages_received, 1);
    let (rtt, post) =
        on_message_received(&mut s, &mut pending, true, &p.matcher, b"{\"id\":\"a\"}", false, 5_000_000, true, 1);
    assert_eq!(rtt, None);
    assert!(!post);
    assert_eq!(s.successful_requests, 1);
}

#[test]
fn one_way_mode_registers_nothing() {
    let p = jsonpath_prebuilt();
    let mut s = stats();
    let mut pending = PendingState::new();
    let v: Value = serde_json::from_str("{\"id\":\"a\"}").unwrap();
    register_send(&mut s, &mut pending, false, &p.matcher, &Some(v), 0);
    assert_eq!(pending.match_one("a"), None);
    let (rtt, post) = on_message_received(&mut s, &mut pending, false, &p.matcher, b"x", true, 1, false, 3);
    assert_eq!(rtt, None);
    assert!(!post);
    assert_eq!(s.successful_requests, 0);
    assert_eq!(s.messages_received, 1);
}

#[test]
fn a_task_run_closes_what_it_opens() {
    let mut s = stats();
    let mut attempts: u32 = 0;
    let p = policy(5);
    let events = vec![
        ConnectEvent::HandshakeFailed("refused".to_string()),
        ConnectEvent::SetupFailed,
        ConnectEvent::RequestInvalid("bad url".to_string()),
        ConnectEvent::HandshakeOk,
        ConnectEvent::Ended(ExitReason::HeartbeatTimeout),
        ConnectEvent::HandshakeOk,
        ConnectEvent::Ended(ExitReason::Normal),
    ];
    let mut last = ConnectAction::Run;
    for e in events {
        let (action, _) = connect_step(&p, &mut attempts, &mut s, e);
        last = action;
    }
    assert_eq!(last, ConnectAction::Stop);
    assert_eq!(s.concurrent_number, 0);
    assert_eq!(s.connections_opened + s.connections_failed, 4);
    assert_eq!(s.connections_opened, 2);
    assert_eq!(s.connections_dropped, 1);
}
