use atomic_bomb_engine::http_run::{
    apply_assert_outcome, body_outcome, http_ramp_reaches_target, http_rate_history_capacity, record_body_chunk,
    record_error, record_response, record_send_failure, record_success, BodyOutcome,
};
use atomic_bomb_engine::http_stats::ApiEndpointStats;

fn stats(name: &str) -> ApiEndpointStats {
    ApiEndpointStats::new(name.to_string(), "http://h/x".to_string(), "GET".to_string())
}

#[test]
fn http_ramp_feasibility() {
    // 10 s, 1 more request every 2 s: 1+2+3+4+5 = 15
    assert!(http_ramp_reaches_target(10, 1, 2, 15));
    assert!(!http_ramp_reaches_target(10, 1, 2, 16));
    assert!(http_ramp_reaches_target(3, 2, 1, 12));
    assert!(!http_ramp_reaches_target(3, 2, 5, 1));
}

#[test]
fn http_rate_history() {
    assert_eq!(http_rate_history_capacity(None, 100, 60), 10);
    assert_eq!(http_rate_history_capacity(Some((10, 5)), 100, 60), 10);
    assert_eq!(http_rate_history_capacity(Some((3, 2)), 10, 4), 0);
}

#[test]
fn responses_count_for_endpoint_and_run() {
    let mut api = stats("a");
    let mut total = stats("total");
    record_response(&mut api, &mut total, 200, 12, 40);
    record_body_chunk(&mut api, &mut total, 10);
    record_response(&mut api, &mut total, 500, 3, 20);
    for s in [&api, &total] {
        assert_eq!(s.total_requests, 2);
        assert_eq!(s.err_count, 1);
        assert_eq!(s.total_response_size, 70);
        assert_eq!(s.max_response_time, 12);
        assert_eq!(s.min_response_time, 3);
    }
    record_send_failure(&mut api, &mut total);
    record_error(&mut api, &mut total);
    record_success(&mut api, &mut total);
    assert_eq!(api.total_requests, 3);
    assert_eq!(total.err_count, 3);
    assert_eq!(total.successful_requests, 1);
}

#[test]
fn body_outcomes() {
    assert_eq!(body_outcome(true, false, false, 0), BodyOutcome::Success);
    assert_eq!(body_outcome(true, false, true, 5), BodyOutcome::Assert);
    assert_eq!(body_outcome(true, false, true, 0), BodyOutcome::Done);
    assert_eq!(body_outcome(true, true, false, 5), BodyOutcome::Done);
    assert_eq!(body_outcome(false, false, false, 5), BodyOutcome::Done);
}

#[test]
fn assertion_outcomes_are_counted() {
    let mut api = stats("a");
    let mut total = stats("total");
    apply_assert_outcome(&mut api, &mut total, 2, false);
    assert_eq!(api.err_count, 2);
    assert_eq!(total.err_count, 2);
    assert_eq!(api.successful_requests, 0);
    apply_assert_outcome(&mut api, &mut total, 0, true);
    assert_eq!(api.successful_requests, 1);
    assert_eq!(total.successful_requests, 1);
}
