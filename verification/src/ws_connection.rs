//! The decisions of one WebSocket connection task between connections: what
//! each outcome of connecting (or of a connection's end) counts, which error it
//! records, and whether to connect again.  The task itself performs the setup
//! calls, the handshake and the connection, and reports what happened.
use vstd::prelude::*;
use crate::ws_error_stats::WsErrKind;
use crate::ws_logic::should_reconnect;
use crate::ws_model::ReconnectPolicy;
use crate::pending::PendingState;
use crate::prebuilt::{
    extract_recv_id_prebuilt, extract_send_id_prebuilt, matcher_safe, recv_key_of, send_key_of, PrebuiltMatcher,
};
use crate::ws_stats::{
    exit_error, exit_error_spec, receive_queues, receive_rtt, receive_stats, record_receive, register_waiting,
    send_queues, send_refused, wait_stats, wrap_add, wrap_sub, ExitReason, WsEndpointStats,
};
use serde_json::Value;

verus! {

broadcast use vstd::string::group_string_axioms;

/// What happened to a connection task.
#[derive(Debug)]
pub enum ConnectEvent {
    /// The endpoint's setup calls failed.
    SetupFailed,
    /// The handshake request could not be built (the message says why).
    RequestInvalid(String),
    /// The handshake failed (the message says why).
    HandshakeFailed(String),
    /// The handshake succeeded.
    HandshakeOk,
    /// An open connection ended.
    Ended(ExitReason),
}

/// What a connection task does next.
#[derive(Debug, Clone, Copy, PartialEq, Eq, Structural)]
pub enum ConnectAction {
    /// Wait this many milliseconds, then connect again.
    RetryAfter(u64),
    /// Run the connection that was just opened.
    Run,
    /// End the task.
    Stop,
}

/// An error to record, as text.
pub open spec fn error_view(e: Option<(WsErrKind, u16, String)>) -> Option<(WsErrKind, u16, Seq<char>)> {
    match e {
        Some((k, c, m)) => Some((k, c, m@)),
        None => None,
    }
}

/// Whether the policy allows one more reconnection after `attempts`.
pub open spec fn may_retry(policy: Option<ReconnectPolicy>, attempts: u32) -> bool {
    match policy {
        Some(p) => attempts < p.max_attempts,
        None => false,
    }
}

/// The action after a failure: wait the policy's backoff and connect again
/// when the policy allows it, else stop.
pub open spec fn retry_action(policy: Option<ReconnectPolicy>, attempts: u32) -> ConnectAction {
    match policy {
        Some(p) => if attempts < p.max_attempts {
            ConnectAction::RetryAfter(p.backoff_ms)
        } else {
            ConnectAction::Stop
        },
        None => ConnectAction::Stop,
    }
}

/// The attempts counted after a failure.
pub open spec fn attempts_after_failure(policy: Option<ReconnectPolicy>, attempts: u32) -> u32 {
    if may_retry(policy, attempts) {
        (attempts + 1) as u32
    } else {
        attempts
    }
}

/// The next action, the error to record and the attempts counted, for an event.
pub open spec fn connect_outcome(policy: Option<ReconnectPolicy>, attempts: u32, event: ConnectEvent) -> (
    ConnectAction,
    Option<(WsErrKind, u16, Seq<char>)>,
    u32,
) {
    match event {
        ConnectEvent::SetupFailed => (ConnectAction::RetryAfter(1000), None, attempts),
        ConnectEvent::HandshakeOk => (ConnectAction::Run, None, attempts),
        ConnectEvent::RequestInvalid(m) => (
            retry_action(policy, attempts),
            Some((WsErrKind::Internal, 0u16, m@)),
            attempts_after_failure(policy, attempts),
        ),
        ConnectEvent::HandshakeFailed(m) => (
            retry_action(policy, attempts),
            Some((WsErrKind::Handshake, 0u16, m@)),
            attempts_after_failure(policy, attempts),
        ),
        ConnectEvent::Ended(reason) => match reason {
            ExitReason::Normal => (ConnectAction::Stop, None, attempts),
            _ => (
                retry_action(policy, attempts),
                exit_error_spec(reason),
                attempts_after_failure(policy, attempts),
            ),
        },
    }
}

/// The counters after an event.
pub open spec fn connect_stats(s: WsEndpointStats, policy: Option<ReconnectPolicy>, attempts: u32, event: ConnectEvent) -> WsEndpointStats {
    let retry = may_retry(policy, attempts);
    match event {
        ConnectEvent::SetupFailed => s,
        ConnectEvent::HandshakeOk => WsEndpointStats {
            connections_opened: wrap_add(s.connections_opened, 1),
            concurrent_number: wrap_add(s.concurrent_number, 1),
            ..s
        },
        ConnectEvent::RequestInvalid(_) => WsEndpointStats {
            connections_failed: wrap_add(s.connections_failed, 1),
            ..s
        },
        ConnectEvent::HandshakeFailed(_) => WsEndpointStats {
            connections_failed: wrap_add(s.connections_failed, 1),
            err_count: wrap_add(s.err_count, 1),
            reconnects: if retry {
                wrap_add(s.reconnects, 1)
            } else {
                s.reconnects
            },
            ..s
        },
        ConnectEvent::Ended(reason) => match reason {
            ExitReason::Normal => WsEndpointStats {
                concurrent_number: wrap_sub(s.concurrent_number, 1),
                ..s
            },
            _ => WsEndpointStats {
                concurrent_number: wrap_sub(s.concurrent_number, 1),
                connections_dropped: wrap_add(s.connections_dropped, 1),
                heartbeat_timeouts: if reason is HeartbeatTimeout {
                    wrap_add(s.heartbeat_timeouts, 1)
                } else {
                    s.heartbeat_timeouts
                },
                reconnects: if retry {
                    wrap_add(s.reconnects, 1)
                } else {
                    s.reconnects
                },
                ..s
            },
        },
    }
}

/// Whether the policy grants one more attempt after `attempts`: there is a
/// policy and fewer than its `max_attempts` attempts were used.
pub open spec fn grants_attempt(policy: Option<ReconnectPolicy>, attempts: u32) -> bool {
    &&& policy is Some
    &&& attempts < policy->0.max_attempts
}

/// Whether `action` and `attempts_after` are the decision after a failure:
/// while the policy grants an attempt, wait its backoff and connect again,
/// using one attempt; otherwise stop, using none.
pub open spec fn retry_decided(policy: Option<ReconnectPolicy>, attempts: u32, action: ConnectAction, attempts_after: u32) -> bool {
    if grants_attempt(policy, attempts) {
        &&& action == ConnectAction::RetryAfter(policy->0.backoff_ms)
        &&& attempts_after == attempts + 1
    } else {
        &&& action == ConnectAction::Stop
        &&& attempts_after == attempts
    }
}

/// What an abnormal end of a connection (heartbeat timeout, stream error or
/// server close) must lead to, from counters `s` and `attempts` attempts
/// under `policy`: the connection is closed and counted as dropped; while
/// the policy grants attempts (fewer than `max_attempts` used), the task
/// waits the policy's backoff and connects again, using one attempt and
/// counting one reconnection; otherwise it stops and counts nothing more.
pub open spec fn abnormal_end_handled(
    s: WsEndpointStats,
    policy: Option<ReconnectPolicy>,
    attempts: u32,
    action: ConnectAction,
    attempts_after: u32,
    s_after: WsEndpointStats,
) -> bool {
    &&& s_after.concurrent_number == wrap_sub(s.concurrent_number, 1)
    &&& s_after.connections_dropped == wrap_add(s.connections_dropped, 1)
    &&& match policy {
        Some(p) => if attempts < p.max_attempts {
            &&& action == ConnectAction::RetryAfter(p.backoff_ms)
            &&& attempts_after == attempts + 1
            &&& s_after.reconnects == wrap_add(s.reconnects, 1)
        } else {
            &&& action == ConnectAction::Stop
            &&& attempts_after == attempts
            &&& s_after.reconnects == s.reconnects
        },
        None => {
            &&& action == ConnectAction::Stop
            &&& attempts_after == attempts
            &&& s_after.reconnects == s.reconnects
        },
    }
}

/// Handles what happened to a connection task (see `connect_outcome` and
/// `connect_stats`): counts it, returns the next action and the error to
/// record for the endpoint.  A failed setup waits a second and tries again;
/// an opened connection runs; a normal end stops the task; any other failure
/// or end connects again after the policy's backoff while its attempts last,
/// and a reconnection after a failed handshake or a broken connection counts
/// as one.
pub fn connect_step(
    policy: &Option<ReconnectPolicy>,
    attempts: &mut u32,
    stats: &mut WsEndpointStats,
    event: ConnectEvent,
) -> (r: (ConnectAction, Option<(WsErrKind, u16, String)>))
    ensures
        r.0 == connect_outcome(*policy, *old(attempts), event).0,
        error_view(r.1) == connect_outcome(*policy, *old(attempts), event).1,
        *final(attempts) == connect_outcome(*policy, *old(attempts), event).2,
        *final(stats) == connect_stats(*old(stats), *policy, *old(attempts), event),
        event matches ConnectEvent::Ended(reason) ==> (reason is Normal || abnormal_end_handled(
            *old(stats),
            *policy,
            *old(attempts),
            r.0,
            *final(attempts),
            *final(stats),
        )),
        event is HandshakeFailed ==> {
            &&& retry_decided(*policy, *old(attempts), r.0, *final(attempts))
            &&& final(stats).connections_failed == wrap_add(old(stats).connections_failed, 1)
            &&& final(stats).reconnects == if grants_attempt(*policy, *old(attempts)) {
                wrap_add(old(stats).reconnects, 1)
            } else {
                old(stats).reconnects
            }
        },
        event is RequestInvalid ==> {
            &&& retry_decided(*policy, *old(attempts), r.0, *final(attempts))
            &&& final(stats).connections_failed == wrap_add(old(stats).connections_failed, 1)
        },
        event is HandshakeOk ==> {
            &&& r.0 == ConnectAction::Run
            &&& *final(attempts) == *old(attempts)
            &&& final(stats).connections_opened == wrap_add(old(stats).connections_opened, 1)
            &&& final(stats).concurrent_number == wrap_add(old(stats).concurrent_number, 1)
        },
        event is SetupFailed ==> {
            &&& r.0 == ConnectAction::RetryAfter(1000)
            &&& *final(attempts) == *old(attempts)
            &&& *final(stats) == *old(stats)
        },
        event matches ConnectEvent::Ended(reason) ==> (reason is Normal ==> {
            &&& r.0 == ConnectAction::Stop
            &&& *final(attempts) == *old(attempts)
            &&& final(stats).concurrent_number == wrap_sub(old(stats).concurrent_number, 1)
            &&& final(stats).reconnects == old(stats).reconnects
        }),
{
    match event {
        ConnectEvent::SetupFailed => (ConnectAction::RetryAfter(1000), None),
        ConnectEvent::HandshakeOk => {
            stats.on_handshake_ok();
            (ConnectAction::Run, None)
        },
        ConnectEvent::RequestInvalid(m) => {
            stats.on_request_invalid();
            let action = retry_or_stop(policy, attempts);
            (action, Some((WsErrKind::Internal, 0, m)))
        },
        ConnectEvent::HandshakeFailed(m) => {
            stats.on_handshake_failed();
            let action = retry_or_stop(policy, attempts);
            if action != ConnectAction::Stop {
                stats.on_reconnect();
            }
            (action, Some((WsErrKind::Handshake, 0, m)))
        },
        ConnectEvent::Ended(reason) => {
            stats.on_connection_end(&reason);
            match reason {
                ExitReason::Normal => (ConnectAction::Stop, None),
                _ => {
                    let error = exit_error(&reason);
                    let action = retry_or_stop(policy, attempts);
                    if action != ConnectAction::Stop {
                        stats.on_reconnect();
                    }
                    (action, error)
                },
            }
        },
    }
}

/// Decides whether to connect again after a failure (see `should_reconnect`).
fn retry_or_stop(policy: &Option<ReconnectPolicy>, attempts: &mut u32) -> (r: ConnectAction)
    ensures
        r == retry_action(*policy, *old(attempts)),
        *final(attempts) == attempts_after_failure(*policy, *old(attempts)),
{
    if should_reconnect(policy, attempts) {
        match policy {
            Some(p) => ConnectAction::RetryAfter(p.backoff_ms),
            None => ConnectAction::Stop,
        }
    } else {
        ConnectAction::Stop
    }
}

/// Puts a message about to be sent at `now` on the waiting list (see
/// `register_waiting`); in request-response mode its match key is read from
/// its JSON value with the endpoint's matcher.  Once it is out, the caller
/// counts it with `WsEndpointStats::on_message_sent`.
pub fn register_send(
    stats: &mut WsEndpointStats,
    pending: &mut PendingState,
    request_response: bool,
    matcher: &PrebuiltMatcher,
    json_val: &Option<Value>,
    now: u64,
)
    requires
        old(pending).wf(),
        matcher_safe(*matcher),
    ensures
        final(pending).wf(),
        final(pending).queues() == send_queues(
            old(pending).queues(),
            request_response,
            send_key_of(*matcher, *json_val),
            old(pending).count(),
            now,
        ),
        *final(stats) == wait_stats(
            *old(stats),
            send_refused(request_response, send_key_of(*matcher, *json_val), old(pending).count()),
        ),
{
    let key = if request_response {
        extract_send_id_prebuilt(matcher, json_val)
    } else {
        None
    };
    register_waiting(stats, pending, request_response, key, now);
}

/// Records a data message received at `now` (see `record_receive`); in
/// request-response mode its match key is read with the endpoint's matcher.
/// Returns the round trip it completes and whether it goes to the assertion
/// workers: text messages do, when the endpoint has assertions and the run
/// has workers for them.
pub fn on_message_received(
    stats: &mut WsEndpointStats,
    pending: &mut PendingState,
    request_response: bool,
    matcher: &PrebuiltMatcher,
    payload: &[u8],
    is_text: bool,
    now: u64,
    has_assert_workers: bool,
    assertions: usize,
) -> (r: (Option<u64>, bool))
    requires
        old(pending).wf(),
        matcher_safe(*matcher),
    ensures
        final(pending).wf(),
        r.0 == receive_rtt(request_response, old(pending).queues(), recv_key_of(*matcher, payload@, is_text), now),
        final(pending).queues() == receive_queues(
            request_response,
            old(pending).queues(),
            recv_key_of(*matcher, payload@, is_text),
        ),
        *final(stats) == receive_stats(*old(stats), request_response, r.0, payload@.len() as usize),
        r.1 == (is_text && has_assert_workers && assertions > 0),
{
    let key = if request_response {
        extract_recv_id_prebuilt(matcher, payload, is_text)
    } else {
        None
    };
    let rtt = record_receive(stats, pending, request_response, key, payload.len(), now);
    (rtt, is_text && has_assert_workers && assertions > 0)
}

} // verus!

verus! {

/// The counters and attempts after a connection task has handled `events` in
/// order, starting from `s` and `attempts`.
pub open spec fn run_events(
    s: WsEndpointStats,
    policy: Option<ReconnectPolicy>,
    attempts: u32,
    events: Seq<ConnectEvent>,
) -> (WsEndpointStats, u32)
    decreases events.len(),
{
    if events.len() == 0 {
        (s, attempts)
    } else {
        run_events(
            connect_stats(s, policy, attempts, events[0]),
            policy,
            connect_outcome(policy, attempts, events[0]).2,
            events.drop_first(),
        )
    }
}

/// Whether `events` is what a task reports over its run: every opened
/// connection runs until it ends before the task connects again, and no
/// connection ends that was not opened.
pub open spec fn paired_run(events: Seq<ConnectEvent>) -> bool
    decreases events.len(),
{
    if events.len() == 0 {
        true
    } else {
        match events[0] {
            ConnectEvent::HandshakeOk => events.len() >= 2 && events[1] is Ended && paired_run(
                events.drop_first().drop_first(),
            ),
            ConnectEvent::Ended(_) => false,
            _ => paired_run(events.drop_first()),
        }
    }
}

/// The handshakes that a task attempted among `events`: each one that
/// succeeded or failed, and each request that could not be built.
pub open spec fn handshake_attempts(events: Seq<ConnectEvent>) -> nat
    decreases events.len(),
{
    if events.len() == 0 {
        0
    } else {
        let rest = handshake_attempts(events.drop_first());
        match events[0] {
            ConnectEvent::HandshakeOk => rest + 1,
            ConnectEvent::RequestInvalid(_) => rest + 1,
            ConnectEvent::HandshakeFailed(_) => rest + 1,
            _ => rest,
        }
    }
}

/// Over a connection task's whole run, the number of open connections ends
/// where it started (each opened connection is closed again), and the opened
/// and failed connections together grow by the number of handshakes attempted.
pub proof fn law_task_run_balances_connections(
    s: WsEndpointStats,
    policy: Option<ReconnectPolicy>,
    attempts: u32,
    events: Seq<ConnectEvent>,
)
    requires
        paired_run(events),
        s.connections_opened + s.connections_failed + events.len() <= usize::MAX,
    ensures
        run_events(s, policy, attempts, events).0.concurrent_number == s.concurrent_number,
        run_events(s, policy, attempts, events).0.connections_opened + run_events(
            s,
            policy,
            attempts,
            events,
        ).0.connections_failed == s.connections_opened + s.connections_failed + handshake_attempts(events),
    decreases events.len(),
{
    if events.len() > 0 {
        let e = events[0];
        let s1 = connect_stats(s, policy, attempts, e);
        let a1 = connect_outcome(policy, attempts, e).2;
        let rest = events.drop_first();
        match e {
            ConnectEvent::HandshakeOk => {
                let e2 = rest[0];
                let s2 = connect_stats(s1, policy, a1, e2);
                let a2 = connect_outcome(policy, a1, e2).2;
                let rest2 = rest.drop_first();
                assert(run_events(s, policy, attempts, events) == run_events(s1, policy, a1, rest));
                assert(run_events(s1, policy, a1, rest) == run_events(s2, policy, a2, rest2));
                assert(handshake_attempts(rest) == handshake_attempts(rest2));
                law_task_run_balances_connections(s2, policy, a2, rest2);
            },
            _ => {
                assert(run_events(s, policy, attempts, events) == run_events(s1, policy, a1, rest));
                law_task_run_balances_connections(s1, policy, a1, rest);
            },
        }
    }
}

/// A connection that opened and then ended, however it ended, leaves the
/// number of open connections as it was before it opened.
pub proof fn law_open_then_end_restores_open_count(
    s: WsEndpointStats,
    policy: Option<ReconnectPolicy>,
    attempts: u32,
    reason: ExitReason,
)
    ensures
        connect_stats(
            connect_stats(s, policy, attempts, ConnectEvent::HandshakeOk),
            policy,
            attempts,
            ConnectEvent::Ended(reason),
        ).concurrent_number == s.concurrent_number,
{
}

/// Every abnormal end of a connection, whatever its cause (heartbeat
/// timeout, stream error, or the server closing with any code and reason),
/// is handled alike: the connection counts as dropped and the task
/// reconnects after the policy's backoff while the policy grants attempts.
pub proof fn law_abnormal_end_reconnects(
    s: WsEndpointStats,
    policy: Option<ReconnectPolicy>,
    attempts: u32,
    reason: ExitReason,
)
    requires
        !(reason is Normal),
    ensures
        abnormal_end_handled(
            s,
            policy,
            attempts,
            connect_outcome(policy, attempts, ConnectEvent::Ended(reason)).0,
            connect_outcome(policy, attempts, ConnectEvent::Ended(reason)).2,
            connect_stats(s, policy, attempts, ConnectEvent::Ended(reason)),
        ),
{
}

} // verus!
