//! Decisions of the HTTP load run: whether a stepped ramp-up reaches its
//! target, how long the per-second rate history is, and what one request's
//! response counts, for its endpoint and for the whole run.
use vstd::prelude::*;
use crate::http_stats::{is_success_status_spec, ApiEndpointStats};
use crate::ws_logic::ramp_total;
use crate::ws_stats::wrap_add;

verus! {

/// Whether a stepped ramp-up of `step` more requests every `interval_secs`
/// seconds reaches `target` concurrent requests within the run: over its
/// `n` whole intervals it adds `step * n * (n + 1) / 2`.
pub fn http_ramp_reaches_target(duration_secs: u64, step: usize, interval_secs: u64, target: usize) -> (r: bool)
    requires
        interval_secs > 0,
        ({
            let n = (duration_secs as nat) / (interval_secs as nat);
            step * n * (n + 1) <= u64::MAX
        }),
    ensures
        r == (ramp_total(duration_secs as nat, step as nat, interval_secs as nat) >= target),
{
    let n = duration_secs / interval_secs;
    if step == 0 {
        proof {
            assert(step * n * (n + 1) == 0) by (nonlinear_arith)
                requires
                    step == 0,
            {}
        }
        return 0 >= target;
    }
    let s = step as u64;
    proof {
        assert(n * (n + 1) <= s * n * (n + 1) && s * n * (n + 1) == s * (n * (n + 1)))
            by (nonlinear_arith)
            requires
                s >= 1,
                n >= 0,
        {}
        assert(n + 1 <= u64::MAX) by (nonlinear_arith)
            requires
                n * (n + 1) <= u64::MAX,
                n >= 0,
        {}
    }
    let a = n * (n + 1);
    let total = s * a / 2;
    total >= target as u64
}

/// The length of the HTTP run's per-second rate history: 10 without ramp-up;
/// with ramp-up `(step, interval)`, the seconds left in the run once the
/// target is reached.
pub open spec fn http_rate_history_len(ramp: Option<(usize, u64)>, target: usize, duration_secs: u64) -> nat {
    match ramp {
        None => 10,
        Some((step, interval)) => {
            let reach = (target as nat / step as nat) * interval as nat;
            if duration_secs >= reach {
                (duration_secs - reach) as nat
            } else {
                0
            }
        },
    }
}

/// The length of the HTTP run's per-second rate history (see
/// `http_rate_history_len`).
pub fn http_rate_history_capacity(ramp: Option<(usize, u64)>, target: usize, duration_secs: u64) -> (r: usize)
    requires
        match ramp {
            None => true,
            Some((step, interval)) => step > 0 && (target as nat / step as nat) * interval as nat <= u64::MAX,
        },
        duration_secs <= usize::MAX,
    ensures
        r == http_rate_history_len(ramp, target, duration_secs),
{
    match ramp {
        None => 10,
        Some((step, interval)) => {
            let steps = (target / step) as u64;
            let reach = steps * interval;
            duration_secs.saturating_sub(reach) as usize
        },
    }
}

/// A request could not be sent: one more request and one more error for the
/// endpoint and for the run.
pub fn record_send_failure(api: &mut ApiEndpointStats, total: &mut ApiEndpointStats)
    ensures
        *final(api) == (ApiEndpointStats {
            total_requests: wrap_add(old(api).total_requests, 1),
            err_count: wrap_add(old(api).err_count, 1),
            ..*old(api)
        }),
        *final(total) == (ApiEndpointStats {
            total_requests: wrap_add(old(total).total_requests, 1),
            err_count: wrap_add(old(total).err_count, 1),
            ..*old(total)
        }),
{
    api.on_send_failed();
    total.on_send_failed();
}

/// A response arrived after `duration_ms` milliseconds with status `code` and
/// headers of `headers_size` bytes: both the endpoint and the run count the
/// request, its time and its headers, and an error when the status is no
/// success (see `ApiEndpointStats::on_response`).
pub fn record_response(
    api: &mut ApiEndpointStats,
    total: &mut ApiEndpointStats,
    code: u16,
    duration_ms: u64,
    headers_size: usize,
)
    ensures
        *final(api) == response_stats(*old(api), code, duration_ms, headers_size),
        *final(total) == response_stats(*old(total), code, duration_ms, headers_size),
        final(api).total_response_time_ms as int == (old(api).total_response_time_ms as int + duration_ms as int)
            % 0x1_0000_0000_0000_0000int,
        final(total).total_response_time_ms as int == (old(total).total_response_time_ms as int
            + duration_ms as int) % 0x1_0000_0000_0000_0000int,
        final(api).total_requests == wrap_add(old(api).total_requests, 1),
        final(total).total_requests == wrap_add(old(total).total_requests, 1),
        final(api).max_response_time >= duration_ms && final(api).max_response_time >= old(api).max_response_time
            && (final(api).max_response_time == duration_ms || final(api).max_response_time == old(
            api,
        ).max_response_time),
        final(api).min_response_time <= duration_ms && final(api).min_response_time <= old(api).min_response_time
            && (final(api).min_response_time == duration_ms || final(api).min_response_time == old(
            api,
        ).min_response_time),
        final(total).max_response_time >= duration_ms && final(total).max_response_time >= old(
            total,
        ).max_response_time && (final(total).max_response_time == duration_ms || final(total).max_response_time
            == old(total).max_response_time),
        final(total).min_response_time <= duration_ms && final(total).min_response_time <= old(
            total,
        ).min_response_time && (final(total).min_response_time == duration_ms || final(total).min_response_time
            == old(total).min_response_time),
        final(api).err_count == if is_success_status_spec(code) {
            old(api).err_count
        } else {
            wrap_add(old(api).err_count, 1)
        },
        final(api).total_response_size == wrap_add(old(api).total_response_size, headers_size),
{
    api.on_response(code, duration_ms);
    api.on_bytes(headers_size);
    total.on_response(code, duration_ms);
    total.on_bytes(headers_size);
}

/// The counters after a response (see `record_response`).
pub open spec fn response_stats(s: ApiEndpointStats, code: u16, duration_ms: u64, headers_size: usize) -> ApiEndpointStats {
    ApiEndpointStats {
        total_requests: wrap_add(s.total_requests, 1),
        total_response_time_ms: crate::ws_stats::wrap_add_u64(s.total_response_time_ms, duration_ms),
        max_response_time: if duration_ms > s.max_response_time {
            duration_ms
        } else {
            s.max_response_time
        },
        min_response_time: if duration_ms < s.min_response_time {
            duration_ms
        } else {
            s.min_response_time
        },
        err_count: if is_success_status_spec(code) {
            s.err_count
        } else {
            wrap_add(s.err_count, 1)
        },
        total_response_size: wrap_add(s.total_response_size, headers_size),
        ..s
    }
}

/// A chunk of `bytes` bytes of a response body arrived: both count it.
pub fn record_body_chunk(api: &mut ApiEndpointStats, total: &mut ApiEndpointStats, bytes: usize)
    ensures
        *final(api) == (ApiEndpointStats {
            total_response_size: wrap_add(old(api).total_response_size, bytes),
            ..*old(api)
        }),
        *final(total) == (ApiEndpointStats {
            total_response_size: wrap_add(old(total).total_response_size, bytes),
            ..*old(total)
        }),
{
    api.on_bytes(bytes);
    total.on_bytes(bytes);
}

/// Reading a response body failed, or an assertion failed: one more error for both.
pub fn record_error(api: &mut ApiEndpointStats, total: &mut ApiEndpointStats)
    ensures
        *final(api) == (ApiEndpointStats { err_count: wrap_add(old(api).err_count, 1), ..*old(api) }),
        *final(total) == (ApiEndpointStats { err_count: wrap_add(old(total).err_count, 1), ..*old(total) }),
{
    api.on_error();
    total.on_error();
}

/// A request succeeded: one more success for both.
pub fn record_success(api: &mut ApiEndpointStats, total: &mut ApiEndpointStats)
    ensures
        *final(api) == (ApiEndpointStats {
            successful_requests: wrap_add(old(api).successful_requests, 1),
            ..*old(api)
        }),
        *final(total) == (ApiEndpointStats {
            successful_requests: wrap_add(old(total).successful_requests, 1),
            ..*old(total)
        }),
{
    api.on_success();
    total.on_success();
}

/// What becomes of a response once its body was read.
#[derive(Debug, Clone, Copy, PartialEq, Eq, Structural)]
pub enum BodyOutcome {
    /// The body goes to the assertions, which decide success.
    Assert,
    /// The request counts as a success.
    Success,
    /// Nothing more is counted (an error status, a failed body read, or an
    /// empty body under assertions).
    Done,
}

/// What becomes of a response once its body was read: with a success status
/// and the body read whole, an endpoint with assertions checks a non-empty
/// body, and one without counts a success; anything else is done (its error
/// was already counted).
pub fn body_outcome(success_status: bool, stream_error: bool, has_asserts: bool, body_len: usize) -> (r: BodyOutcome)
    ensures
        r == if !success_status || stream_error {
            BodyOutcome::Done
        } else if has_asserts {
            if body_len > 0 {
                BodyOutcome::Assert
            } else {
                BodyOutcome::Done
            }
        } else {
            BodyOutcome::Success
        },
{
    if !success_status || stream_error {
        BodyOutcome::Done
    } else if has_asserts {
        if body_len > 0 {
            BodyOutcome::Assert
        } else {
            BodyOutcome::Done
        }
    } else {
        BodyOutcome::Success
    }
}

/// Applies an assertion job's outcome: each message counts as one error of
/// the endpoint and of the run, and a job without failure as one success.
pub fn apply_assert_outcome(
    api: &mut ApiEndpointStats,
    total: &mut ApiEndpointStats,
    errors: usize,
    success: bool,
)
    ensures
        final(api).err_count == crate::ws_stats::wrap_add_n(old(api).err_count, errors as nat),
        final(total).err_count == crate::ws_stats::wrap_add_n(old(total).err_count, errors as nat),
        final(api).successful_requests == if success {
            wrap_add(old(api).successful_requests, 1)
        } else {
            old(api).successful_requests
        },
        final(total).successful_requests == if success {
            wrap_add(old(total).successful_requests, 1)
        } else {
            old(total).successful_requests
        },
        *final(api) == (ApiEndpointStats {
            err_count: final(api).err_count,
            successful_requests: final(api).successful_requests,
            ..*old(api)
        }),
        *final(total) == (ApiEndpointStats {
            err_count: final(total).err_count,
            successful_requests: final(total).successful_requests,
            ..*old(total)
        }),
{
    let mut k: usize = 0;
    while k < errors
        invariant
            k <= errors,
            api.err_count == crate::ws_stats::wrap_add_n(old(api).err_count, k as nat),
            total.err_count == crate::ws_stats::wrap_add_n(old(total).err_count, k as nat),
            *api == (ApiEndpointStats { err_count: api.err_count, ..*old(api) }),
            *total == (ApiEndpointStats { err_count: total.err_count, ..*old(total) }),
        decreases errors - k,
    {
        record_error(api, total);
        k = k + 1;
    }
    if success {
        record_success(api, total);
    }
}

/// The counters after the responses `rs` (status, time in milliseconds,
/// header bytes), recorded in order from `s`.
pub open spec fn after_responses(s: ApiEndpointStats, rs: Seq<(u16, u64, usize)>) -> ApiEndpointStats
    decreases rs.len(),
{
    if rs.len() == 0 {
        s
    } else {
        let (code, ms, h) = rs.last();
        response_stats(after_responses(s, rs.drop_last()), code, ms, h)
    }
}

/// The sum of the response times of `rs`.
pub open spec fn durations_sum(rs: Seq<(u16, u64, usize)>) -> int
    decreases rs.len(),
{
    if rs.len() == 0 {
        0
    } else {
        durations_sum(rs.drop_last()) + rs.last().1
    }
}

/// Over any run of responses, the summed response time grows by the sum of
/// their times (modulo 2^64) and the request count by their number, so the
/// average response time is the sum of the times over the responses.
pub proof fn law_response_times_add_up(s: ApiEndpointStats, rs: Seq<(u16, u64, usize)>)
    requires
        s.total_requests + rs.len() <= usize::MAX,
    ensures
        after_responses(s, rs).total_response_time_ms as int == (s.total_response_time_ms as int + durations_sum(rs))
            % 0x1_0000_0000_0000_0000int,
        after_responses(s, rs).total_requests == s.total_requests + rs.len(),
    decreases rs.len(),
{
    if rs.len() > 0 {
        let rest = rs.drop_last();
        law_response_times_add_up(s, rest);
        let m: int = 0x1_0000_0000_0000_0000int;
        let a = s.total_response_time_ms as int + durations_sum(rest);
        vstd::arithmetic::div_mod::lemma_add_mod_noop_right(rs.last().1 as int, a, m);
        assert((rs.last().1 as int + a) == s.total_response_time_ms as int + durations_sum(rs));
    }
}

} // verus!
