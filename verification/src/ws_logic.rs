//! Decisions of the WebSocket load run: reconnection, ramp-up feasibility,
//! queue sizing, connection deadlines, timeouts, and the totals over endpoints.
use vstd::prelude::*;
use crate::ws_model::{ReconnectPolicy, WsMode};
use crate::ws_stats::WsCounts;

verus! {

/// A run needs at least one endpoint.
pub fn check_ws_endpoints(count: usize) -> (r: Result<(), String>)
    ensures
        r is Err <==> count == 0,
        r matches Err(e) ==> e@ == "ws_endpoints 不能为空"@,
{
    broadcast use vstd::string::group_string_axioms;

    if count == 0 {
        Err("ws_endpoints 不能为空".to_string())
    } else {
        Ok(())
    }
}

/// Whether to reconnect after a connection ended or failed: only under a
/// reconnection policy, and only while fewer than `max_attempts` reconnections
/// were made; a reconnection counts as an attempt.  The caller then waits the
/// policy's backoff.
pub fn should_reconnect(policy: &Option<ReconnectPolicy>, attempts: &mut u32) -> (r: bool)
    ensures
        match *policy {
            Some(p) => {
                &&& r == (*old(attempts) < p.max_attempts)
                &&& *final(attempts) == if r {
                    (*old(attempts) + 1) as u32
                } else {
                    *old(attempts)
                }
            },
            None => !r && *final(attempts) == *old(attempts),
        },
{
    match policy {
        Some(p) => {
            if *attempts >= p.max_attempts {
                return false;
            }
            *attempts = *attempts + 1;
            true
        },
        None => false,
    }
}

/// How many connections a stepped ramp-up adds by the end of a run: after the
/// k-th interval it adds `k * step`, so over the `n` whole intervals of the run
/// `step * n * (n + 1) / 2` in all.
pub open spec fn ramp_total(duration_secs: nat, step: nat, interval_secs: nat) -> nat {
    let n = duration_secs / interval_secs;
    step * n * (n + 1) / 2
}

/// The interval a ramp-up uses: as configured, but at least one second.
pub open spec fn ramp_interval(interval_secs: u64) -> nat {
    if interval_secs == 0 {
        1
    } else {
        interval_secs as nat
    }
}

/// Whether a stepped ramp-up reaches `target` connections within the run
/// (an interval of 0 counts as 1 second).
pub fn ramp_reaches_target(
    duration_secs: u64,
    step: usize,
    interval_secs: u64,
    target: usize,
) -> (r: bool)
    requires
        ({
            let n = (duration_secs as nat) / ramp_interval(interval_secs);
            step * n * (n + 1) <= u64::MAX
        }),
    ensures
        r == (ramp_total(duration_secs as nat, step as nat, ramp_interval(interval_secs))
            >= target),
{
    let interval = if interval_secs == 0 {
        1
    } else {
        interval_secs
    };
    let n = duration_secs / interval;
    if step == 0 {
        proof {
            assert(step * n * (n + 1) == 0) by (nonlinear_arith)
                requires
                    step == 0,
            {}
        }
        return 0 >= target;
    }
    let s = step as u64;
    proof {
        assert(n * (n + 1) <= s * n * (n + 1) && s * n * (n + 1) == s * (n * (n + 1)))
            by (nonlinear_arith)
            requires
                s >= 1,
                n >= 0,
        {}
        assert(n + 1 <= u64::MAX) by (nonlinear_arith)
            requires
                n * (n + 1) <= u64::MAX,
                n >= 0,
        {}
    }
    let a = n * (n + 1);
    let total = s * a / 2;
    total >= target as u64
}

/// The length of the per-second rate history: 10 without ramp-up; with ramp-up
/// `(step, interval)`, the seconds left in the run once the target is reached
/// (a step or an interval of 0 counts as 1).
pub open spec fn rate_history_len(
    ramp: Option<(usize, u64)>,
    target: usize,
    duration_secs: u64,
) -> nat {
    match ramp {
        None => 10,
        Some((step, interval)) => {
            let s = if step == 0 {
                1
            } else {
                step as nat
            };
            let steps = target as nat / s;
            let reach = steps * ramp_interval(interval);
            if duration_secs >= reach {
                (duration_secs - reach) as nat
            } else {
                0
            }
        },
    }
}

/// The length of the per-second rate history (see `rate_history_len`).
pub fn rate_history_capacity(ramp: Option<(usize, u64)>, target: usize, duration_secs: u64) -> (r: usize)
    requires
        match ramp {
            None => true,
            Some((step, interval)) => (target as nat / (if step == 0 {
                1
            } else {
                step as nat
            })) * ramp_interval(interval) <= u64::MAX,
        },
        duration_secs <= usize::MAX,
    ensures
        r == rate_history_len(ramp, target, duration_secs),
{
    match ramp {
        None => 10,
        Some((step, interval)) => {
            let s = if step == 0 {
                1
            } else {
                step
            };
            let i = if interval == 0 {
                1
            } else {
                interval
            };
            let steps = (target / s) as u64;
            let reach = steps * i;
            duration_secs.saturating_sub(reach) as usize
        },
    }
}

/// The sum of the weights.
pub open spec fn weight_sum(weights: Seq<u32>) -> nat
    decreases weights.len(),
{
    if weights.len() == 0 {
        0
    } else {
        weight_sum(weights.drop_last()) + (weights.last() as nat)
    }
}

/// The total weight of the endpoints, at least 1 (so that shares are defined).
pub fn total_weight(weights: &Vec<u32>) -> (r: u32)
    requires
        weight_sum(weights@) <= u32::MAX,
    ensures
        r == if weight_sum(weights@) == 0 {
            1
        } else {
            weight_sum(weights@)
        },
{
    let mut sum: u32 = 0;
    let n = weights.len();
    for i in 0..n
        invariant
            n == weights@.len(),
            weight_sum(weights@) <= u32::MAX,
            sum == weight_sum(weights@.take(i as int)),
    {
        proof {
            assert(weights@.take(i + 1).drop_last() =~= weights@.take(i as int));
            lemma_weight_sum_prefix(weights@, i + 1);
        }
        sum = sum + weights[i];
    }
    proof {
        assert(weights@.take(n as int) =~= weights@);
    }
    if sum == 0 {
        1
    } else {
        sum
    }
}

/// A prefix weighs no more than the whole.
pub proof fn lemma_weight_sum_prefix(w: Seq<u32>, k: int)
    requires
        0 <= k <= w.len(),
    ensures
        weight_sum(w.take(k)) <= weight_sum(w),
    decreases w.len(),
{
    if k < w.len() {
        assert(w.drop_last().take(k) =~= w.take(k));
        lemma_weight_sum_prefix(w.drop_last(), k);
    } else {
        assert(w.take(k) =~= w);
    }
}

/// When a connection has to end, in nanoseconds on the run's clock: its
/// time-to-live after `now` when one (other than 0) is set, but never after
/// the end of the run.
pub open spec fn connection_deadline_spec(now: u64, ttl_secs: Option<u64>, test_end: u64) -> u64 {
    match ttl_secs {
        Some(t) if t > 0 => {
            let d = now + t * 1000000000;
            if d < test_end {
                d as u64
            } else {
                test_end
            }
        },
        _ => test_end,
    }
}

/// When a connection has to end (see `connection_deadline_spec`).
pub fn connection_deadline(now: u64, ttl_secs: Option<u64>, test_end: u64) -> (r: u64)
    requires
        match ttl_secs {
            Some(t) => now + t * 1000000000 <= u64::MAX,
            None => true,
        },
    ensures
        r == connection_deadline_spec(now, ttl_secs, test_end),
{
    match ttl_secs {
        Some(t) => {
            if t > 0 {
                let d = now + t * 1_000_000_000;
                if d < test_end {
                    d
                } else {
                    test_end
                }
            } else {
                test_end
            }
        },
        None => test_end,
    }
}

/// The heartbeat period and timeout in seconds: as configured, but at least 1.
pub fn heartbeat_timing(interval_secs: u64, timeout_secs: u64) -> (r: (u64, u64))
    ensures
        r.0 == if interval_secs == 0 {
            1
        } else {
            interval_secs
        },
        r.1 == if timeout_secs == 0 {
            1
        } else {
            timeout_secs
        },
{
    (
        if interval_secs == 0 {
            1
        } else {
            interval_secs
        },
        if timeout_secs == 0 {
            1
        } else {
            timeout_secs
        },
    )
}

/// Whether the connection counts as broken at a heartbeat tick: more than the
/// timeout has passed since the last message arrived (nanosecond clock).
pub fn heartbeat_expired(last_recv: u64, now: u64, timeout_secs: u64) -> (r: bool)
    ensures
        r == (now > last_recv && now - last_recv > timeout_secs * 1000000000),
{
    now > last_recv && (now - last_recv) as u128 > timeout_secs as u128 * 1_000_000_000
}

/// How long a send may wait for its reply, in milliseconds: none in one-way
/// mode, and none when the configured timeout is 0.
pub fn match_timeout_of(mode: &WsMode) -> (r: Option<u64>)
    ensures
        match *mode {
            WsMode::OneWay => r is None,
            WsMode::RequestResponse { timeout_ms, .. } => r == if timeout_ms == 0 {
                None
            } else {
                Some(timeout_ms)
            },
        },
{
    match mode {
        WsMode::OneWay => None,
        WsMode::RequestResponse { timeout_ms, .. } => {
            if *timeout_ms == 0 {
                None
            } else {
                Some(*timeout_ms)
            }
        },
    }
}

/// Whether the mode pairs sends with replies.
pub fn is_request_response(mode: &WsMode) -> (r: bool)
    ensures
        r == (*mode is RequestResponse),
{
    match mode {
        WsMode::OneWay => false,
        WsMode::RequestResponse { .. } => true,
    }
}

/// The figures summed over all endpoints, and the extremes of their round trips.
pub struct WsTotals {
    pub connections_opened: u64,
    pub connections_failed: u64,
    pub connections_dropped: u64,
    pub connections_active: i32,
    pub reconnects: u64,
    pub heartbeat_timeouts: u64,
    pub messages_sent: u64,
    pub messages_received: u64,
    pub successful_requests: u64,
    pub err_count: i32,
    pub match_timeouts: u64,
    /// The longest round trip of any endpoint (0 without endpoints).
    pub max_response_time: u64,
    /// The shortest round trip among endpoints that have one (0 when none has).
    pub min_response_time: u64,
}

/// The sum of one figure over the endpoints.
pub open spec fn sum_of(s: Seq<WsCounts>, f: spec_fn(WsCounts) -> int) -> int
    decreases s.len(),
{
    if s.len() == 0 {
        0
    } else {
        sum_of(s.drop_last(), f) + f(s.last())
    }
}

/// The largest longest-round-trip among the endpoints, or 0.
pub open spec fn max_rtt_of(s: Seq<WsCounts>) -> u64
    decreases s.len(),
{
    if s.len() == 0 {
        0
    } else {
        let m = max_rtt_of(s.drop_last());
        if s.last().max_response_time > m {
            s.last().max_response_time
        } else {
            m
        }
    }
}

/// The smallest non-zero shortest-round-trip among the endpoints, or `u64::MAX` when none.
pub open spec fn min_rtt_or_max(s: Seq<WsCounts>) -> u64
    decreases s.len(),
{
    if s.len() == 0 {
        u64::MAX
    } else {
        let m = min_rtt_or_max(s.drop_last());
        let v = s.last().min_response_time;
        if v > 0 && v < m {
            v
        } else {
            m
        }
    }
}

pub open spec fn f_opened() -> spec_fn(WsCounts) -> int { |c: WsCounts| c.connections_opened as int }
pub open spec fn f_failed() -> spec_fn(WsCounts) -> int { |c: WsCounts| c.connections_failed as int }
pub open spec fn f_dropped() -> spec_fn(WsCounts) -> int { |c: WsCounts| c.connections_dropped as int }
pub open spec fn f_active() -> spec_fn(WsCounts) -> int { |c: WsCounts| c.connections_active as int }
pub open spec fn f_reconnects() -> spec_fn(WsCounts) -> int { |c: WsCounts| c.reconnects as int }
pub open spec fn f_hb() -> spec_fn(WsCounts) -> int { |c: WsCounts| c.heartbeat_timeouts as int }
pub open spec fn f_sent() -> spec_fn(WsCounts) -> int { |c: WsCounts| c.total_requests as int }
pub open spec fn f_received() -> spec_fn(WsCounts) -> int { |c: WsCounts| c.messages_received as int }
pub open spec fn f_succ() -> spec_fn(WsCounts) -> int { |c: WsCounts| c.successful_requests as int }
pub open spec fn f_err() -> spec_fn(WsCounts) -> int { |c: WsCounts| c.err_count as int }
pub open spec fn f_match_to() -> spec_fn(WsCounts) -> int { |c: WsCounts| c.match_timeouts as int }

/// Every running sum of every figure stays within its type, as the additions require.
pub open spec fn totals_fit(s: Seq<WsCounts>) -> bool {
    forall|k: int|
        0 <= k <= s.len() ==> {
            &&& sum_of(#[trigger] s.take(k), f_opened()) <= u64::MAX
            &&& sum_of(s.take(k), f_failed()) <= u64::MAX
            &&& sum_of(s.take(k), f_dropped()) <= u64::MAX
            &&& i32::MIN <= sum_of(s.take(k), f_active()) <= i32::MAX
            &&& sum_of(s.take(k), f_reconnects()) <= u64::MAX
            &&& sum_of(s.take(k), f_hb()) <= u64::MAX
            &&& sum_of(s.take(k), f_sent()) <= u64::MAX
            &&& sum_of(s.take(k), f_received()) <= u64::MAX
            &&& sum_of(s.take(k), f_succ()) <= u64::MAX
            &&& i32::MIN <= sum_of(s.take(k), f_err()) <= i32::MAX
            &&& sum_of(s.take(k), f_match_to()) <= u64::MAX
        }
}

/// The figures of all endpoints summed, with the longest round trip and the
/// shortest non-zero one (0 when there is none).
pub fn sum_counts(counts: &Vec<WsCounts>) -> (t: WsTotals)
    requires
        totals_fit(counts@),
    ensures
        t.connections_opened == sum_of(counts@, f_opened()),
        t.connections_failed == sum_of(counts@, f_failed()),
        t.connections_dropped == sum_of(counts@, f_dropped()),
        t.connections_active == sum_of(counts@, f_active()),
        t.reconnects == sum_of(counts@, f_reconnects()),
        t.heartbeat_timeouts == sum_of(counts@, f_hb()),
        t.messages_sent == sum_of(counts@, f_sent()),
        t.messages_received == sum_of(counts@, f_received()),
        t.successful_requests == sum_of(counts@, f_succ()),
        t.err_count == sum_of(counts@, f_err()),
        t.match_timeouts == sum_of(counts@, f_match_to()),
        t.max_response_time == max_rtt_of(counts@),
        t.min_response_time == if min_rtt_or_max(counts@) == u64::MAX {
            0
        } else {
            min_rtt_or_max(counts@)
        },
{
    let mut t = WsTotals {
        connections_opened: 0,
        connections_failed: 0,
        connections_dropped: 0,
        connections_active: 0,
        reconnects: 0,
        heartbeat_timeouts: 0,
        messages_sent: 0,
        messages_received: 0,
        successful_requests: 0,
        err_count: 0,
        match_timeouts: 0,
        max_response_time: 0,
        min_response_time: u64::MAX,
    };
    let n = counts.len();
    proof {
        assert(counts@.take(0) =~= Seq::<WsCounts>::empty());
    }
    for i in 0..n
        invariant
            n == counts@.len(),
            totals_fit(counts@),
            t.connections_opened == sum_of(counts@.take(i as int), f_opened()),
            t.connections_failed == sum_of(counts@.take(i as int), f_failed()),
            t.connections_dropped == sum_of(counts@.take(i as int), f_dropped()),
            t.connections_active == sum_of(counts@.take(i as int), f_active()),
            t.reconnects == sum_of(counts@.take(i as int), f_reconnects()),
            t.heartbeat_timeouts == sum_of(counts@.take(i as int), f_hb()),
            t.messages_sent == sum_of(counts@.take(i as int), f_sent()),
            t.messages_received == sum_of(counts@.take(i as int), f_received()),
            t.successful_requests == sum_of(counts@.take(i as int), f_succ()),
            t.err_count == sum_of(counts@.take(i as int), f_err()),
            t.match_timeouts == sum_of(counts@.take(i as int), f_match_to()),
            t.max_response_time == max_rtt_of(counts@.take(i as int)),
            t.min_response_time == min_rtt_or_max(counts@.take(i as int)),
    {
        let c = &counts[i];
        let ghost next = counts@.take(i + 1);
        proof {
            assert(next.drop_last() =~= counts@.take(i as int));
            assert(next.last() == counts@[i as int]);
            assert(0 <= i + 1 <= counts@.len());
            let _ = sum_of(counts@.take(i + 1), f_opened());
        }
        t.connections_opened = t.connections_opened + c.connections_opened;
        t.connections_failed = t.connections_failed + c.connections_failed;
        t.connections_dropped = t.connections_dropped + c.connections_dropped;
        t.connections_active = t.connections_active + c.connections_active;
        t.reconnects = t.reconnects + c.reconnects;
        t.heartbeat_timeouts = t.heartbeat_timeouts + c.heartbeat_timeouts;
        t.messages_sent = t.messages_sent + c.total_requests;
        t.messages_received = t.messages_received + c.messages_received;
        t.successful_requests = t.successful_requests + c.successful_requests;
        t.err_count = t.err_count + c.err_count;
        t.match_timeouts = t.match_timeouts + c.match_timeouts;
        if c.max_response_time > t.max_response_time {
            t.max_response_time = c.max_response_time;
        }
        if c.min_response_time > 0 && c.min_response_time < t.min_response_time {
            t.min_response_time = c.min_response_time;
        }
    }
    proof {
        assert(counts@.take(n as int) =~= counts@);
    }
    if t.min_response_time == u64::MAX {
        t.min_response_time = 0;
    }
    t
}

/// The errors a tick reports: the growth of the error total since the
/// previous tick, never negative.
pub open spec fn errors_in_tick(total_err: int, last_err: int) -> int {
    if total_err > last_err {
        total_err - last_err
    } else {
        0
    }
}

/// The errors reported over ticks whose error totals were `totals`, in
/// order, when the total before the first tick was `start`.
pub open spec fn errors_reported(start: int, totals: Seq<int>) -> int
    decreases totals.len(),
{
    if totals.len() == 0 {
        0
    } else {
        let before = if totals.len() == 1 {
            start
        } else {
            totals[totals.len() - 2]
        };
        errors_reported(start, totals.drop_last()) + errors_in_tick(totals.last(), before)
    }
}

/// Errors per second from the total now and the total at the previous tick,
/// never negative (see `errors_in_tick`).
pub fn errors_since(total_err: i32, last_err: i32) -> (r: usize)
    requires
        i32::MIN <= total_err - last_err <= i32::MAX,
    ensures
        r == errors_in_tick(total_err as int, last_err as int),
{
    let d = total_err - last_err;
    if d > 0 {
        d as usize
    } else {
        0
    }
}

} // verus!

verus! {

/// The totals bound every endpoint: no endpoint's longest round trip exceeds
/// the total's, and no endpoint's (non-zero) shortest round trip is below it;
/// the total's shortest is some endpoint's, unless no endpoint has one.
pub proof fn law_round_trip_extremes(s: Seq<WsCounts>)
    ensures
        forall|i: int| 0 <= i < s.len() ==> (#[trigger] s[i]).max_response_time <= max_rtt_of(s),
        forall|i: int|
            0 <= i < s.len() && (#[trigger] s[i]).min_response_time > 0 ==> min_rtt_or_max(s)
                <= s[i].min_response_time,
        min_rtt_or_max(s) == u64::MAX || exists|i: int|
            0 <= i < s.len() && (#[trigger] s[i]).min_response_time == min_rtt_or_max(s),
    decreases s.len(),
{
    if s.len() > 0 {
        let p = s.drop_last();
        law_round_trip_extremes(p);
        assert forall|i: int| 0 <= i < s.len() implies (#[trigger] s[i]).max_response_time
            <= max_rtt_of(s) by {
            if i < p.len() {
                assert(s[i] == p[i]);
            }
        }
        assert forall|i: int|
            0 <= i < s.len() && (#[trigger] s[i]).min_response_time > 0 implies min_rtt_or_max(s)
            <= s[i].min_response_time by {
            if i < p.len() {
                assert(s[i] == p[i]);
            }
        }
        if min_rtt_or_max(s) != u64::MAX && min_rtt_or_max(s) == min_rtt_or_max(p) {
            let i = choose|i: int|
                0 <= i < p.len() && (#[trigger] p[i]).min_response_time == min_rtt_or_max(p);
            assert(s[i] == p[i]);
        }
        if min_rtt_or_max(s) != min_rtt_or_max(p) {
            assert(s[s.len() - 1].min_response_time == min_rtt_or_max(s));
        }
    }
}

/// Attempts recorded after `k` decisions under a policy of `max` attempts,
/// starting from none.
pub open spec fn attempts_after(k: nat, max: nat) -> nat {
    if k < max {
        k
    } else {
        max
    }
}

/// Under a reconnection policy the reconnection budget is kept: starting from
/// no attempts, each decision grants a reconnection exactly while fewer than
/// `max_attempts` were granted, so after `k` decisions `attempts_after(k, max)`
/// were granted, never more than `max_attempts`.
pub proof fn law_reconnect_budget(k: nat, max: nat)
    ensures
        attempts_after(k, max) <= max,
        attempts_after(k + 1, max) == if attempts_after(k, max) < max {
            attempts_after(k, max) + 1
        } else {
            attempts_after(k, max)
        },
{
}

/// While the error total only grows, the errors reported tick by tick add up
/// to its growth over the run: every error is reported in exactly one tick.
pub proof fn law_tick_errors_add_up(start: int, totals: Seq<int>)
    requires
        totals.len() > 0 ==> start <= totals[0],
        forall|i: int, j: int| 0 <= i <= j < totals.len() ==> totals[i] <= totals[j],
    ensures
        errors_reported(start, totals) == if totals.len() == 0 {
            0
        } else {
            totals.last() - start
        },
    decreases totals.len(),
{
    if totals.len() > 0 {
        let rest = totals.drop_last();
        assert forall|i: int, j: int| 0 <= i <= j < rest.len() implies rest[i] <= rest[j] by {
            assert(rest[i] == totals[i] && rest[j] == totals[j]);
        }
        law_tick_errors_add_up(start, rest);
        if totals.len() > 1 {
            assert(rest.last() == totals[totals.len() - 2]);
        }
    }
}

} // verus!
