//! Running counters of one WebSocket endpoint, the events that move them, and
//! the integer snapshot that the per-second and final reports are made from.
//!
//! Counters wrap around at the top of their type, as the atomic counters that
//! they are kept in do.
use vstd::prelude::*;
use crate::pending::{queue_of, PendingState};
use crate::url_parts::{host_and_path, split_host_path};
use crate::ws_error_stats::WsErrKind;

verus! {

broadcast use vstd::string::group_string_axioms;

/// `x + y`, wrapping at the top of `usize`.
pub open spec fn wrap_add(x: usize, y: usize) -> usize {
    if x + y <= usize::MAX {
        (x + y) as usize
    } else {
        (x + y - usize::MAX - 1) as usize
    }
}

/// `x` with one added `n` times, wrapping at the top of `usize`.
pub open spec fn wrap_add_n(x: usize, n: nat) -> usize
    decreases n,
{
    if n == 0 {
        x
    } else {
        wrap_add(wrap_add_n(x, (n - 1) as nat), 1)
    }
}

/// `x - y`, wrapping at the bottom of `usize`.
pub open spec fn wrap_sub(x: usize, y: usize) -> usize {
    if x >= y {
        (x - y) as usize
    } else {
        (x - y + usize::MAX + 1) as usize
    }
}

/// `x + y`, wrapping at the top of `u64`.
pub open spec fn wrap_add_u64(x: u64, y: u64) -> u64 {
    if x + y <= u64::MAX {
        (x + y) as u64
    } else {
        (x + y - u64::MAX - 1) as u64
    }
}

pub fn add_wrapping(x: usize, y: usize) -> (r: usize)
    ensures
        r == wrap_add(x, y),
{
    x.wrapping_add(y)
}

pub fn sub_wrapping(x: usize, y: usize) -> (r: usize)
    ensures
        r == wrap_sub(x, y),
{
    x.wrapping_sub(y)
}

pub fn add_wrapping_u64(x: u64, y: u64) -> (r: u64)
    ensures
        r == wrap_add_u64(x, y),
{
    x.wrapping_add(y)
}

/// Raises `slot` to `val` if `val` is larger.
pub fn atomic_max(slot: &mut u64, val: u64)
    ensures
        *final(slot) == if val > *old(slot) {
            val
        } else {
            *old(slot)
        },
{
    if val > *slot {
        *slot = val;
    }
}

/// Lowers `slot` to `val` if `val` is smaller.
pub fn atomic_min(slot: &mut u64, val: u64)
    ensures
        *final(slot) == if val < *old(slot) {
            val
        } else {
            *old(slot)
        },
{
    if val < *slot {
        *slot = val;
    }
}

/// Why a connection's lifecycle ended.
#[derive(Debug)]
pub enum ExitReason {
    /// Deadline reached or stop requested.
    Normal,
    /// Nothing received within the heartbeat timeout.
    HeartbeatTimeout,
    /// Sending or receiving failed.
    StreamError(String),
    /// The server closed the connection (close code, reason).
    ServerClose(u16, String),
}

/// The error an ended connection counts: none for a normal end; otherwise its
/// kind, close code and message.
pub open spec fn exit_error_spec(reason: ExitReason) -> Option<(WsErrKind, u16, Seq<char>)> {
    match reason {
        ExitReason::Normal => None,
        ExitReason::HeartbeatTimeout => Some((WsErrKind::HeartbeatTimeout, 0u16, "心跳超时"@)),
        ExitReason::StreamError(m) => Some((WsErrKind::Stream, 0u16, m@)),
        ExitReason::ServerClose(c, m) => Some((WsErrKind::ServerClose, c, m@)),
    }
}

/// The error an ended connection counts (see `exit_error_spec`).
pub fn exit_error(reason: &ExitReason) -> (r: Option<(WsErrKind, u16, String)>)
    ensures
        match (r, exit_error_spec(*reason)) {
            (None, None) => true,
            (Some((k, c, m)), Some((k2, c2, m2))) => k == k2 && c == c2 && m@ == m2,
            _ => false,
        },
{
    match reason {
        ExitReason::Normal => None,
        ExitReason::HeartbeatTimeout => Some((WsErrKind::HeartbeatTimeout, 0, "心跳超时".to_string())),
        ExitReason::StreamError(m) => Some((WsErrKind::Stream, 0, m.clone())),
        ExitReason::ServerClose(c, m) => Some((WsErrKind::ServerClose, *c, m.clone())),
    }
}

/// The running counters of one WebSocket endpoint.
pub struct WsEndpointStats {
    pub name: String,
    pub url: String,
    /// Open connections (opened minus closed).
    pub concurrent_number: usize,
    /// Successful handshakes.
    pub connections_opened: usize,
    /// Failed handshakes (and requests that could not be built).
    pub connections_failed: usize,
    /// Connections that ended abnormally (heartbeat timeout, stream error, server close).
    pub connections_dropped: usize,
    /// Heartbeat timeouts.
    pub heartbeat_timeouts: usize,
    /// Reconnections.
    pub reconnects: usize,
    /// Messages sent (reported as total requests).
    pub messages_sent: usize,
    /// Messages received.
    pub messages_received: usize,
    /// One-way: messages sent; request-response: matched replies.
    pub successful_requests: usize,
    /// Errors.
    pub err_count: usize,
    /// Bytes sent.
    pub bytes_sent: usize,
    /// Bytes received.
    pub bytes_received: usize,
    /// Sends that got no reply in time, or found the waiting list full.
    pub match_timeouts: usize,
    /// Longest round trip, in milliseconds.
    pub max_response_time: u64,
    /// Shortest round trip, in milliseconds (`u64::MAX` until there is one).
    pub min_response_time: u64,
    /// Sum of the round trips, in milliseconds.
    pub total_response_time_ms: u64,
}

impl WsEndpointStats {
    /// Counters for an endpoint, all at zero (the shortest round trip at `u64::MAX`).
    pub fn new(name: String, url: String) -> (s: Self)
        ensures
            s.name == name,
            s.url == url,
            s.concurrent_number == 0,
            s.connections_opened == 0,
            s.connections_failed == 0,
            s.connections_dropped == 0,
            s.heartbeat_timeouts == 0,
            s.reconnects == 0,
            s.messages_sent == 0,
            s.messages_received == 0,
            s.successful_requests == 0,
            s.err_count == 0,
            s.bytes_sent == 0,
            s.bytes_received == 0,
            s.match_timeouts == 0,
            s.max_response_time == 0,
            s.min_response_time == u64::MAX,
            s.total_response_time_ms == 0,
    {
        WsEndpointStats {
            name,
            url,
            concurrent_number: 0,
            connections_opened: 0,
            connections_failed: 0,
            connections_dropped: 0,
            heartbeat_timeouts: 0,
            reconnects: 0,
            messages_sent: 0,
            messages_received: 0,
            successful_requests: 0,
            err_count: 0,
            bytes_sent: 0,
            bytes_received: 0,
            match_timeouts: 0,
            max_response_time: 0,
            min_response_time: u64::MAX,
            total_response_time_ms: 0,
        }
    }

    /// A handshake succeeded: one more connection opened and open.
    pub fn on_handshake_ok(&mut self)
        ensures
            *final(self) == (WsEndpointStats {
                connections_opened: wrap_add(old(self).connections_opened, 1),
                concurrent_number: wrap_add(old(self).concurrent_number, 1),
                ..*old(self)
            }),
    {
        self.connections_opened = add_wrapping(self.connections_opened, 1);
        self.concurrent_number = add_wrapping(self.concurrent_number, 1);
    }

    /// A handshake failed: one more failed connection and one more error.
    pub fn on_handshake_failed(&mut self)
        ensures
            *final(self) == (WsEndpointStats {
                connections_failed: wrap_add(old(self).connections_failed, 1),
                err_count: wrap_add(old(self).err_count, 1),
                ..*old(self)
            }),
    {
        self.connections_failed = add_wrapping(self.connections_failed, 1);
        self.err_count = add_wrapping(self.err_count, 1);
    }

    /// The handshake request could not be built: one more failed connection.
    pub fn on_request_invalid(&mut self)
        ensures
            *final(self) == (WsEndpointStats {
                connections_failed: wrap_add(old(self).connections_failed, 1),
                ..*old(self)
            }),
    {
        self.connections_failed = add_wrapping(self.connections_failed, 1);
    }

    /// A reconnection is made.
    pub fn on_reconnect(&mut self)
        ensures
            *final(self) == (WsEndpointStats {
                reconnects: wrap_add(old(self).reconnects, 1),
                ..*old(self)
            }),
    {
        self.reconnects = add_wrapping(self.reconnects, 1);
    }

    /// A connection ended for `reason`: it is no longer open; an abnormal end
    /// counts as dropped, a heartbeat timeout also as such.
    pub fn on_connection_end(&mut self, reason: &ExitReason)
        ensures
            *final(self) == (WsEndpointStats {
                concurrent_number: wrap_sub(old(self).concurrent_number, 1),
                connections_dropped: match *reason {
                    ExitReason::Normal => old(self).connections_dropped,
                    _ => wrap_add(old(self).connections_dropped, 1),
                },
                heartbeat_timeouts: match *reason {
                    ExitReason::HeartbeatTimeout => wrap_add(old(self).heartbeat_timeouts, 1),
                    _ => old(self).heartbeat_timeouts,
                },
                ..*old(self)
            }),
    {
        self.concurrent_number = sub_wrapping(self.concurrent_number, 1);
        match reason {
            ExitReason::Normal => {},
            ExitReason::HeartbeatTimeout => {
                self.heartbeat_timeouts = add_wrapping(self.heartbeat_timeouts, 1);
                self.connections_dropped = add_wrapping(self.connections_dropped, 1);
            },
            _ => {
                self.connections_dropped = add_wrapping(self.connections_dropped, 1);
            },
        }
    }

    /// A message of `bytes` bytes was sent.
    pub fn on_message_sent(&mut self, bytes: usize)
        ensures
            *final(self) == (WsEndpointStats {
                messages_sent: wrap_add(old(self).messages_sent, 1),
                bytes_sent: wrap_add(old(self).bytes_sent, bytes),
                ..*old(self)
            }),
    {
        self.messages_sent = add_wrapping(self.messages_sent, 1);
        self.bytes_sent = add_wrapping(self.bytes_sent, bytes);
    }

    /// A heartbeat of `bytes` bytes was sent (heartbeats are not counted as messages).
    pub fn on_heartbeat_sent(&mut self, bytes: usize)
        ensures
            *final(self) == (WsEndpointStats {
                bytes_sent: wrap_add(old(self).bytes_sent, bytes),
                ..*old(self)
            }),
    {
        self.bytes_sent = add_wrapping(self.bytes_sent, bytes);
    }

    /// `n` sends got no reply in time (or could not wait): counted as match
    /// timeouts and as errors.
    pub fn on_match_timeouts(&mut self, n: usize)
        ensures
            *final(self) == (WsEndpointStats {
                match_timeouts: wrap_add(old(self).match_timeouts, n),
                err_count: wrap_add(old(self).err_count, n),
                ..*old(self)
            }),
    {
        self.match_timeouts = add_wrapping(self.match_timeouts, n);
        self.err_count = add_wrapping(self.err_count, n);
    }

    /// A message of `bytes` bytes arrived.
    pub fn on_message_received(&mut self, bytes: usize)
        ensures
            *final(self) == (WsEndpointStats {
                messages_received: wrap_add(old(self).messages_received, 1),
                bytes_received: wrap_add(old(self).bytes_received, bytes),
                ..*old(self)
            }),
    {
        self.messages_received = add_wrapping(self.messages_received, 1);
        self.bytes_received = add_wrapping(self.bytes_received, bytes);
    }

    /// One more success (a message sent in one-way mode).
    pub fn on_success(&mut self)
        ensures
            *final(self) == (WsEndpointStats {
                successful_requests: wrap_add(old(self).successful_requests, 1),
                ..*old(self)
            }),
    {
        self.successful_requests = add_wrapping(self.successful_requests, 1);
    }

    /// A reply matched its send after `rtt_ms` milliseconds: the round trip is
    /// summed and bounds the longest and shortest, and counts as a success.
    pub fn on_matched(&mut self, rtt_ms: u64)
        ensures
            *final(self) == (WsEndpointStats {
                total_response_time_ms: wrap_add_u64(old(self).total_response_time_ms, rtt_ms),
                max_response_time: if rtt_ms > old(self).max_response_time {
                    rtt_ms
                } else {
                    old(self).max_response_time
                },
                min_response_time: if rtt_ms < old(self).min_response_time {
                    rtt_ms
                } else {
                    old(self).min_response_time
                },
                successful_requests: wrap_add(old(self).successful_requests, 1),
                ..*old(self)
            }),
    {
        self.total_response_time_ms = add_wrapping_u64(self.total_response_time_ms, rtt_ms);
        atomic_max(&mut self.max_response_time, rtt_ms);
        atomic_min(&mut self.min_response_time, rtt_ms);
        self.successful_requests = add_wrapping(self.successful_requests, 1);
    }

    /// One more error (a failed assertion on a received message).
    pub fn on_error(&mut self)
        ensures
            *final(self) == (WsEndpointStats { err_count: wrap_add(old(self).err_count, 1), ..*old(self) }),
    {
        self.err_count = add_wrapping(self.err_count, 1);
    }
}

/// Whole milliseconds from `sent` to `now` (nanosecond clock; none when `now` is earlier).
pub open spec fn elapsed_ms(sent: u64, now: u64) -> u64 {
    if now >= sent {
        ((now - sent) / 1000000) as u64
    } else {
        0
    }
}

/// Whether a send waits for its reply: in request-response mode, with a match
/// key, while the waiting list has room.
pub open spec fn send_waits(request_response: bool, key: Option<Seq<char>>, count: nat) -> bool {
    request_response && key is Some && count < crate::pending::MAX_PENDING_PER_CONN
}

/// Whether a send that should wait finds the waiting list full.
pub open spec fn send_refused(request_response: bool, key: Option<Seq<char>>, count: nat) -> bool {
    request_response && key is Some && count >= crate::pending::MAX_PENDING_PER_CONN
}

/// The waiting sends after a send (see `send_waits`).
pub open spec fn send_queues(
    q: Map<Seq<char>, Seq<u64>>,
    request_response: bool,
    key: Option<Seq<char>>,
    count: nat,
    now: u64,
) -> Map<Seq<char>, Seq<u64>> {
    if send_waits(request_response, key, count) {
        q.insert(key->0, queue_of(q, key->0).push(now))
    } else {
        q
    }
}

/// The counters after a send of `bytes` bytes: one more match timeout and
/// error when it could not wait, then the message counts as sent (see
/// `sent_stats`).
pub open spec fn send_stats(s: WsEndpointStats, request_response: bool, refused: bool, bytes: usize) -> WsEndpointStats {
    let s1 = wait_stats(s, refused);
    sent_stats(s1, request_response, bytes)
}

/// The counters after a message of `bytes` bytes went out: one more message
/// sent, and in one-way mode one more success (one-way successes are the
/// messages sent).
pub open spec fn sent_stats(s: WsEndpointStats, request_response: bool, bytes: usize) -> WsEndpointStats {
    WsEndpointStats {
        messages_sent: wrap_add(s.messages_sent, 1),
        bytes_sent: wrap_add(s.bytes_sent, bytes),
        successful_requests: if request_response {
            s.successful_requests
        } else {
            wrap_add(s.successful_requests, 1)
        },
        ..s
    }
}

/// Records that a message of `bytes` bytes went out (see `sent_stats`).
pub fn record_sent(stats: &mut WsEndpointStats, request_response: bool, bytes: usize)
    ensures
        *final(stats) == sent_stats(*old(stats), request_response, bytes),
{
    stats.on_message_sent(bytes);
    if !request_response {
        stats.on_success();
    }
}

/// The text of an optional key.
pub open spec fn key_text(k: Option<String>) -> Option<Seq<char>> {
    match k {
        Some(s) => Some(s@),
        None => None,
    }
}

/// The counters after a send that may have had to wait: one more match timeout
/// and error when it could not.
pub open spec fn wait_stats(s: WsEndpointStats, refused: bool) -> WsEndpointStats {
    WsEndpointStats {
        match_timeouts: if refused {
            wrap_add(s.match_timeouts, 1)
        } else {
            s.match_timeouts
        },
        err_count: if refused {
            wrap_add(s.err_count, 1)
        } else {
            s.err_count
        },
        ..s
    }
}

/// Puts a send made at `now` on the waiting list, before the message goes out
/// (so that its reply cannot come first): only in request-response mode and
/// with a match key; when the list is full the send counts as a match timeout
/// and an error instead.
pub fn register_waiting(
    stats: &mut WsEndpointStats,
    pending: &mut PendingState,
    request_response: bool,
    send_key: Option<String>,
    now: u64,
)
    requires
        old(pending).wf(),
    ensures
        final(pending).wf(),
        final(pending).queues() == send_queues(
            old(pending).queues(),
            request_response,
            key_text(send_key),
            old(pending).count(),
            now,
        ),
        *final(stats) == wait_stats(
            *old(stats),
            send_refused(request_response, key_text(send_key), old(pending).count()),
        ),
{
    if request_response {
        match send_key {
            Some(key) => {
                if !pending.register(key, now) {
                    stats.on_match_timeouts(1);
                }
            },
            None => {},
        }
    }
}

/// Records a send of `bytes` bytes at `now`: the send waits for its reply
/// (see `register_waiting`), then the message counts as sent.
pub fn record_send(
    stats: &mut WsEndpointStats,
    pending: &mut PendingState,
    request_response: bool,
    send_key: Option<String>,
    bytes: usize,
    now: u64,
)
    requires
        old(pending).wf(),
    ensures
        final(pending).wf(),
        final(pending).queues() == send_queues(
            old(pending).queues(),
            request_response,
            key_text(send_key),
            old(pending).count(),
            now,
        ),
        *final(stats) == send_stats(
            *old(stats),
            request_response,
            send_refused(request_response, key_text(send_key), old(pending).count()),
            bytes,
        ),
{
    register_waiting(stats, pending, request_response, send_key, now);
    record_sent(stats, request_response, bytes);
}

/// The send time a reply with `key` takes: the oldest waiting under it.
pub open spec fn matched_send(q: Map<Seq<char>, Seq<u64>>, key: Option<Seq<char>>) -> Option<u64> {
    match key {
        Some(k) => if queue_of(q, k).len() > 0 {
            Some(queue_of(q, k)[0])
        } else {
            None
        },
        None => None,
    }
}

/// The round trip a received message completes: in request-response mode, the
/// milliseconds since the send it takes, if any.
pub open spec fn receive_rtt(request_response: bool, q: Map<Seq<char>, Seq<u64>>, key: Option<Seq<char>>, now: u64) -> Option<u64> {
    if !request_response {
        None
    } else {
        match matched_send(q, key) {
            Some(t) => Some(elapsed_ms(t, now)),
            None => None,
        }
    }
}

/// The waiting sends after a message is received: the send it takes is gone.
pub open spec fn receive_queues(request_response: bool, q: Map<Seq<char>, Seq<u64>>, key: Option<Seq<char>>) -> Map<Seq<char>, Seq<u64>> {
    if request_response && matched_send(q, key) is Some {
        q.insert(key->0, queue_of(q, key->0).drop_first())
    } else {
        q
    }
}

/// The counters after a message of `bytes` bytes is received: one more
/// message; in request-response mode a completed round trip is recorded and
/// counts as a success (one-way successes are counted on sending).
pub open spec fn receive_stats(s: WsEndpointStats, request_response: bool, rtt: Option<u64>, bytes: usize) -> WsEndpointStats {
    let s1 = WsEndpointStats {
        messages_received: wrap_add(s.messages_received, 1),
        bytes_received: wrap_add(s.bytes_received, bytes),
        ..s
    };
    if !request_response {
        s1
    } else {
        match rtt {
            Some(ms) => WsEndpointStats {
                total_response_time_ms: wrap_add_u64(s1.total_response_time_ms, ms),
                max_response_time: if ms > s1.max_response_time {
                    ms
                } else {
                    s1.max_response_time
                },
                min_response_time: if ms < s1.min_response_time {
                    ms
                } else {
                    s1.min_response_time
                },
                successful_requests: wrap_add(s1.successful_requests, 1),
                ..s1
            },
            None => s1,
        }
    }
}

/// Records a received message of `bytes` bytes at `now`.  In request-response
/// mode a reply with a match key takes the oldest send waiting under it; the
/// round trip in milliseconds is recorded and returned.
pub fn record_receive(
    stats: &mut WsEndpointStats,
    pending: &mut PendingState,
    request_response: bool,
    recv_key: Option<String>,
    bytes: usize,
    now: u64,
) -> (rtt: Option<u64>)
    requires
        old(pending).wf(),
    ensures
        final(pending).wf(),
        rtt == receive_rtt(request_response, old(pending).queues(), key_text(recv_key), now),
        final(pending).queues() == receive_queues(request_response, old(pending).queues(), key_text(recv_key)),
        *final(stats) == receive_stats(*old(stats), request_response, rtt, bytes),
        rtt matches Some(ms) ==> final(stats).total_response_time_ms as int == (old(
            stats,
        ).total_response_time_ms as int + ms as int) % 0x1_0000_0000_0000_0000int
            && final(stats).successful_requests == wrap_add(old(stats).successful_requests, 1),
        rtt is None ==> final(stats).total_response_time_ms == old(stats).total_response_time_ms
            && final(stats).successful_requests == old(stats).successful_requests,
        rtt matches Some(ms) ==> final(stats).max_response_time >= ms && final(stats).max_response_time >= old(
            stats,
        ).max_response_time && (final(stats).max_response_time == ms || final(stats).max_response_time == old(
            stats,
        ).max_response_time),
        rtt matches Some(ms) ==> final(stats).min_response_time <= ms && final(stats).min_response_time <= old(
            stats,
        ).min_response_time && (final(stats).min_response_time == ms || final(stats).min_response_time == old(
            stats,
        ).min_response_time),
        final(stats).messages_received == wrap_add(old(stats).messages_received, 1),
        final(stats).bytes_received == wrap_add(old(stats).bytes_received, bytes),
{
    stats.on_message_received(bytes);
    if !request_response {
        return None;
    }
    match recv_key {
        None => None,
        Some(key) => match pending.match_one(key.as_str()) {
            Some(sent_at) => {
                let ms = if now >= sent_at {
                    (now - sent_at) / 1_000_000
                } else {
                    0
                };
                stats.on_matched(ms);
                Some(ms)
            },
            None => None,
        },
    }
}

/// Drops the sends that waited longer than `timeout` (nanoseconds) at `now`
/// and counts each as a match timeout and an error; returns how many.
pub fn expire_waiting(stats: &mut WsEndpointStats, pending: &mut PendingState, timeout: u64, now: u64) -> (n: usize)
    requires
        old(pending).wf(),
    ensures
        final(pending).wf(),
        final(pending).queues() == crate::pending::expire_all(old(pending).queues(), timeout, now),
        n + final(pending).count() == old(pending).count(),
        *final(stats) == (WsEndpointStats {
            match_timeouts: wrap_add(old(stats).match_timeouts, n),
            err_count: wrap_add(old(stats).err_count, n),
            ..*old(stats)
        }),
{
    let n = pending.expire_older_than(timeout, now);
    stats.on_match_timeouts(n);
    n
}

/// How a connection ends when the server closes it: with the close frame's
/// code and reason, or with code 0 and a note when the frame had none.
pub open spec fn close_reason_spec(frame: Option<(u16, Seq<char>)>) -> (u16, Seq<char>) {
    match frame {
        Some((c, r)) => (c, r),
        None => (0, "对端发送 close frame"@),
    }
}

/// How a connection ends when the server closes it (see `close_reason_spec`).
pub fn close_reason(frame: Option<(u16, String)>) -> (r: ExitReason)
    ensures
        r matches ExitReason::ServerClose(c, m) && (c, m@) == close_reason_spec(match frame {
            Some((c2, m2)) => Some((c2, m2@)),
            None => None,
        }),
{
    match frame {
        Some((c, m)) => ExitReason::ServerClose(c, m),
        None => ExitReason::ServerClose(0, "对端发送 close frame".to_string()),
    }
}

/// How a connection ends when the stream ends without a close frame: a server
/// close with code 0 and a note.
pub fn stream_end_reason() -> (r: ExitReason)
    ensures
        r matches ExitReason::ServerClose(c, m) && c == 0 && m@ == "对端关闭(无 frame)"@,
{
    ExitReason::ServerClose(0, "对端关闭(无 frame)".to_string())
}

/// `total / count`, rounded to the nearest integer with halves rounded up;
/// 0 when `count` is 0.  (For totals below 2^52 this is what rounding the
/// floating-point quotient gives.)
pub open spec fn rounded_average(total: nat, count: nat) -> nat {
    if count == 0 {
        0
    } else {
        (2 * total + count) / (2 * count)
    }
}

/// `total / count` rounded to the nearest integer (see `rounded_average`).
pub fn average_rounded(total: u64, count: u64) -> (r: u64)
    ensures
        r == rounded_average(total as nat, count as nat),
{
    if count == 0 {
        return 0;
    }
    let t = total as u128;
    let c = count as u128;
    let q = (2 * t + c) / (2 * c);
    proof {
        assert((2 * total + count) / (2 * count) <= total) by (nonlinear_arith)
            requires
                count >= 1,
        {
            assert(2 * total + count <= (2 * count) * (total + 1));
        }
    }
    q as u64
}

/// The integer figures of one endpoint's report.
pub struct WsCounts {
    pub name: String,
    pub url: String,
    pub host: String,
    pub path: String,
    pub connections_opened: u64,
    pub connections_active: i32,
    pub connections_failed: u64,
    pub connections_dropped: u64,
    pub heartbeat_timeouts: u64,
    pub reconnects: u64,
    /// Messages sent.
    pub total_requests: u64,
    pub messages_received: u64,
    pub successful_requests: u64,
    pub err_count: i32,
    pub bytes_sent: u64,
    pub bytes_received: u64,
    pub max_response_time: u64,
    /// 0 when no round trip was recorded.
    pub min_response_time: u64,
    pub avg_response_time: u64,
    pub match_timeouts: u64,
}

/// Reads an endpoint's counters into its report figures: the URL's host and
/// path, the counts, the shortest round trip (0 when there is none yet) and
/// the average round trip per success, rounded.
pub fn snapshot_counts(stats: &WsEndpointStats) -> (r: WsCounts)
    ensures
        r.name@ == stats.name@,
        r.url@ == stats.url@,
        (r.host@, r.path@) == host_and_path(stats.url@),
        r.connections_opened == stats.connections_opened as u64,
        r.connections_active == stats.concurrent_number as i32,
        r.connections_failed == stats.connections_failed as u64,
        r.connections_dropped == stats.connections_dropped as u64,
        r.heartbeat_timeouts == stats.heartbeat_timeouts as u64,
        r.reconnects == stats.reconnects as u64,
        r.total_requests == stats.messages_sent as u64,
        r.messages_received == stats.messages_received as u64,
        r.successful_requests == stats.successful_requests as u64,
        r.err_count == stats.err_count as i32,
        r.bytes_sent == stats.bytes_sent as u64,
        r.bytes_received == stats.bytes_received as u64,
        r.max_response_time == stats.max_response_time,
        r.min_response_time == if stats.min_response_time == u64::MAX {
            0
        } else {
            stats.min_response_time
        },
        r.avg_response_time == rounded_average(
            stats.total_response_time_ms as nat,
            stats.successful_requests as nat,
        ),
        r.match_timeouts == stats.match_timeouts as u64,
{
    let (host, path) = split_host_path(stats.url.as_str());
    let min_rt = if stats.min_response_time == u64::MAX {
        0
    } else {
        stats.min_response_time
    };
    WsCounts {
        name: stats.name.clone(),
        url: stats.url.clone(),
        host,
        path,
        connections_opened: stats.connections_opened as u64,
        connections_active: stats.concurrent_number as i32,
        connections_failed: stats.connections_failed as u64,
        connections_dropped: stats.connections_dropped as u64,
        heartbeat_timeouts: stats.heartbeat_timeouts as u64,
        reconnects: stats.reconnects as u64,
        total_requests: stats.messages_sent as u64,
        messages_received: stats.messages_received as u64,
        successful_requests: stats.successful_requests as u64,
        err_count: stats.err_count as i32,
        bytes_sent: stats.bytes_sent as u64,
        bytes_received: stats.bytes_received as u64,
        max_response_time: stats.max_response_time,
        min_response_time: min_rt,
        avg_response_time: average_rounded(
            stats.total_response_time_ms,
            stats.successful_requests as u64,
        ),
        match_timeouts: stats.match_timeouts as u64,
    }
}

/// The counters after messages received in request-response mode, in order
/// from `s`: each with the round trip it completed, if any, and its size.
pub open spec fn after_receipts(s: WsEndpointStats, rs: Seq<(Option<u64>, usize)>) -> WsEndpointStats
    decreases rs.len(),
{
    if rs.len() == 0 {
        s
    } else {
        receive_stats(after_receipts(s, rs.drop_last()), true, rs.last().0, rs.last().1)
    }
}

/// The sum of the round trips completed among `rs`.
pub open spec fn round_trips_sum(rs: Seq<(Option<u64>, usize)>) -> int
    decreases rs.len(),
{
    if rs.len() == 0 {
        0
    } else {
        round_trips_sum(rs.drop_last()) + match rs.last().0 {
            Some(ms) => ms as int,
            None => 0,
        }
    }
}

/// How many of `rs` completed a round trip.
pub open spec fn round_trips_count(rs: Seq<(Option<u64>, usize)>) -> nat
    decreases rs.len(),
{
    if rs.len() == 0 {
        0
    } else {
        round_trips_count(rs.drop_last()) + if rs.last().0 is Some {
            1nat
        } else {
            0nat
        }
    }
}

/// In request-response mode the summed round-trip time grows by every
/// completed round trip (modulo 2^64) and the successes by their number, so
/// the average round trip is the sum of the matched round trips over the
/// matched replies.
pub proof fn law_round_trips_add_up(s: WsEndpointStats, rs: Seq<(Option<u64>, usize)>)
    requires
        s.successful_requests + rs.len() <= usize::MAX,
    ensures
        after_receipts(s, rs).total_response_time_ms as int == (s.total_response_time_ms as int
            + round_trips_sum(rs)) % 0x1_0000_0000_0000_0000int,
        after_receipts(s, rs).successful_requests == s.successful_requests + round_trips_count(rs),
    decreases rs.len(),
{
    if rs.len() > 0 {
        let rest = rs.drop_last();
        law_round_trips_add_up(s, rest);
        assert(round_trips_count(rest) <= rest.len()) by {
            lemma_round_trips_count_bound(rest);
        }
        let m: int = 0x1_0000_0000_0000_0000int;
        let a = s.total_response_time_ms as int + round_trips_sum(rest);
        match rs.last().0 {
            Some(ms) => {
                vstd::arithmetic::div_mod::lemma_add_mod_noop_right(ms as int, a, m);
                assert(ms as int + a == s.total_response_time_ms as int + round_trips_sum(rs));
            },
            None => {},
        }
    }
}

/// No more round trips complete than messages arrive.
pub proof fn lemma_round_trips_count_bound(rs: Seq<(Option<u64>, usize)>)
    ensures
        round_trips_count(rs) <= rs.len(),
    decreases rs.len(),
{
    if rs.len() > 0 {
        lemma_round_trips_count_bound(rs.drop_last());
    }
}

} // verus!
