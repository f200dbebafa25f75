//! Running counters of HTTP endpoints (and of the whole run), the events of
//! one request that move them, and their integer snapshot.
use vstd::prelude::*;
use rand::Rng;
use crate::url_parts::{host_and_path, split_host_path};
use crate::ws_stats::{
    add_wrapping, add_wrapping_u64, atomic_max, atomic_min, average_rounded, rounded_average, wrap_add,
    wrap_add_u64,
};

verus! {

/// Whether an HTTP status counts as a success: the 2xx statuses 200 to 208
/// and 226, and the 3xx statuses 300 to 305, 307 and 308.
pub open spec fn is_success_status_spec(code: u16) -> bool {
    (200 <= code <= 208) || code == 226 || (300 <= code <= 305) || code == 307 || code == 308
}

/// Whether an HTTP status counts as a success (see `is_success_status_spec`).
pub fn is_success_status(code: u16) -> (r: bool)
    ensures
        r == is_success_status_spec(code),
{
    match code {
        200 | 201 | 202 | 203 | 204 | 205 | 206 | 207 | 208 | 226 | 300 | 301 | 302 | 303 | 304
        | 305 | 307 | 308 => true,
        _ => false,
    }
}

/// The size counted for response headers of the given (name, value) byte
/// lengths: each header counts its name and value plus two bytes after each.
pub open spec fn headers_size_spec(lens: Seq<(usize, usize)>) -> nat
    decreases lens.len(),
{
    if lens.len() == 0 {
        0
    } else {
        headers_size_spec(lens.drop_last()) + (lens.last().0 as nat) + 2 + (lens.last().1 as nat) + 2
    }
}

/// The size counted for response headers (see `headers_size_spec`).
pub fn headers_size(lens: &Vec<(usize, usize)>) -> (r: usize)
    requires
        headers_size_spec(lens@) <= usize::MAX,
    ensures
        r == headers_size_spec(lens@),
{
    let mut acc: usize = 0;
    let n = lens.len();
    for i in 0..n
        invariant
            n == lens@.len(),
            headers_size_spec(lens@) <= usize::MAX,
            acc == headers_size_spec(lens@.take(i as int)),
    {
        proof {
            assert(lens@.take(i + 1).drop_last() =~= lens@.take(i as int));
            lemma_headers_size_prefix(lens@, i + 1);
        }
        acc = acc + lens[i].0 + 2 + lens[i].1 + 2;
    }
    proof {
        assert(lens@.take(n as int) =~= lens@);
    }
    acc
}

/// The headers of a prefix count no more than all of them.
pub proof fn lemma_headers_size_prefix(lens: Seq<(usize, usize)>, k: int)
    requires
        0 <= k <= lens.len(),
    ensures
        headers_size_spec(lens.take(k)) <= headers_size_spec(lens),
    decreases lens.len(),
{
    if k < lens.len() {
        assert(lens.drop_last().take(k) =~= lens.take(k));
        lemma_headers_size_prefix(lens.drop_last(), k);
    } else {
        assert(lens.take(k) =~= lens);
    }
}

/// A think time between requests, in milliseconds.
#[derive(Clone, Debug)]
pub struct ThinkTime {
    pub min_millis: u64,
    pub max_millis: u64,
}

/// A random number in `lo..=hi`, drawn with `rand`'s thread-local generator
/// (`Rng::gen_range`); of the result only the range is known.
#[verifier::external_body]
fn random_between(lo: u64, hi: u64) -> (r: u64)
    requires
        lo <= hi,
    ensures
        lo <= r <= hi,
{
    rand::thread_rng().gen_range(lo..=hi)
}

/// Whether `d` is a time the think-time draw over `lo..=hi` can give: a
/// possible outcome of `random_between(lo, hi)`, a uniform draw from the
/// whole range.
pub closed spec fn drawn_between(lo: u64, hi: u64, d: u64) -> bool {
    call_ensures(random_between, (lo, hi), d)
}

/// Every time the draw over `lo..=hi` gives lies within `lo..=hi`.
pub proof fn lemma_drawn_between_in_range(lo: u64, hi: u64, d: u64)
    requires
        drawn_between(lo, hi, d),
    ensures
        lo <= d <= hi,
{
}

/// How long to wait before the next attempt: a fresh draw over the think
/// time's whole range (`drawn_between`); none when the minimum exceeds the
/// maximum (the setting has no effect then).
pub fn pick_think_time(tt: &ThinkTime) -> (r: Option<u64>)
    ensures
        tt.min_millis <= tt.max_millis ==> (r matches Some(d) && tt.min_millis <= d <= tt.max_millis),
        tt.min_millis <= tt.max_millis ==> (r matches Some(d) && drawn_between(tt.min_millis, tt.max_millis, d)),
        tt.min_millis > tt.max_millis ==> r is None,
{
    if tt.min_millis <= tt.max_millis {
        Some(random_between(tt.min_millis, tt.max_millis))
    } else {
        None
    }
}

/// The running counters of one HTTP endpoint, or of the whole run.
pub struct ApiEndpointStats {
    pub name: String,
    pub url: String,
    pub method: String,
    /// Request loops started.
    pub concurrent_number: usize,
    pub total_requests: usize,
    pub successful_requests: usize,
    pub err_count: usize,
    /// Sum of response times, in milliseconds.
    pub total_response_time_ms: u64,
    /// Bytes of response headers and bodies.
    pub total_response_size: usize,
    pub max_response_time: u64,
    /// `u64::MAX` until a response was timed.
    pub min_response_time: u64,
}

impl ApiEndpointStats {
    /// Counters for an endpoint, all at zero (the shortest response at `u64::MAX`).
    pub fn new(name: String, url: String, method: String) -> (s: Self)
        ensures
            s.name == name,
            s.url == url,
            s.method == method,
            s.concurrent_number == 0,
            s.total_requests == 0,
            s.successful_requests == 0,
            s.err_count == 0,
            s.total_response_time_ms == 0,
            s.total_response_size == 0,
            s.max_response_time == 0,
            s.min_response_time == u64::MAX,
    {
        ApiEndpointStats {
            name,
            url,
            method,
            concurrent_number: 0,
            total_requests: 0,
            successful_requests: 0,
            err_count: 0,
            total_response_time_ms: 0,
            total_response_size: 0,
            max_response_time: 0,
            min_response_time: u64::MAX,
        }
    }

    /// A request loop started.
    pub fn on_loop_started(&mut self)
        ensures
            *final(self) == (ApiEndpointStats {
                concurrent_number: wrap_add(old(self).concurrent_number, 1),
                ..*old(self)
            }),
    {
        self.concurrent_number = add_wrapping(self.concurrent_number, 1);
    }

    /// A response arrived after `duration_ms` milliseconds with status `code`:
    /// one more request, its time summed and bounding the longest and shortest;
    /// a status that is no success counts as an error.
    pub fn on_response(&mut self, code: u16, duration_ms: u64)
        ensures
            *final(self) == (ApiEndpointStats {
                total_requests: wrap_add(old(self).total_requests, 1),
                total_response_time_ms: wrap_add_u64(old(self).total_response_time_ms, duration_ms),
                max_response_time: if duration_ms > old(self).max_response_time {
                    duration_ms
                } else {
                    old(self).max_response_time
                },
                min_response_time: if duration_ms < old(self).min_response_time {
                    duration_ms
                } else {
                    old(self).min_response_time
                },
                err_count: if is_success_status_spec(code) {
                    old(self).err_count
                } else {
                    wrap_add(old(self).err_count, 1)
                },
                ..*old(self)
            }),
    {
        self.total_requests = add_wrapping(self.total_requests, 1);
        self.total_response_time_ms = add_wrapping_u64(self.total_response_time_ms, duration_ms);
        if !is_success_status(code) {
            self.err_count = add_wrapping(self.err_count, 1);
        }
        atomic_max(&mut self.max_response_time, duration_ms);
        atomic_min(&mut self.min_response_time, duration_ms);
    }

    /// `bytes` more bytes of response (headers or a body chunk).
    pub fn on_bytes(&mut self, bytes: usize)
        ensures
            *final(self) == (ApiEndpointStats {
                total_response_size: wrap_add(old(self).total_response_size, bytes),
                ..*old(self)
            }),
    {
        self.total_response_size = add_wrapping(self.total_response_size, bytes);
    }

    /// One more error (reading the body failed, or an assertion failed).
    pub fn on_error(&mut self)
        ensures
            *final(self) == (ApiEndpointStats { err_count: wrap_add(old(self).err_count, 1), ..*old(self) }),
    {
        self.err_count = add_wrapping(self.err_count, 1);
    }

    /// One more success.
    pub fn on_success(&mut self)
        ensures
            *final(self) == (ApiEndpointStats {
                successful_requests: wrap_add(old(self).successful_requests, 1),
                ..*old(self)
            }),
    {
        self.successful_requests = add_wrapping(self.successful_requests, 1);
    }

    /// The request could not be sent: one more request and one more error.
    pub fn on_send_failed(&mut self)
        ensures
            *final(self) == (ApiEndpointStats {
                total_requests: wrap_add(old(self).total_requests, 1),
                err_count: wrap_add(old(self).err_count, 1),
                ..*old(self)
            }),
    {
        self.total_requests = add_wrapping(self.total_requests, 1);
        self.err_count = add_wrapping(self.err_count, 1);
    }
}

/// The integer figures of one HTTP endpoint's report.
#[derive(Clone, Debug)]
pub struct ApiCounts {
    pub name: String,
    pub url: String,
    pub host: String,
    pub path: String,
    pub method: String,
    pub total_requests: u64,
    pub successful_requests: u64,
    pub err_count: i32,
    pub max_response_time: u64,
    pub min_response_time: u64,
    pub total_response_size: u64,
    pub concurrent_number: i32,
    /// Average response time per request, rounded (0 without requests).
    pub avg_response_time: u64,
}

/// Reads an endpoint's counters into its report figures: the URL's host and
/// path, the counts, and the average response time per request, rounded.
pub fn snapshot_api_counts(stats: &ApiEndpointStats) -> (r: ApiCounts)
    ensures
        r.name@ == stats.name@,
        r.url@ == stats.url@,
        (r.host@, r.path@) == host_and_path(stats.url@),
        r.method@ == stats.method@,
        r.total_requests == stats.total_requests as u64,
        r.successful_requests == stats.successful_requests as u64,
        r.err_count == stats.err_count as i32,
        r.max_response_time == stats.max_response_time,
        r.min_response_time == stats.min_response_time,
        r.total_response_size == stats.total_response_size as u64,
        r.concurrent_number == stats.concurrent_number as i32,
        r.avg_response_time == rounded_average(
            stats.total_response_time_ms as nat,
            stats.total_requests as nat,
        ),
{
    let (host, path) = split_host_path(stats.url.as_str());
    ApiCounts {
        name: stats.name.clone(),
        url: stats.url.clone(),
        host,
        path,
        method: stats.method.clone(),
        total_requests: stats.total_requests as u64,
        successful_requests: stats.successful_requests as u64,
        err_count: stats.err_count as i32,
        max_response_time: stats.max_response_time,
        min_response_time: stats.min_response_time,
        total_response_size: stats.total_response_size as u64,
        concurrent_number: stats.concurrent_number as i32,
        avg_response_time: average_rounded(stats.total_response_time_ms, stats.total_requests as u64),
    }
}

} // verus!
