//! Observability: request priorities, network quality levels, the runtime
//! metrics counters, and the RTT sliding window behind adaptive timeouts and
//! network-quality evaluation.
use vstd::prelude::*;
use vstd::relations::{sorted_by, total_ordering};
use crate::error::CatcherError;

verus! {

broadcast use vstd::seq_lib::group_to_multiset_ensures;

/// Request priority; a smaller rank is more urgent.
#[derive(Debug, Clone, Copy, PartialEq, Eq, Structural, PartialOrd, Ord, Hash)]
pub enum Priority {
    Critical,
    High,
    Normal,
    Low,
    Background,
}

impl Priority {
    /// The numeric rank of the priority (1 is the most urgent).
    pub open spec fn spec_rank(self) -> u8 {
        match self {
            Priority::Critical => 1,
            Priority::High => 2,
            Priority::Normal => 5,
            Priority::Low => 8,
            Priority::Background => 10,
        }
    }

    pub fn rank(&self) -> (r: u8)
        ensures
            r == self.spec_rank(),
    {
        match self {
            Priority::Critical => 1,
            Priority::High => 2,
            Priority::Normal => 5,
            Priority::Low => 8,
            Priority::Background => 10,
        }
    }

    /// Whether requests of this priority go to the high-priority lane
    /// (`Critical` and `High`).
    pub fn is_high(&self) -> (r: bool)
        ensures
            r == (self.spec_rank() <= 2),
    {
        self.rank() <= 2
    }
}

/// Network quality, from best to worst.
#[derive(Debug, Clone, Copy, PartialEq, Eq, Structural, PartialOrd, Ord, Hash)]
pub enum NetworkQualityLevel {
    Excellent,
    Good,
    Fair,
    Poor,
    Bad,
}

impl NetworkQualityLevel {
    /// Position in the order from best (0) to worst (4).
    pub open spec fn spec_index(self) -> u8 {
        match self {
            NetworkQualityLevel::Excellent => 0,
            NetworkQualityLevel::Good => 1,
            NetworkQualityLevel::Fair => 2,
            NetworkQualityLevel::Poor => 3,
            NetworkQualityLevel::Bad => 4,
        }
    }

    pub fn index(&self) -> (r: u8)
        ensures
            r == self.spec_index(),
    {
        match self {
            NetworkQualityLevel::Excellent => 0,
            NetworkQualityLevel::Good => 1,
            NetworkQualityLevel::Fair => 2,
            NetworkQualityLevel::Poor => 3,
            NetworkQualityLevel::Bad => 4,
        }
    }
}

/// Kind of network link.
#[derive(Debug, Clone, Copy, PartialEq, Eq, Structural)]
pub enum ConnectionType {
    Wifi,
    Cellular,
    Ethernet,
    Vpn,
    Unknown,
}

/// Suggested request concurrency for a network quality level.
pub open spec fn concurrency_spec(level: NetworkQualityLevel) -> usize {
    match level {
        NetworkQualityLevel::Excellent => 50,
        NetworkQualityLevel::Good => 25,
        NetworkQualityLevel::Fair => 10,
        NetworkQualityLevel::Poor => 5,
        NetworkQualityLevel::Bad => 2,
    }
}

/// Suggested request concurrency for a network quality level.
pub fn concurrency_for_quality(level: NetworkQualityLevel) -> (r: usize)
    ensures
        r == concurrency_spec(level),
{
    match level {
        NetworkQualityLevel::Excellent => 50,
        NetworkQualityLevel::Good => 25,
        NetworkQualityLevel::Fair => 10,
        NetworkQualityLevel::Poor => 5,
        NetworkQualityLevel::Bad => 2,
    }
}

/// Every quality level allows some concurrency, and a worse level never
/// allows more than a better one.
pub proof fn law_concurrency_positive_and_monotone(a: NetworkQualityLevel, b: NetworkQualityLevel)
    ensures
        concurrency_spec(a) > 0,
        a.spec_index() <= b.spec_index() ==> concurrency_spec(b) <= concurrency_spec(a),
{
}

/// Direction of a change of quality level.
#[derive(Debug, Clone, Copy, PartialEq, Eq, Structural)]
pub enum QualityTrend {
    /// No earlier level is known.
    Unknown,
    Improving,
    Degrading,
    Stable,
}

pub open spec fn trend_spec(level: NetworkQualityLevel, previous: Option<NetworkQualityLevel>) -> QualityTrend {
    match previous {
        None => QualityTrend::Unknown,
        Some(p) => {
            if level.spec_index() < p.spec_index() {
                QualityTrend::Improving
            } else if level.spec_index() > p.spec_index() {
                QualityTrend::Degrading
            } else {
                QualityTrend::Stable
            }
        },
    }
}

/// The trend reported when the quality moves from `previous` to `level`.
pub fn quality_trend(level: NetworkQualityLevel, previous: Option<NetworkQualityLevel>) -> (r: QualityTrend)
    ensures
        r == trend_spec(level, previous),
{
    match previous {
        None => QualityTrend::Unknown,
        Some(p) => {
            let a = level.index();
            let b = p.index();
            if a < b {
                QualityTrend::Improving
            } else if a > b {
                QualityTrend::Degrading
            } else {
                QualityTrend::Stable
            }
        },
    }
}

/// The label of a trend in quality-change events.
pub fn trend_label(t: QualityTrend) -> (r: &'static str)
    ensures
        r@ == (match t {
            QualityTrend::Unknown => "unknown"@,
            QualityTrend::Improving => "improving"@,
            QualityTrend::Degrading => "degrading"@,
            QualityTrend::Stable => "stable"@,
        }),
{
    match t {
        QualityTrend::Unknown => "unknown",
        QualityTrend::Improving => "improving",
        QualityTrend::Degrading => "degrading",
        QualityTrend::Stable => "stable",
    }
}

/// Swapping the two levels turns an improvement into a degradation.
pub proof fn law_trend_antisymmetric(a: NetworkQualityLevel, b: NetworkQualityLevel)
    ensures
        trend_spec(a, Some(b)) == QualityTrend::Improving <==> trend_spec(b, Some(a))
            == QualityTrend::Degrading,
        trend_spec(a, Some(a)) == QualityTrend::Stable,
{
}

// ── Metrics ──────────────────────────────────────────────────────────

/// Counters kept by the metrics collector. All counters wrap at the end
/// of their range, like the atomic counters they model.
pub struct MetricsView {
    pub http_requests: u64,
    pub http_successes: u64,
    pub http_failures: u64,
    pub http_retries: u64,
    pub http_total_latency_us: u64,
    pub ws_connects_attempted: u64,
    pub ws_connects_succeeded: u64,
    pub ws_disconnects: u64,
    pub ws_messages_sent: u64,
    pub ws_messages_received: u64,
    pub cb_open_count: u64,
    pub cb_half_open_count: u64,
    pub queue_high_enqueued: u64,
    pub queue_low_enqueued: u64,
    pub queue_timeouts: u32,
}

pub open spec fn inc64(x: u64) -> u64 {
    if x == u64::MAX {
        0
    } else {
        (x + 1) as u64
    }
}

pub open spec fn add64(x: u64, y: u64) -> u64 {
    ((x + y) % (u64::MAX + 1)) as u64
}

pub open spec fn inc32(x: u32) -> u32 {
    if x == u32::MAX {
        0
    } else {
        (x + 1) as u32
    }
}

fn bump(x: u64) -> (r: u64)
    ensures
        r == inc64(x),
{
    if x == u64::MAX {
        0
    } else {
        x + 1
    }
}

/// Lightweight runtime counters.
pub struct MetricsCollector {
    http_requests_total: u64,
    http_successes: u64,
    http_failures: u64,
    http_retries: u64,
    http_total_latency_us: u64,
    ws_connects_attempted: u64,
    ws_connects_succeeded: u64,
    ws_disconnects: u64,
    ws_messages_sent: u64,
    ws_messages_received: u64,
    cb_open_count: u64,
    cb_half_open_count: u64,
    queue_high_priority_enqueued: u64,
    queue_low_priority_enqueued: u64,
    queue_timeouts: u32,
}

impl View for MetricsCollector {
    type V = MetricsView;

    closed spec fn view(&self) -> MetricsView {
        MetricsView {
            http_requests: self.http_requests_total,
            http_successes: self.http_successes,
            http_failures: self.http_failures,
            http_retries: self.http_retries,
            http_total_latency_us: self.http_total_latency_us,
            ws_connects_attempted: self.ws_connects_attempted,
            ws_connects_succeeded: self.ws_connects_succeeded,
            ws_disconnects: self.ws_disconnects,
            ws_messages_sent: self.ws_messages_sent,
            ws_messages_received: self.ws_messages_received,
            cb_open_count: self.cb_open_count,
            cb_half_open_count: self.cb_half_open_count,
            queue_high_enqueued: self.queue_high_priority_enqueued,
            queue_low_enqueued: self.queue_low_priority_enqueued,
            queue_timeouts: self.queue_timeouts,
        }
    }
}

pub open spec fn zero_metrics() -> MetricsView {
    MetricsView {
        http_requests: 0,
        http_successes: 0,
        http_failures: 0,
        http_retries: 0,
        http_total_latency_us: 0,
        ws_connects_attempted: 0,
        ws_connects_succeeded: 0,
        ws_disconnects: 0,
        ws_messages_sent: 0,
        ws_messages_received: 0,
        cb_open_count: 0,
        cb_half_open_count: 0,
        queue_high_enqueued: 0,
        queue_low_enqueued: 0,
        queue_timeouts: 0,
    }
}

/// The integer part of a metrics snapshot.
#[derive(Debug, Clone, Copy, PartialEq, Eq, Structural)]
pub struct MetricsCounts {
    pub http_requests: u64,
    pub http_successes: u64,
    /// Total latency divided by the number of successes (0 without successes).
    pub http_avg_latency_us: u64,
    pub http_retries: u64,
    pub ws_connects_attempted: u64,
    pub ws_connects_succeeded: u64,
    pub ws_disconnects: u64,
    pub ws_messages_sent: u64,
    pub ws_messages_received: u64,
    pub cb_open_count: u64,
    pub queue_timeouts: u32,
}

impl MetricsCollector {
    /// All counters at zero.
    pub fn new() -> (r: Self)
        ensures
            r@ == zero_metrics(),
    {
        MetricsCollector {
            http_requests_total: 0,
            http_successes: 0,
            http_failures: 0,
            http_retries: 0,
            http_total_latency_us: 0,
            ws_connects_attempted: 0,
            ws_connects_succeeded: 0,
            ws_disconnects: 0,
            ws_messages_sent: 0,
            ws_messages_received: 0,
            cb_open_count: 0,
            cb_half_open_count: 0,
            queue_high_priority_enqueued: 0,
            queue_low_priority_enqueued: 0,
            queue_timeouts: 0,
        }
    }

    /// Counts a finished HTTP request and adds its latency.
    pub fn record_http_request(&mut self, success: bool, latency_us: u64)
        ensures
            final(self)@ == (MetricsView {
                http_requests: inc64(old(self)@.http_requests),
                http_successes: if success {
                    inc64(old(self)@.http_successes)
                } else {
                    old(self)@.http_successes
                },
                http_failures: if success {
                    old(self)@.http_failures
                } else {
                    inc64(old(self)@.http_failures)
                },
                http_total_latency_us: add64(old(self)@.http_total_latency_us, latency_us),
                ..old(self)@
            }),
    {
        self.http_requests_total = bump(self.http_requests_total);
        if success {
            self.http_successes = bump(self.http_successes);
        } else {
            self.http_failures = bump(self.http_failures);
        }
        let t = self.http_total_latency_us;
        let s = t.wrapping_add(latency_us);
        assert(s == add64(t, latency_us)) by (bit_vector)
            requires
                s == t.wrapping_add(latency_us),
        ;
        self.http_total_latency_us = s;
    }

    /// Counts one retry.
    pub fn increment_http_retries(&mut self)
        ensures
            final(self)@ == (MetricsView { http_retries: inc64(old(self)@.http_retries), ..old(self)@ }),
    {
        self.http_retries = bump(self.http_retries);
    }

    /// Counts a WebSocket connection attempt.
    pub fn record_ws_connect(&mut self, success: bool)
        ensures
            final(self)@ == (MetricsView {
                ws_connects_attempted: inc64(old(self)@.ws_connects_attempted),
                ws_connects_succeeded: if success {
                    inc64(old(self)@.ws_connects_succeeded)
                } else {
                    old(self)@.ws_connects_succeeded
                },
                ..old(self)@
            }),
    {
        self.ws_connects_attempted = bump(self.ws_connects_attempted);
        if success {
            self.ws_connects_succeeded = bump(self.ws_connects_succeeded);
        }
    }

    pub fn record_ws_disconnect(&mut self)
        ensures
            final(self)@ == (MetricsView {
                ws_disconnects: inc64(old(self)@.ws_disconnects),
                ..old(self)@
            }),
    {
        self.ws_disconnects = bump(self.ws_disconnects);
    }

    pub fn record_ws_message_sent(&mut self)
        ensures
            final(self)@ == (MetricsView {
                ws_messages_sent: inc64(old(self)@.ws_messages_sent),
                ..old(self)@
            }),
    {
        self.ws_messages_sent = bump(self.ws_messages_sent);
    }

    pub fn record_ws_message_received(&mut self)
        ensures
            final(self)@ == (MetricsView {
                ws_messages_received: inc64(old(self)@.ws_messages_received),
                ..old(self)@
            }),
    {
        self.ws_messages_received = bump(self.ws_messages_received);
    }

    pub fn record_cb_open(&mut self)
        ensures
            final(self)@ == (MetricsView { cb_open_count: inc64(old(self)@.cb_open_count), ..old(self)@ }),
    {
        self.cb_open_count = bump(self.cb_open_count);
    }

    pub fn record_cb_half_open(&mut self)
        ensures
            final(self)@ == (MetricsView {
                cb_half_open_count: inc64(old(self)@.cb_half_open_count),
                ..old(self)@
            }),
    {
        self.cb_half_open_count = bump(self.cb_half_open_count);
    }

    /// Counts an enqueued request in the lane of its priority.
    pub fn record_queue_enqueue(&mut self, priority: Priority)
        ensures
            final(self)@ == (if priority.spec_rank() <= 2 {
                MetricsView { queue_high_enqueued: inc64(old(self)@.queue_high_enqueued), ..old(self)@ }
            } else {
                MetricsView { queue_low_enqueued: inc64(old(self)@.queue_low_enqueued), ..old(self)@ }
            }),
    {
        if priority.is_high() {
            self.queue_high_priority_enqueued = bump(self.queue_high_priority_enqueued);
        } else {
            self.queue_low_priority_enqueued = bump(self.queue_low_priority_enqueued);
        }
    }

    pub fn record_queue_timeout(&mut self)
        ensures
            final(self)@ == (MetricsView { queue_timeouts: inc32(old(self)@.queue_timeouts), ..old(self)@ }),
    {
        self.queue_timeouts = if self.queue_timeouts == u32::MAX {
            0
        } else {
            self.queue_timeouts + 1
        };
    }

    /// The integer part of a snapshot of all counters.
    pub fn counts(&self) -> (r: MetricsCounts)
        ensures
            r == (MetricsCounts {
                http_requests: self@.http_requests,
                http_successes: self@.http_successes,
                http_avg_latency_us: if self@.http_successes == 0 {
                    0
                } else {
                    (self@.http_total_latency_us / self@.http_successes) as u64
                },
                http_retries: self@.http_retries,
                ws_connects_attempted: self@.ws_connects_attempted,
                ws_connects_succeeded: self@.ws_connects_succeeded,
                ws_disconnects: self@.ws_disconnects,
                ws_messages_sent: self@.ws_messages_sent,
                ws_messages_received: self@.ws_messages_received,
                cb_open_count: self@.cb_open_count,
                queue_timeouts: self@.queue_timeouts,
            }),
    {
        MetricsCounts {
            http_requests: self.http_requests_total,
            http_successes: self.http_successes,
            http_avg_latency_us: if self.http_successes == 0 {
                0
            } else {
                self.http_total_latency_us / self.http_successes
            },
            http_retries: self.http_retries,
            ws_connects_attempted: self.ws_connects_attempted,
            ws_connects_succeeded: self.ws_connects_succeeded,
            ws_disconnects: self.ws_disconnects,
            ws_messages_sent: self.ws_messages_sent,
            ws_messages_received: self.ws_messages_received,
            cb_open_count: self.cb_open_count,
            queue_timeouts: self.queue_timeouts,
        }
    }
}

impl Default for MetricsCollector {
    fn default() -> (r: Self)
        ensures
            r@ == zero_metrics(),
    {
        Self::new()
    }
}

/// Requests are counted as successes or failures and nothing else: modulo
/// the counters' range, the total is always their sum.
pub open spec fn request_counts_agree(m: MetricsView) -> bool {
    (m.http_requests as int - m.http_successes as int - m.http_failures as int) % (u64::MAX + 1)
        == 0
}

/// Recording a request keeps the total equal to successes plus failures.
pub proof fn law_request_counts_agree(m: MetricsView, success: bool, latency_us: u64)
    requires
        request_counts_agree(m),
    ensures
        request_counts_agree(
            MetricsView {
                http_requests: inc64(m.http_requests),
                http_successes: if success {
                    inc64(m.http_successes)
                } else {
                    m.http_successes
                },
                http_failures: if success {
                    m.http_failures
                } else {
                    inc64(m.http_failures)
                },
                http_total_latency_us: add64(m.http_total_latency_us, latency_us),
                ..m
            },
        ),
{
    let n: int = u64::MAX + 1;
    let d: int = m.http_requests as int - m.http_successes as int - m.http_failures as int;
    let r: int = inc64(m.http_requests) as int;
    let s: int = if success { inc64(m.http_successes) as int } else { m.http_successes as int };
    let f: int = if success { m.http_failures as int } else { inc64(m.http_failures) as int };
    assert(r == m.http_requests + 1 || r == m.http_requests + 1 - n);
    assert(s + f == m.http_successes + m.http_failures + 1 || s + f == m.http_successes
        + m.http_failures + 1 - n);
    let e: int = r - s - f;
    assert(e == d || e == d - n || e == d + n);
    vstd::arithmetic::div_mod::lemma_mod_add_multiples_vanish(d - n, n);
    vstd::arithmetic::div_mod::lemma_mod_sub_multiples_vanish(d + n, n);
}

/// A fresh collector satisfies the request-count agreement.
pub proof fn law_fresh_counts_agree()
    ensures
        request_counts_agree(zero_metrics()),
{
}

// ── RTT sliding window ───────────────────────────────────────────────

/// Statistics over a window of RTT samples.
#[derive(Debug, Clone, Copy, PartialEq, Eq, Structural)]
pub struct RttStats {
    pub avg_rtt_ms: u64,
    pub min_rtt_ms: u64,
    pub max_rtt_ms: u64,
    /// Mean absolute deviation from the average (0 with a single sample).
    pub jitter_ms: u64,
    pub sample_count: usize,
}

pub open spec fn seq_sum(s: Seq<u64>) -> int
    decreases s.len(),
{
    if s.len() == 0 {
        0
    } else {
        seq_sum(s.drop_last()) + s.last()
    }
}

pub open spec fn abs_diff(a: int, b: int) -> int {
    if a >= b {
        a - b
    } else {
        b - a
    }
}

/// Sum of the absolute deviations of the samples from `avg`.
pub open spec fn dev_sum(s: Seq<u64>, avg: int) -> int
    decreases s.len(),
{
    if s.len() == 0 {
        0
    } else {
        dev_sum(s.drop_last(), avg) + abs_diff(s.last() as int, avg)
    }
}

pub open spec fn seq_min(s: Seq<u64>) -> u64
    decreases s.len(),
{
    if s.len() <= 1 {
        s[0]
    } else if s.last() < seq_min(s.drop_last()) {
        s.last()
    } else {
        seq_min(s.drop_last())
    }
}

pub open spec fn seq_max(s: Seq<u64>) -> u64
    decreases s.len(),
{
    if s.len() <= 1 {
        s[0]
    } else if s.last() > seq_max(s.drop_last()) {
        s.last()
    } else {
        seq_max(s.drop_last())
    }
}

pub open spec fn stats_avg(s: Seq<u64>) -> int {
    seq_sum(s) / (s.len() as int)
}

/// The statistics of a window of samples; all zero for an empty window.
pub open spec fn stats_spec(s: Seq<u64>) -> RttStats {
    if s.len() == 0 {
        RttStats { avg_rtt_ms: 0, min_rtt_ms: 0, max_rtt_ms: 0, jitter_ms: 0, sample_count: 0 }
    } else {
        RttStats {
            avg_rtt_ms: stats_avg(s) as u64,
            min_rtt_ms: seq_min(s),
            max_rtt_ms: seq_max(s),
            jitter_ms: if s.len() > 1 {
                (dev_sum(s, stats_avg(s)) / (s.len() as int)) as u64
            } else {
                0
            },
            sample_count: s.len() as usize,
        }
    }
}

/// The statistics can be computed in 64-bit arithmetic: the sum fits in a
/// `u64`, and when the jitter is computed (more than one sample) every
/// sample fits in an `i64` and the deviation sum in a `u64`.
pub open spec fn stats_computable(s: Seq<u64>) -> bool {
    &&& seq_sum(s) <= u64::MAX
    &&& s.len() > 1 ==> forall|i: int| 0 <= i < s.len() ==> #[trigger] s[i] <= i64::MAX
    &&& s.len() > 1 ==> dev_sum(s, stats_avg(s)) <= u64::MAX
}

pub open spec fn rtt_leq() -> spec_fn(u64, u64) -> bool {
    |a: u64, b: u64| a <= b
}

/// The samples in ascending order.
pub open spec fn sorted_samples(s: Seq<u64>) -> Seq<u64> {
    s.sort_by(rtt_leq())
}

/// Index of the 90th percentile in a sorted window of `n > 0` samples:
/// `ceil(0.9 * n) - 1`.
pub open spec fn p90_index(n: int) -> int {
    (9 * n + 9) / 10 - 1
}

/// The 90th-percentile sample of a non-empty window.
pub open spec fn p90_spec(s: Seq<u64>) -> u64 {
    sorted_samples(s)[p90_index(s.len() as int)]
}

/// The window after recording a sample: the oldest sample is dropped once
/// the window holds `capacity` samples.
pub open spec fn record_spec(s: Seq<u64>, capacity: usize, rtt: u64) -> Seq<u64> {
    if s.len() >= capacity {
        s.drop_first().push(rtt)
    } else {
        s.push(rtt)
    }
}

/// A bounded window of the most recent RTT samples, in arrival order.
pub struct RttWindow {
    samples: Vec<u64>,
    capacity: usize,
}

impl View for RttWindow {
    type V = Seq<u64>;

    closed spec fn view(&self) -> Seq<u64> {
        self.samples@
    }
}

proof fn lemma_sum_push(s: Seq<u64>, x: u64)
    ensures
        seq_sum(s.push(x)) == seq_sum(s) + x,
{
    assert(s.push(x).drop_last() == s);
}

proof fn lemma_dev_push(s: Seq<u64>, x: u64, avg: int)
    ensures
        dev_sum(s.push(x), avg) == dev_sum(s, avg) + abs_diff(x as int, avg),
{
    assert(s.push(x).drop_last() == s);
}

proof fn lemma_sum_nonneg_prefix(s: Seq<u64>, i: int)
    requires
        0 <= i <= s.len(),
    ensures
        0 <= seq_sum(s.take(i)) <= seq_sum(s),
    decreases s.len() - i,
{
    if i < s.len() {
        lemma_sum_nonneg_prefix(s.drop_last(), i);
        assert(s.drop_last().take(i) == s.take(i));
    } else {
        assert(s.take(i) == s);
    }
    lemma_sum_nonneg(s.take(i));
}

proof fn lemma_sum_nonneg(s: Seq<u64>)
    ensures
        seq_sum(s) >= 0,
    decreases s.len(),
{
    if s.len() > 0 {
        lemma_sum_nonneg(s.drop_last());
    }
}

proof fn lemma_dev_nonneg_prefix(s: Seq<u64>, i: int, avg: int)
    requires
        0 <= i <= s.len(),
    ensures
        0 <= dev_sum(s.take(i), avg) <= dev_sum(s, avg),
    decreases s.len() - i,
{
    if i < s.len() {
        lemma_dev_nonneg_prefix(s.drop_last(), i, avg);
        assert(s.drop_last().take(i) == s.take(i));
    } else {
        assert(s.take(i) == s);
        lemma_dev_nonneg(s, avg);
    }
}

proof fn lemma_dev_nonneg(s: Seq<u64>, avg: int)
    ensures
        dev_sum(s, avg) >= 0,
    decreases s.len(),
{
    if s.len() > 0 {
        lemma_dev_nonneg(s.drop_last(), avg);
    }
}

proof fn lemma_min_max_bounds(s: Seq<u64>)
    requires
        s.len() > 0,
    ensures
        forall|i: int| 0 <= i < s.len() ==> seq_min(s) <= #[trigger] s[i] <= seq_max(s),
        s.contains(seq_min(s)),
        s.contains(seq_max(s)),
    decreases s.len(),
{
    if s.len() > 1 {
        lemma_min_max_bounds(s.drop_last());
        assert forall|i: int| 0 <= i < s.len() implies seq_min(s) <= #[trigger] s[i] <= seq_max(
            s,
        ) by {
            if i < s.len() - 1 {
                assert(s[i] == s.drop_last()[i]);
            }
        }
        let m = seq_min(s.drop_last());
        let j = choose|j: int| 0 <= j < s.drop_last().len() && s.drop_last()[j] == m;
        assert(s[j] == m);
        let mx = seq_max(s.drop_last());
        let k = choose|k: int| 0 <= k < s.drop_last().len() && s.drop_last()[k] == mx;
        assert(s[k] == mx);
        assert(s[s.len() - 1] == s.last());
    } else {
        assert(s[0] == s[0]);
    }
}

impl RttWindow {
    pub closed spec fn capacity(&self) -> usize {
        self.capacity
    }

    /// A window never holds more samples than its capacity.
    #[verifier::type_invariant]
    spec fn within_capacity(&self) -> bool {
        self.samples.len() <= self.capacity
    }

    /// An empty window holding at most `window_size` samples.
    pub fn new(window_size: usize) -> (r: Self)
        ensures
            r@ == Seq::<u64>::empty(),
            r.capacity() == window_size,
    {
        RttWindow { samples: Vec::new(), capacity: window_size }
    }

    /// The number of samples held, never more than the capacity.
    pub fn len(&self) -> (r: usize)
        ensures
            r == self@.len(),
            r <= self.capacity(),
    {
        proof {
            use_type_invariant(self);
        }
        self.samples.len()
    }

    pub fn is_empty(&self) -> (r: bool)
        ensures
            r == (self@.len() == 0),
    {
        self.samples.len() == 0
    }

    /// Records a sample, dropping the oldest one when the window is full.
    /// A window of capacity 0 cannot take a sample.
    pub fn record(&mut self, rtt_ms: u64)
        requires
            old(self).capacity() > 0,
        ensures
            final(self).capacity() == old(self).capacity(),
            old(self)@.len() <= old(self).capacity(),
            final(self)@ == record_spec(old(self)@, old(self).capacity(), rtt_ms),
            final(self)@.len() <= final(self).capacity(),
    {
        proof {
            use_type_invariant(&*self);
        }
        let mut samples = Vec::new();
        std::mem::swap(&mut samples, &mut self.samples);
        if samples.len() >= self.capacity {
            samples.remove(0);
        }
        samples.push(rtt_ms);
        proof {
            if old(self)@.len() >= old(self).capacity() {
                assert(old(self)@.remove(0) == old(self)@.drop_first());
            }
        }
        self.samples = samples;
    }

    /// Average, minimum, maximum and jitter of the samples, or `None` when
    /// they cannot be computed in 64-bit arithmetic.
    pub fn try_stats(&self) -> (r: Option<RttStats>)
        ensures
            r == (if stats_computable(self@) {
                Some(stats_spec(self@))
            } else {
                None::<RttStats>
            }),
    {
        let n = self.samples.len();
        let ghost s = self@;
        if n == 0 {
            return Some(
                RttStats { avg_rtt_ms: 0, min_rtt_ms: 0, max_rtt_ms: 0, jitter_ms: 0, sample_count: 0 },
            );
        }
        let mut sum: u64 = 0;
        let mut lo: u64 = self.samples[0];
        let mut hi: u64 = self.samples[0];
        let mut i: usize = 0;
        while i < n
            invariant
                n == s.len(),
                s == self@,
                n > 0,
                i <= n,
                sum == seq_sum(s.take(i as int)),
                n > 1 ==> forall|k: int| 0 <= k < i ==> #[trigger] s[k] <= i64::MAX,
                i == 0 ==> lo == s[0] && hi == s[0],
                i > 0 ==> lo == seq_min(s.take(i as int)) && hi == seq_max(s.take(i as int)),
            decreases n - i,
        {
            let x = self.samples[i];
            if n > 1 && x > i64::MAX as u64 {
                assert(s[i as int] == x);
                return None;
            }
            proof {
                lemma_sum_push(s.take(i as int), x);
                assert(s.take(i + 1) == s.take(i as int).push(x));
                lemma_sum_nonneg_prefix(s, i + 1);
                assert(s.take(i + 1).drop_last() == s.take(i as int));
            }
            match sum.checked_add(x) {
                None => {
                    return None;
                },
                Some(t) => {
                    sum = t;
                },
            }
            if i == 0 {
                lo = x;
                hi = x;
            } else {
                if x < lo {
                    lo = x;
                }
                if x > hi {
                    hi = x;
                }
            }
            i += 1;
        }
        assert(s.take(n as int) == s);
        let avg = sum / (n as u64);
        proof {
            lemma_sum_nonneg(s);
            assert(avg as int == stats_avg(s));
        }
        if n == 1 {
            return Some(
                RttStats { avg_rtt_ms: avg, min_rtt_ms: lo, max_rtt_ms: hi, jitter_ms: 0, sample_count: n },
            );
        }
        proof {
            assert(avg <= i64::MAX) by {
                lemma_min_max_bounds(s);
                let k = choose|k: int| 0 <= k < s.len() && s[k] == seq_max(s);
                assert(s[k] <= i64::MAX);
                lemma_avg_le_max(s);
            }
        }
        let mut dev: u64 = 0;
        let mut j: usize = 0;
        while j < n
            invariant
                n == s.len(),
                s == self@,
                n > 1,
                forall|k: int| 0 <= k < n ==> #[trigger] s[k] <= i64::MAX,
                seq_sum(s) <= u64::MAX,
                avg as int == stats_avg(s),
                avg <= i64::MAX,
                j <= n,
                dev == dev_sum(s.take(j as int), avg as int),
            decreases n - j,
        {
            let x = self.samples[j];
            let d: u64 = if x >= avg {
                x - avg
            } else {
                avg - x
            };
            proof {
                lemma_dev_push(s.take(j as int), x, avg as int);
                assert(s.take(j + 1) == s.take(j as int).push(x));
                lemma_dev_nonneg_prefix(s, j + 1, avg as int);
            }
            match dev.checked_add(d) {
                None => {
                    return None;
                },
                Some(t) => {
                    dev = t;
                },
            }
            j += 1;
        }
        assert(s.take(n as int) == s);
        let jitter: u64 = dev / (n as u64);
        Some(RttStats { avg_rtt_ms: avg, min_rtt_ms: lo, max_rtt_ms: hi, jitter_ms: jitter, sample_count: n })
    }

    /// Average, minimum, maximum and jitter of the samples.
    pub fn stats(&self) -> (r: RttStats)
        requires
            stats_computable(self@),
        ensures
            r == stats_spec(self@),
    {
        match self.try_stats() {
            Some(st) => st,
            None => RttStats { avg_rtt_ms: 0, min_rtt_ms: 0, max_rtt_ms: 0, jitter_ms: 0, sample_count: 0 },
        }
    }

    /// The samples in ascending order.
    pub fn sorted(&self) -> (r: Vec<u64>)
        ensures
            r@ == sorted_samples(self@),
    {
        let mut v: Vec<u64> = Vec::new();
        let mut i: usize = 0;
        while i < self.samples.len()
            invariant
                i <= self@.len(),
                sorted_by(v@, rtt_leq()),
                v@.to_multiset() == self@.take(i as int).to_multiset(),
            decreases self@.len() - i,
        {
            let x = self.samples[i];
            let mut pos: usize = 0;
            while pos < v.len() && v[pos] <= x
                invariant
                    pos <= v.len(),
                    forall|k: int| 0 <= k < pos ==> #[trigger] v@[k] <= x,
                decreases v.len() - pos,
            {
                pos += 1;
            }
            let ghost before = v@;
            v.insert(pos, x);
            proof {
                assert forall|a: int, b: int| 0 <= a < b < v@.len() implies #[trigger] (rtt_leq())(
                    v@[a],
                    v@[b],
                ) by {
                    assert((rtt_leq())(v@[a], v@[b]) == (v@[a] <= v@[b]));
                    if b < pos {
                        assert((rtt_leq())(before[a], before[b]));
                    } else if b == pos {
                    } else if a < pos {
                        assert((rtt_leq())(before[a], before[b - 1]));
                        if pos < before.len() {
                            assert(before[pos as int] > x);
                            assert((rtt_leq())(before[pos as int], before[b - 1]) || b - 1 == pos);
                        }
                    } else if a == pos {
                        assert(before[pos as int] > x);
                        assert(b - 1 == pos || (rtt_leq())(before[pos as int], before[b - 1]));
                    } else {
                        assert((rtt_leq())(before[a - 1], before[b - 1]));
                    }
                }
                assert(self@.take(i + 1) == self@.take(i as int).push(x));
                assert(before.insert(pos as int, x).to_multiset() == before.to_multiset().insert(x));
            }
            i += 1;
        }
        proof {
            assert(self@.take(i as int) == self@);
            lemma_leq_total();
            self@.lemma_sort_by_ensures(rtt_leq());
            vstd::seq_lib::lemma_sorted_unique(v@, sorted_samples(self@), rtt_leq());
        }
        v
    }

    /// The 90th-percentile sample: element `ceil(0.9 * n) - 1` of the
    /// sorted window.
    pub fn p90(&self) -> (r: u64)
        requires
            self@.len() > 0,
        ensures
            r == p90_spec(self@),
    {
        let sorted = self.sorted();
        proof {
            lemma_leq_total();
            self@.lemma_sort_by_ensures(rtt_leq());
            assert(sorted@.len() == self@.len()) by {
                assert(sorted@.to_multiset().len() == self@.to_multiset().len());
            }
        }
        let n = sorted.len();
        let idx: usize = if n <= usize::MAX / 9 - 1 {
            (9 * n + 9) / 10 - 1
        } else {
            n / 10 * 9 + ((n % 10) * 9 + 9) / 10 - 1
        };
        proof {
            assert(idx as int == p90_index(n as int)) by (nonlinear_arith)
                requires
                    n > 0,
                    idx == (if n <= usize::MAX / 9 - 1 {
                        (9 * n + 9) / 10 - 1
                    } else {
                        n / 10 * 9 + ((n % 10) * 9 + 9) / 10 - 1
                    }),
            ;
            assert(0 <= p90_index(n as int) < n) by (nonlinear_arith)
                requires
                    n > 0,
            ;
        }
        sorted[idx]
    }
}

proof fn lemma_leq_total()
    ensures
        total_ordering(rtt_leq()),
{
}

proof fn lemma_avg_le_max(s: Seq<u64>)
    requires
        s.len() > 0,
    ensures
        stats_avg(s) <= seq_max(s),
{
    lemma_min_max_bounds(s);
    lemma_sum_le_len_max(s, seq_max(s));
    let n = s.len() as int;
    let m = seq_max(s) as int;
    assert(seq_sum(s) / n <= m) by (nonlinear_arith)
        requires
            seq_sum(s) <= n * m,
            n > 0,
    ;
}

proof fn lemma_sum_le_len_max(s: Seq<u64>, m: u64)
    requires
        forall|i: int| 0 <= i < s.len() ==> #[trigger] s[i] <= m,
    ensures
        seq_sum(s) <= s.len() * m,
    decreases s.len(),
{
    if s.len() > 0 {
        assert forall|i: int| 0 <= i < s.drop_last().len() implies #[trigger] s.drop_last()[i]
            <= m by {
            assert(s.drop_last()[i] == s[i]);
        }
        lemma_sum_le_len_max(s.drop_last(), m);
        assert(s.last() == s[s.len() - 1]);
        assert((s.len() - 1) * m + m == s.len() * m) by (nonlinear_arith);
    }
}

/// The quality level of a window's statistics: no samples is `Bad`; then
/// by average RTT: below 80 ms `Excellent`, below 200 ms `Good`, below
/// 500 ms with jitter below 150 ms `Fair`, below 1000 ms `Poor`, else `Bad`.
pub open spec fn classify_spec(stats: RttStats) -> NetworkQualityLevel {
    if stats.sample_count == 0 {
        NetworkQualityLevel::Bad
    } else if stats.avg_rtt_ms < 80 {
        NetworkQualityLevel::Excellent
    } else if stats.avg_rtt_ms < 200 {
        NetworkQualityLevel::Good
    } else if stats.avg_rtt_ms < 500 && stats.jitter_ms < 150 {
        NetworkQualityLevel::Fair
    } else if stats.avg_rtt_ms < 1000 {
        NetworkQualityLevel::Poor
    } else {
        NetworkQualityLevel::Bad
    }
}

pub fn classify_quality(stats: &RttStats) -> (r: NetworkQualityLevel)
    ensures
        r == classify_spec(*stats),
{
    if stats.sample_count == 0 {
        return NetworkQualityLevel::Bad;
    }
    let rtt = stats.avg_rtt_ms;
    let jitter = stats.jitter_ms;
    if rtt < 80 {
        NetworkQualityLevel::Excellent
    } else if rtt < 200 {
        NetworkQualityLevel::Good
    } else if rtt < 500 && jitter < 150 {
        NetworkQualityLevel::Fair
    } else if rtt < 1000 {
        NetworkQualityLevel::Poor
    } else {
        NetworkQualityLevel::Bad
    }
}

/// A higher average RTT never gives a better quality level, jitter being equal.
pub proof fn law_classify_monotone(a: RttStats, b: RttStats)
    requires
        a.sample_count > 0,
        b.sample_count > 0,
        a.avg_rtt_ms <= b.avg_rtt_ms,
        a.jitter_ms == b.jitter_ms,
    ensures
        classify_spec(a).spec_index() <= classify_spec(b).spec_index(),
{
}

/// With samples present and an average of 200 ms up to (not including)
/// 500 ms, the level is `Fair` exactly when the jitter is under 150 ms and
/// `Poor` otherwise: high jitter costs a level.
pub proof fn law_jitter_decides_fair(stats: RttStats)
    requires
        stats.sample_count > 0,
        200 <= stats.avg_rtt_ms < 500,
    ensures
        (classify_spec(stats) == NetworkQualityLevel::Fair) <==> stats.jitter_ms < 150,
        stats.jitter_ms >= 150 ==> classify_spec(stats) == NetworkQualityLevel::Poor,
{
}

/// For equal averages, more jitter never gives a better level.
pub proof fn law_classify_jitter_monotone(a: RttStats, b: RttStats)
    requires
        a.sample_count > 0,
        b.sample_count > 0,
        a.avg_rtt_ms == b.avg_rtt_ms,
        a.jitter_ms <= b.jitter_ms,
    ensures
        classify_spec(a).spec_index() <= classify_spec(b).spec_index(),
{
}

/// The levels by average alone, for samples present: under 80 ms
/// `Excellent`, under 200 ms `Good`, under 1000 ms at best `Fair` and at
/// worst `Poor`, and from 1000 ms on `Bad`; no samples at all is `Bad`.
pub proof fn law_classify_bands(stats: RttStats)
    ensures
        stats.sample_count == 0 ==> classify_spec(stats) == NetworkQualityLevel::Bad,
        stats.sample_count > 0 && stats.avg_rtt_ms < 80 ==> classify_spec(stats)
            == NetworkQualityLevel::Excellent,
        stats.sample_count > 0 && 80 <= stats.avg_rtt_ms < 200 ==> classify_spec(stats)
            == NetworkQualityLevel::Good,
        stats.sample_count > 0 && 500 <= stats.avg_rtt_ms < 1000 ==> classify_spec(stats)
            == NetworkQualityLevel::Poor,
        stats.sample_count > 0 && stats.avg_rtt_ms >= 1000 ==> classify_spec(stats)
            == NetworkQualityLevel::Bad,
{
}

/// A window only ever holds its most recent `capacity` samples, and the
/// newest sample is always the last one.
pub proof fn law_window_bounded(s: Seq<u64>, capacity: usize, rtt: u64)
    requires
        s.len() <= capacity,
        capacity > 0,
    ensures
        record_spec(s, capacity, rtt) == s.push(rtt).subrange(
            s.len() + 1 - record_spec(s, capacity, rtt).len(),
            s.len() + 1 as int,
        ),
        record_spec(s, capacity, rtt).len() <= capacity,
        record_spec(s, capacity, rtt).last() == rtt,
        record_spec(s, capacity, rtt).len() == (if s.len() == capacity {
            s.len()
        } else {
            s.len() + 1
        }),
{
}

/// The percentile sample is one of the samples, no smaller than the minimum
/// and no larger than the maximum.
pub proof fn law_p90_within_range(s: Seq<u64>)
    requires
        s.len() > 0,
    ensures
        s.contains(p90_spec(s)),
        seq_min(s) <= p90_spec(s) <= seq_max(s),
{
    lemma_leq_total();
    s.lemma_sort_by_ensures(rtt_leq());
    let t = sorted_samples(s);
    assert(t.len() == s.len()) by {
        assert(t.to_multiset().len() == s.to_multiset().len());
    }
    let k = p90_index(s.len() as int);
    assert(0 <= k < s.len()) by (nonlinear_arith)
        requires
            k == (9 * s.len() + 9) / 10 - 1,
            s.len() > 0,
    ;
    assert(t.to_multiset().contains(t[k]));
    assert(s.contains(t[k]));
    lemma_min_max_bounds(s);
}

/// The result of one HEAD probe of a host: a success status or 404 counts
/// as a round trip of `rtt_ms`; any other status fails with an HTTP error
/// without body.
pub fn probe_result(status: u16, rtt_ms: u64) -> (r: Result<u64, CatcherError>)
    ensures
        (200 <= status < 300 || status == 404) ==> r == Ok::<u64, CatcherError>(rtt_ms),
        !(200 <= status < 300 || status == 404) ==> (r matches Err(e) && e is HttpError
            && e->HttpError_status == status && e->HttpError_body@.len() == 0),
{
    if (200 <= status && status < 300) || status == 404 {
        Ok(rtt_ms)
    } else {
        Err(CatcherError::HttpError { status, body: String::new() })
    }
}

/// Whether a subscriber hears of a new level: only when it differs from the
/// last one reported (or none was).
pub fn quality_changed(level: NetworkQualityLevel, previous: Option<NetworkQualityLevel>) -> (r: bool)
    ensures
        r == (previous != Some(level)),
{
    match previous {
        None => true,
        Some(p) => p != level,
    }
}

/// A subscriber is told of a level only when it changed, and then the
/// trend is never `stable`.
pub proof fn law_change_has_trend(level: NetworkQualityLevel, previous: Option<NetworkQualityLevel>)
    requires
        previous != Some(level),
    ensures
        trend_spec(level, previous) != QualityTrend::Stable,
{
    if let Some(p) = previous {
        assert(p != level);
        assert(p.spec_index() != level.spec_index());
    }
}

} // verus!
