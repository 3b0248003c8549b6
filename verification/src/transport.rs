//! The bookkeeping of the HTTP transport around each request: the circuit
//! breaker check before it, and the metrics and breaker updates after it.
use vstd::prelude::*;
use crate::circuit_breaker::{before_spec, failure_spec, success_spec, CbModel, CircuitBreaker};
use crate::error::CatcherError;
use crate::observability::{add64, inc64, MetricsCollector, MetricsView};
use crate::resilience::{CbState, CircuitBreakerConfig};

verus! {

/// How a request ended, as far as the bookkeeping is concerned.
#[derive(Debug, Clone, Copy, PartialEq, Eq, Structural)]
pub enum RequestOutcome {
    /// The circuit breaker rejected it before it was sent.
    Rejected,
    /// It was cancelled while in flight.
    Cancelled,
    /// A response came back.
    Succeeded,
    /// It failed.
    Failed,
}

/// The metrics after a finished request: one more request, one more success
/// or failure, and its latency added.
pub open spec fn counted(m: MetricsView, success: bool, latency_us: u64) -> MetricsView {
    MetricsView {
        http_requests: inc64(m.http_requests),
        http_successes: if success {
            inc64(m.http_successes)
        } else {
            m.http_successes
        },
        http_failures: if success {
            m.http_failures
        } else {
            inc64(m.http_failures)
        },
        http_total_latency_us: add64(m.http_total_latency_us, latency_us),
        ..m
    }
}

/// The breaker after a request that ended with `outcome`: a response counts
/// as a success, a failure as a failure; a rejected or cancelled request
/// leaves it alone.
pub open spec fn breaker_after(
    cfg: CircuitBreakerConfig,
    b: CbModel,
    outcome: RequestOutcome,
    now: u64,
) -> CbModel {
    match outcome {
        RequestOutcome::Succeeded => success_spec(cfg, b),
        RequestOutcome::Failed => failure_spec(cfg, b, now),
        _ => b,
    }
}

/// The request bookkeeping of a transport: an optional circuit breaker and
/// the metrics counters.
pub struct TransportCore {
    breaker: Option<CircuitBreaker>,
    metrics: MetricsCollector,
}

impl TransportCore {
    /// The breaker's state, if there is a breaker.
    pub closed spec fn breaker_model(&self) -> Option<CbModel> {
        match self.breaker {
            Some(b) => Some(b@),
            None => None,
        }
    }

    /// The breaker's thresholds, if there is a breaker.
    pub closed spec fn breaker_config(&self) -> Option<CircuitBreakerConfig> {
        match self.breaker {
            Some(b) => Some(b.spec_config()),
            None => None,
        }
    }

    /// The metrics counters.
    pub closed spec fn counters(&self) -> MetricsView {
        self.metrics@
    }

    /// Bookkeeping with a breaker when thresholds are given, and zeroed
    /// counters.
    pub fn new(breaker: Option<CircuitBreakerConfig>) -> (r: Self)
        ensures
            r.breaker_config() == breaker,
            breaker is Some ==> r.breaker_model() == Some(
                CbModel {
                    state: CbState::Closed,
                    failures: 0,
                    successes: 0,
                    opened_at_ms: 0,
                    half_open_requests: 0,
                },
            ),
            breaker is None ==> r.breaker_model() is None,
            r.counters() == crate::observability::zero_metrics(),
    {
        let b = match breaker {
            Some(c) => Some(CircuitBreaker::new(c)),
            None => None,
        };
        TransportCore { breaker: b, metrics: MetricsCollector::new() }
    }

    /// The check before a request when the clock reads `now_ms`: without a
    /// breaker every request passes; with one, the breaker decides.
    pub fn admit_at(&mut self, now_ms: u64) -> (r: Result<(), CatcherError>)
        ensures
            final(self).breaker_config() == old(self).breaker_config(),
            final(self).counters() == old(self).counters(),
            match (old(self).breaker_config(), old(self).breaker_model()) {
                (Some(cfg), Some(b)) => (final(self).breaker_model()->0, r is Ok) == before_spec(
                    cfg,
                    b,
                    now_ms,
                ) && final(self).breaker_model() is Some,
                _ => r is Ok && final(self).breaker_model() == old(self).breaker_model(),
            },
            r matches Err(e) ==> e == CatcherError::CircuitBreakerOpen,
    {
        match &mut self.breaker {
            Some(b) => b.before_request_at(now_ms),
            None => Ok(()),
        }
    }

    /// Records how a request ended: it is counted with its latency, and the
    /// breaker learns of a response or a failure.
    pub fn finish_at(&mut self, outcome: RequestOutcome, latency_us: u64, now_ms: u64)
        ensures
            final(self).breaker_config() == old(self).breaker_config(),
            final(self).counters() == counted(
                old(self).counters(),
                outcome == RequestOutcome::Succeeded,
                latency_us,
            ),
            match (old(self).breaker_config(), old(self).breaker_model()) {
                (Some(cfg), Some(b)) => final(self).breaker_model() == Some(
                    breaker_after(cfg, b, outcome, now_ms),
                ),
                _ => final(self).breaker_model() == old(self).breaker_model(),
            },
    {
        let success = outcome == RequestOutcome::Succeeded;
        self.metrics.record_http_request(success, latency_us);
        match &mut self.breaker {
            Some(b) => match outcome {
                RequestOutcome::Succeeded => b.on_success(),
                RequestOutcome::Failed => b.on_failure_at(now_ms),
                _ => {},
            },
            None => {},
        }
    }

    /// Counts one retry made by the retry middleware; the breaker and the
    /// other counters are left alone.
    pub fn record_retry(&mut self)
        ensures
            final(self).breaker_config() == old(self).breaker_config(),
            final(self).breaker_model() == old(self).breaker_model(),
            final(self).counters() == (MetricsView {
                http_retries: inc64(old(self).counters().http_retries),
                ..old(self).counters()
            }),
    {
        self.metrics.increment_http_retries();
    }

    /// The breaker's state, `None` without a breaker.
    pub fn circuit_breaker_state(&self) -> (r: Option<CbState>)
        ensures
            r == match self.breaker_model() {
                Some(b) => Some(b.state),
                None => None,
            },
    {
        match &self.breaker {
            Some(b) => Some(b.state()),
            None => None,
        }
    }

    /// The metrics counters.
    pub fn metrics(&self) -> (r: &MetricsCollector)
        ensures
            r@ == self.counters(),
    {
        &self.metrics
    }
}

/// A rejected or cancelled request is counted as a failure but never moves
/// the breaker.
pub proof fn law_unsent_requests_leave_breaker(
    cfg: CircuitBreakerConfig,
    b: CbModel,
    outcome: RequestOutcome,
    now: u64,
)
    requires
        outcome == RequestOutcome::Rejected || outcome == RequestOutcome::Cancelled,
    ensures
        breaker_after(cfg, b, outcome, now) == b,
{
}

/// Every finished request is counted once, as a success exactly when a
/// response came back (counters below their maximum).
pub proof fn law_each_request_counted_once(m: MetricsView, outcome: RequestOutcome, latency_us: u64)
    requires
        m.http_requests < u64::MAX,
        m.http_successes < u64::MAX,
        m.http_failures < u64::MAX,
    ensures
        counted(m, outcome == RequestOutcome::Succeeded, latency_us).http_requests == m.http_requests
            + 1,
        counted(m, outcome == RequestOutcome::Succeeded, latency_us).http_successes
            + counted(m, outcome == RequestOutcome::Succeeded, latency_us).http_failures
            == m.http_successes + m.http_failures + 1,
        outcome == RequestOutcome::Succeeded <==> counted(
            m,
            outcome == RequestOutcome::Succeeded,
            latency_us,
        ).http_successes == m.http_successes + 1,
{
}

} // verus!
