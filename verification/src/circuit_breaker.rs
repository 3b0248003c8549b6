//! Circuit breaker state machine.
//!
//! ```text
//! CLOSED    --(consecutive failures >= threshold)--> OPEN
//! OPEN      --(reset timeout elapsed)--------------> HALF_OPEN
//! HALF_OPEN --(consecutive successes >= threshold)-> CLOSED
//! HALF_OPEN --(any failure)------------------------> OPEN
//! ```
//!
//! Counters behave like the atomic counters they model: they wrap at the
//! end of their range.
use vstd::prelude::*;
use crate::error::CatcherError;
use crate::resilience::{CbState, CircuitBreakerConfig};

verus! {

/// The abstract state of a circuit breaker.
pub struct CbModel {
    pub state: CbState,
    pub failures: u32,
    pub successes: u32,
    pub opened_at_ms: u64,
    pub half_open_requests: u32,
}

pub open spec fn inc(x: u32) -> u32 {
    if x == u32::MAX {
        0
    } else {
        (x + 1) as u32
    }
}

/// Milliseconds elapsed since `since`, computed like unsigned subtraction
/// that wraps when the clock went backwards.
pub open spec fn elapsed(now: u64, since: u64) -> u64 {
    if now >= since {
        (now - since) as u64
    } else {
        (now - since + u64::MAX + 1) as u64
    }
}

/// The state after the check made before a request at time `now`, and
/// whether the request may proceed. The request that moves an open breaker
/// to half-open is its first probe, so at most `half_open_max_requests`
/// requests pass while half-open.
pub open spec fn before_spec(cfg: CircuitBreakerConfig, s: CbModel, now: u64) -> (CbModel, bool) {
    match s.state {
        CbState::Closed => (s, true),
        CbState::Open => {
            if elapsed(now, s.opened_at_ms) >= cfg.reset_timeout_ms {
                (
                    CbModel { state: CbState::HalfOpen, half_open_requests: 1, successes: 0, ..s },
                    0 < cfg.half_open_max_requests,
                )
            } else {
                (s, false)
            }
        },
        CbState::HalfOpen => (
            CbModel { half_open_requests: inc(s.half_open_requests), ..s },
            s.half_open_requests < cfg.half_open_max_requests,
        ),
    }
}

/// The state after a successful request.
pub open spec fn success_spec(cfg: CircuitBreakerConfig, s: CbModel) -> CbModel {
    match s.state {
        CbState::Closed => CbModel { failures: 0, ..s },
        CbState::HalfOpen => {
            if inc(s.successes) >= cfg.success_threshold {
                CbModel { state: CbState::Closed, failures: 0, successes: 0, ..s }
            } else {
                CbModel { successes: inc(s.successes), ..s }
            }
        },
        CbState::Open => s,
    }
}

/// The state after a failed request at time `now`.
pub open spec fn failure_spec(cfg: CircuitBreakerConfig, s: CbModel, now: u64) -> CbModel {
    match s.state {
        CbState::Closed => {
            if inc(s.failures) >= cfg.failure_threshold {
                CbModel { state: CbState::Open, failures: inc(s.failures), opened_at_ms: now, ..s }
            } else {
                CbModel { failures: inc(s.failures), ..s }
            }
        },
        CbState::HalfOpen => CbModel {
            state: CbState::Open,
            opened_at_ms: now,
            successes: 0,
            ..s
        },
        CbState::Open => s,
    }
}

/// The state after `reset`.
pub open spec fn reset_spec(s: CbModel) -> CbModel {
    CbModel { state: CbState::Closed, failures: 0, successes: 0, half_open_requests: 0, ..s }
}

/// The wall clock in milliseconds since the Unix epoch (0 if the clock
/// reads before the epoch). Nothing is stated of the reading.
#[verifier::external_body]
fn now_millis() -> u64 {
    std::time::SystemTime::now().duration_since(std::time::UNIX_EPOCH).unwrap_or_default().as_millis() as u64
}

/// Circuit breaker guarding a remote endpoint.
pub struct CircuitBreaker {
    config: CircuitBreakerConfig,
    state: CbState,
    failure_count: u32,
    success_count: u32,
    opened_at_ms: u64,
    half_open_requests: u32,
}

impl View for CircuitBreaker {
    type V = CbModel;

    closed spec fn view(&self) -> CbModel {
        CbModel {
            state: self.state,
            failures: self.failure_count,
            successes: self.success_count,
            opened_at_ms: self.opened_at_ms,
            half_open_requests: self.half_open_requests,
        }
    }
}

fn wrapping_inc(x: u32) -> (r: u32)
    ensures
        r == inc(x),
{
    if x == u32::MAX {
        0
    } else {
        x + 1
    }
}

impl CircuitBreaker {
    pub closed spec fn spec_config(&self) -> CircuitBreakerConfig {
        self.config
    }

    /// A closed breaker with all counters at zero.
    pub fn new(config: CircuitBreakerConfig) -> (r: Self)
        ensures
            r.spec_config() == config,
            r@ == (CbModel {
                state: CbState::Closed,
                failures: 0,
                successes: 0,
                opened_at_ms: 0,
                half_open_requests: 0,
            }),
    {
        CircuitBreaker {
            config,
            state: CbState::Closed,
            failure_count: 0,
            success_count: 0,
            opened_at_ms: 0,
            half_open_requests: 0,
        }
    }

    /// The check before a request when the clock reads `now_ms`:
    /// `Err(CircuitBreakerOpen)` when the request must be rejected.
    pub fn before_request_at(&mut self, now_ms: u64) -> (r: Result<(), CatcherError>)
        ensures
            final(self).spec_config() == old(self).spec_config(),
            (final(self)@, r is Ok) == before_spec(old(self).spec_config(), old(self)@, now_ms),
            r matches Err(e) ==> e == CatcherError::CircuitBreakerOpen,
    {
        match self.state {
            CbState::Closed => Ok(()),
            CbState::Open => {
                let opened = self.opened_at_ms;
                let since = if now_ms >= opened {
                    now_ms - opened
                } else {
                    now_ms + (u64::MAX - opened) + 1
                };
                if since >= self.config.reset_timeout_ms {
                    self.state = CbState::HalfOpen;
                    self.half_open_requests = 1;
                    self.success_count = 0;
                    if 0 < self.config.half_open_max_requests {
                        Ok(())
                    } else {
                        Err(CatcherError::CircuitBreakerOpen)
                    }
                } else {
                    Err(CatcherError::CircuitBreakerOpen)
                }
            },
            CbState::HalfOpen => {
                let count = self.half_open_requests;
                self.half_open_requests = wrapping_inc(count);
                if count >= self.config.half_open_max_requests {
                    Err(CatcherError::CircuitBreakerOpen)
                } else {
                    Ok(())
                }
            },
        }
    }

    /// The check before a request, reading the wall clock.
    pub fn before_request(&mut self) -> (r: Result<(), CatcherError>)
        ensures
            final(self).spec_config() == old(self).spec_config(),
            exists|now: u64|
                (final(self)@, r is Ok) == #[trigger] before_spec(
                    old(self).spec_config(),
                    old(self)@,
                    now,
                ),
            r matches Err(e) ==> e == CatcherError::CircuitBreakerOpen,
    {
        let now = now_millis();
        let r = self.before_request_at(now);
        assert((self@, r is Ok) == before_spec(old(self).spec_config(), old(self)@, now));
        r
    }

    /// Records a successful request.
    pub fn on_success(&mut self)
        ensures
            final(self).spec_config() == old(self).spec_config(),
            final(self)@ == success_spec(old(self).spec_config(), old(self)@),
    {
        match self.state {
            CbState::Closed => {
                self.failure_count = 0;
            },
            CbState::HalfOpen => {
                let count = wrapping_inc(self.success_count);
                if count >= self.config.success_threshold {
                    self.state = CbState::Closed;
                    self.failure_count = 0;
                    self.success_count = 0;
                } else {
                    self.success_count = count;
                }
            },
            CbState::Open => {},
        }
    }

    /// Records a failed request when the clock reads `now_ms`.
    pub fn on_failure_at(&mut self, now_ms: u64)
        ensures
            final(self).spec_config() == old(self).spec_config(),
            final(self)@ == failure_spec(old(self).spec_config(), old(self)@, now_ms),
    {
        match self.state {
            CbState::Closed => {
                let count = wrapping_inc(self.failure_count);
                self.failure_count = count;
                if count >= self.config.failure_threshold {
                    self.state = CbState::Open;
                    self.opened_at_ms = now_ms;
                }
            },
            CbState::HalfOpen => {
                self.state = CbState::Open;
                self.opened_at_ms = now_ms;
                self.success_count = 0;
            },
            CbState::Open => {},
        }
    }

    /// Records a failed request, reading the wall clock.
    pub fn on_failure(&mut self)
        ensures
            final(self).spec_config() == old(self).spec_config(),
            exists|now: u64|
                final(self)@ == #[trigger] failure_spec(old(self).spec_config(), old(self)@, now),
    {
        let now = now_millis();
        self.on_failure_at(now);
    }

    /// The current state.
    pub fn state(&self) -> (r: CbState)
        ensures
            r == self@.state,
    {
        self.state
    }

    /// Forces the breaker back to `Closed` with all counters at zero.
    pub fn reset(&mut self)
        ensures
            final(self).spec_config() == old(self).spec_config(),
            final(self)@ == reset_spec(old(self)@),
    {
        self.state = CbState::Closed;
        self.failure_count = 0;
        self.success_count = 0;
        self.half_open_requests = 0;
    }
}

/// The state after `n` failures at time `now`.
pub open spec fn failures_n(cfg: CircuitBreakerConfig, s: CbModel, n: nat, now: u64) -> CbModel
    decreases n,
{
    if n == 0 {
        s
    } else {
        failure_spec(cfg, failures_n(cfg, s, (n - 1) as nat, now), now)
    }
}

/// The state after `n` successes.
pub open spec fn successes_n(cfg: CircuitBreakerConfig, s: CbModel, n: nat) -> CbModel
    decreases n,
{
    if n == 0 {
        s
    } else {
        success_spec(cfg, successes_n(cfg, s, (n - 1) as nat))
    }
}

/// A closed breaker with no recorded failures stays closed through fewer
/// than `failure_threshold` consecutive failures, counting them, and
/// opens at the `failure_threshold`-th one.
pub proof fn law_opens_after_threshold_failures(
    cfg: CircuitBreakerConfig,
    s: CbModel,
    n: nat,
    now: u64,
)
    requires
        s.state == CbState::Closed,
        s.failures == 0,
        1 <= n <= cfg.failure_threshold,
    ensures
        n < cfg.failure_threshold ==> failures_n(cfg, s, n, now).state == CbState::Closed
            && failures_n(cfg, s, n, now).failures == n,
        n == cfg.failure_threshold ==> failures_n(cfg, s, n, now).state == CbState::Open
            && failures_n(cfg, s, n, now).opened_at_ms == now,
    decreases n,
{
    assert(failures_n(cfg, s, 0, now) == s);
    assert(failures_n(cfg, s, n, now) == failure_spec(
        cfg,
        failures_n(cfg, s, (n - 1) as nat, now),
        now,
    ));
    if n > 1 {
        law_opens_after_threshold_failures(cfg, s, (n - 1) as nat, now);
    }
}

/// A success while closed forgets earlier failures: after it, another
/// `failure_threshold - 1` failures still leave the breaker closed.
pub proof fn law_success_resets_failures(cfg: CircuitBreakerConfig, s: CbModel, now: u64)
    requires
        s.state == CbState::Closed,
        cfg.failure_threshold >= 2,
    ensures
        success_spec(cfg, s).state == CbState::Closed,
        success_spec(cfg, s).failures == 0,
        failures_n(cfg, success_spec(cfg, s), (cfg.failure_threshold - 1) as nat, now).state
            == CbState::Closed,
{
    law_opens_after_threshold_failures(
        cfg,
        success_spec(cfg, s),
        (cfg.failure_threshold - 1) as nat,
        now,
    );
}

/// An open breaker rejects requests until the reset timeout has elapsed
/// and then moves to half-open, letting the request through as its first
/// probe (when probes are allowed at all).
pub proof fn law_open_waits_for_reset_timeout(cfg: CircuitBreakerConfig, s: CbModel, now: u64)
    requires
        s.state == CbState::Open,
    ensures
        elapsed(now, s.opened_at_ms) < cfg.reset_timeout_ms ==> before_spec(cfg, s, now) == (
        s,
        false,
        ),
        elapsed(now, s.opened_at_ms) >= cfg.reset_timeout_ms ==> before_spec(cfg, s, now).0.state
            == CbState::HalfOpen && before_spec(cfg, s, now).0.half_open_requests == 1
            && before_spec(cfg, s, now).1 == (0 < cfg.half_open_max_requests),
{
}

/// Any failure while half-open opens the breaker again, restarting the
/// reset timeout at the time of the failure.
pub proof fn law_half_open_failure_reopens(cfg: CircuitBreakerConfig, s: CbModel, now: u64)
    requires
        s.state == CbState::HalfOpen,
    ensures
        failure_spec(cfg, s, now).state == CbState::Open,
        failure_spec(cfg, s, now).opened_at_ms == now,
{
}

/// A half-open breaker that has counted no success yet closes after
/// exactly `success_threshold` consecutive successes.
pub proof fn law_half_open_closes_after_successes(cfg: CircuitBreakerConfig, s: CbModel, n: nat)
    requires
        s.state == CbState::HalfOpen,
        s.successes == 0,
        1 <= n <= cfg.success_threshold,
    ensures
        n < cfg.success_threshold ==> successes_n(cfg, s, n).state == CbState::HalfOpen
            && successes_n(cfg, s, n).successes == n,
        n == cfg.success_threshold ==> successes_n(cfg, s, n).state == CbState::Closed
            && successes_n(cfg, s, n).failures == 0,
    decreases n,
{
    assert(successes_n(cfg, s, 0) == s);
    assert(successes_n(cfg, s, n) == success_spec(cfg, successes_n(cfg, s, (n - 1) as nat)));
    if n > 1 {
        law_half_open_closes_after_successes(cfg, s, (n - 1) as nat);
    }
}

/// The state after `n` checks before requests at time `now`.
pub open spec fn checks_n(cfg: CircuitBreakerConfig, s: CbModel, n: nat, now: u64) -> CbModel
    decreases n,
{
    if n == 0 {
        s
    } else {
        before_spec(cfg, checks_n(cfg, s, (n - 1) as nat, now), now).0
    }
}

/// Whether each of `n` checks before requests at time `now` passes, in
/// order.
pub open spec fn passes_n(cfg: CircuitBreakerConfig, s: CbModel, n: nat, now: u64) -> Seq<bool>
    decreases n,
{
    if n == 0 {
        Seq::empty()
    } else {
        passes_n(cfg, s, (n - 1) as nat, now).push(
            before_spec(cfg, checks_n(cfg, s, (n - 1) as nat, now), now).1,
        )
    }
}

/// While half-open after `k` probes, further checks keep the breaker
/// half-open and pass exactly while fewer than `half_open_max_requests`
/// probes have been made.
proof fn lemma_half_open_checks(cfg: CircuitBreakerConfig, s: CbModel, n: nat, now: u64)
    requires
        s.state == CbState::HalfOpen,
        s.half_open_requests + n <= u32::MAX,
    ensures
        checks_n(cfg, s, n, now).state == CbState::HalfOpen,
        checks_n(cfg, s, n, now).half_open_requests == s.half_open_requests + n,
        passes_n(cfg, s, n, now).len() == n,
        forall|i: int|
            0 <= i < n ==> #[trigger] passes_n(cfg, s, n, now)[i] == (s.half_open_requests + i
                < cfg.half_open_max_requests),
    decreases n,
{
    if n > 0 {
        lemma_half_open_checks(cfg, s, (n - 1) as nat, now);
        assert forall|i: int| 0 <= i < n implies #[trigger] passes_n(cfg, s, n, now)[i] == (
        s.half_open_requests + i < cfg.half_open_max_requests) by {
            if i < n - 1 {
                assert(passes_n(cfg, s, n, now)[i] == passes_n(cfg, s, (n - 1) as nat, now)[i]);
            }
        }
    }
}

/// After the reset timeout, the checks that follow one another with no
/// result recorded in between let exactly `half_open_max_requests`
/// requests through in all (the one that moves the breaker to half-open
/// included), and reject every later one.
pub proof fn law_half_open_limits_probes(cfg: CircuitBreakerConfig, s: CbModel, n: nat, now: u64)
    requires
        s.state == CbState::Open,
        elapsed(now, s.opened_at_ms) >= cfg.reset_timeout_ms,
        1 <= n <= u32::MAX,
    ensures
        passes_n(cfg, s, n, now).len() == n,
        forall|i: int|
            0 <= i < n ==> #[trigger] passes_n(cfg, s, n, now)[i] == (i < cfg.half_open_max_requests),
        checks_n(cfg, s, n, now).state == CbState::HalfOpen,
{
    let t = before_spec(cfg, s, now).0;
    lemma_checks_shift(cfg, s, (n - 1) as nat, now);
    lemma_half_open_checks(cfg, t, (n - 1) as nat, now);
    assert forall|i: int| 0 <= i < n implies #[trigger] passes_n(cfg, s, n, now)[i] == (i
        < cfg.half_open_max_requests) by {
        if i > 0 {
            assert(passes_n(cfg, s, n, now)[i] == passes_n(cfg, t, (n - 1) as nat, now)[i - 1]);
        }
    }
}

/// Checks made after a first one are the checks of the state it leaves.
proof fn lemma_checks_shift(cfg: CircuitBreakerConfig, s: CbModel, n: nat, now: u64)
    ensures
        checks_n(cfg, s, n + 1, now) == checks_n(cfg, before_spec(cfg, s, now).0, n, now),
        passes_n(cfg, s, n + 1, now) == seq![before_spec(cfg, s, now).1] + passes_n(
            cfg,
            before_spec(cfg, s, now).0,
            n,
            now,
        ),
    decreases n,
{
    let t = before_spec(cfg, s, now).0;
    if n == 0 {
        assert(checks_n(cfg, s, 0, now) == s);
        assert(passes_n(cfg, s, 0, now) =~= Seq::<bool>::empty());
        assert(passes_n(cfg, t, 0, now) =~= Seq::<bool>::empty());
        assert(checks_n(cfg, t, 0, now) == t);
        assert(checks_n(cfg, s, 1, now) == before_spec(cfg, checks_n(cfg, s, 0, now), now).0);
        assert(passes_n(cfg, s, 1, now) =~= seq![before_spec(cfg, s, now).1]);
        assert(passes_n(cfg, s, 1, now) =~= seq![before_spec(cfg, s, now).1] + passes_n(
            cfg,
            t,
            0,
            now,
        ));
    } else {
        lemma_checks_shift(cfg, s, (n - 1) as nat, now);
        assert(passes_n(cfg, s, n + 1, now) =~= seq![before_spec(cfg, s, now).1] + passes_n(
            cfg,
            t,
            n,
            now,
        ));
    }
}

/// A failure recorded while the breaker is open (a request that was
/// already in flight) changes nothing, not even when it opened: every later
/// check answers as it would have without that failure, so the breaker
/// turns half-open once the reset timeout has elapsed since it opened.
pub proof fn law_open_ignores_failures(cfg: CircuitBreakerConfig, s: CbModel, failed_at: u64, now: u64)
    requires
        s.state == CbState::Open,
    ensures
        failure_spec(cfg, s, failed_at) == s,
        before_spec(cfg, failure_spec(cfg, s, failed_at), now) == before_spec(cfg, s, now),
        elapsed(now, s.opened_at_ms) >= cfg.reset_timeout_ms ==> before_spec(
            cfg,
            failure_spec(cfg, s, failed_at),
            now,
        ).0.state == CbState::HalfOpen,
{
}

/// A success recorded while the breaker is open changes nothing either.
pub proof fn law_open_ignores_successes(cfg: CircuitBreakerConfig, s: CbModel)
    requires
        s.state == CbState::Open,
    ensures
        success_spec(cfg, s) == s,
{
}

/// `reset` always returns the breaker to the closed state, where every
/// request passes.
pub proof fn law_reset_closes(cfg: CircuitBreakerConfig, s: CbModel, now: u64)
    ensures
        reset_spec(s).state == CbState::Closed,
        before_spec(cfg, reset_spec(s), now).1,
{
}

} // verus!
