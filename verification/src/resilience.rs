//! Resilience configuration: retry policy, circuit breaker thresholds and
//! circuit breaker states, with their documented defaults.
use vstd::prelude::*;

verus! {

/// Backoff strategy between retries.
#[derive(Debug, Clone, Copy, PartialEq, Eq, Structural)]
pub enum BackoffKind {
    /// Constant delay (the default of this type).
    Fixed,
    /// Delay doubling with every attempt.
    Exponential,
    /// Exponential delay with full jitter.
    DecorrelatedJitter,
}

impl Default for BackoffKind {
    fn default() -> (r: Self)
        ensures
            r == BackoffKind::Fixed,
    {
        BackoffKind::Fixed
    }
}

/// Retry policy.
#[derive(Debug, Clone, Copy, PartialEq, Eq, Structural)]
pub struct RetryConfig {
    /// Maximum number of retries after the first attempt.
    pub max_attempts: u32,
    pub backoff: BackoffKind,
    /// Smallest delay between attempts, in milliseconds.
    pub min_backoff_ms: u64,
    /// Largest delay between attempts, in milliseconds.
    pub max_backoff_ms: u64,
    pub jitter: bool,
}

pub fn default_max_attempts() -> (r: u32)
    ensures
        r == 3,
{
    3
}

pub fn default_min_backoff() -> (r: u64)
    ensures
        r == 100,
{
    100
}

pub fn default_max_backoff() -> (r: u64)
    ensures
        r == 10_000,
{
    10_000
}

pub fn default_true() -> (r: bool)
    ensures
        r,
{
    true
}

impl Default for RetryConfig {
    /// Three retries with exponential backoff from 100 ms to 10 s, with jitter.
    fn default() -> (r: Self)
        ensures
            r == (RetryConfig {
                max_attempts: 3,
                backoff: BackoffKind::Exponential,
                min_backoff_ms: 100,
                max_backoff_ms: 10_000,
                jitter: true,
            }),
    {
        RetryConfig {
            max_attempts: default_max_attempts(),
            backoff: BackoffKind::Exponential,
            min_backoff_ms: default_min_backoff(),
            max_backoff_ms: default_max_backoff(),
            jitter: default_true(),
        }
    }
}

/// How the delay between retries is jittered.
#[derive(Debug, Clone, Copy, PartialEq, Eq, Structural)]
pub enum JitterMode {
    Disabled,
    Full,
}

/// The exponential-backoff policy that a retry configuration asks for:
/// delays start at `min_ms`, double with every retry and are capped at
/// `max_ms`.
#[derive(Debug, Clone, Copy, PartialEq, Eq, Structural)]
pub struct RetryPlan {
    pub min_ms: u64,
    pub max_ms: u64,
    pub jitter: JitterMode,
    pub max_retries: u32,
}

/// The backoff policy of a retry configuration: a fixed strategy uses the
/// minimum delay as both bounds, an exponential one the configured bounds
/// without jitter, a decorrelated-jitter one the configured bounds with
/// full jitter.
pub fn retry_plan(config: &RetryConfig) -> (r: RetryPlan)
    ensures
        r.max_retries == config.max_attempts,
        r.min_ms == config.min_backoff_ms,
        r.max_ms == (if config.backoff == BackoffKind::Fixed {
            config.min_backoff_ms
        } else {
            config.max_backoff_ms
        }),
        r.jitter == (if config.backoff == BackoffKind::DecorrelatedJitter {
            JitterMode::Full
        } else {
            JitterMode::Disabled
        }),
{
    match config.backoff {
        BackoffKind::Fixed => RetryPlan {
            min_ms: config.min_backoff_ms,
            max_ms: config.min_backoff_ms,
            jitter: JitterMode::Disabled,
            max_retries: config.max_attempts,
        },
        BackoffKind::Exponential => RetryPlan {
            min_ms: config.min_backoff_ms,
            max_ms: config.max_backoff_ms,
            jitter: JitterMode::Disabled,
            max_retries: config.max_attempts,
        },
        BackoffKind::DecorrelatedJitter => RetryPlan {
            min_ms: config.min_backoff_ms,
            max_ms: config.max_backoff_ms,
            jitter: JitterMode::Full,
            max_retries: config.max_attempts,
        },
    }
}

/// The retry policy type of `retry_policies`, handed to the retry middleware.
#[verifier::external_type_specification]
#[verifier::external_body]
pub struct ExExponentialBackoff(retry_policies::policies::ExponentialBackoff);

/// The policy that `retry_policies`' builder makes of retry bounds in
/// milliseconds, full or no jitter, and a number of retries.
pub uninterp spec fn exponential_backoff(
    min_ms: u64,
    max_ms: u64,
    full_jitter: bool,
    max_retries: u32,
) -> retry_policies::policies::ExponentialBackoff;

/// Builds a `retry_policies` exponential backoff through its builder
/// (`retry_bounds`, `jitter`, `build_with_max_retries`) from a plan; the
/// builder only copies these settings into the policy, so the result is
/// the policy named by them. The builder panics when the lower bound
/// exceeds the upper one, which `requires` leaves out.
#[verifier::external_body]
fn backoff_policy(plan: RetryPlan) -> (r: retry_policies::policies::ExponentialBackoff)
    requires
        plan.min_ms <= plan.max_ms,
    ensures
        r == exponential_backoff(
            plan.min_ms,
            plan.max_ms,
            plan.jitter == JitterMode::Full,
            plan.max_retries,
        ),
{
    retry_policies::policies::ExponentialBackoff::builder().retry_bounds(
        std::time::Duration::from_millis(plan.min_ms),
        std::time::Duration::from_millis(plan.max_ms),
    ).jitter(
        match plan.jitter {
            JitterMode::Full => retry_policies::Jitter::Full,
            JitterMode::Disabled => retry_policies::Jitter::None,
        },
    ).build_with_max_retries(plan.max_retries)
}

/// The retry policy of a retry configuration, built from its plan (see
/// `retry_plan`). An exponential configuration whose minimum delay exceeds
/// its maximum is refused by the policy builder, so it is left out.
pub fn build_retry_policy(config: &RetryConfig) -> (r: retry_policies::policies::ExponentialBackoff)
    requires
        config.backoff != BackoffKind::Fixed ==> config.min_backoff_ms <= config.max_backoff_ms,
    ensures
        r == exponential_backoff(
            config.min_backoff_ms,
            if config.backoff == BackoffKind::Fixed {
                config.min_backoff_ms
            } else {
                config.max_backoff_ms
            },
            config.backoff == BackoffKind::DecorrelatedJitter,
            config.max_attempts,
        ),
{
    let plan = retry_plan(config);
    backoff_policy(plan)
}

/// What the retry middleware does after an attempt.
#[derive(Debug, Clone, Copy, PartialEq, Eq, Structural)]
pub enum RetryStep {
    /// Wait as the policy says, count one more retry, and try again.
    Retry { past_retries: u32 },
    /// Hand back this attempt's result, naming the retries made when there
    /// were any.
    Finish { retries: u32 },
}

/// An attempt that failed transiently is retried when the policy allows it;
/// any other attempt ends the loop.
pub fn retry_step(transient: bool, policy_allows: bool, past_retries: u32) -> (r: RetryStep)
    requires
        past_retries < u32::MAX,
    ensures
        r == (if transient && policy_allows {
            RetryStep::Retry { past_retries: (past_retries + 1) as u32 }
        } else {
            RetryStep::Finish { retries: past_retries }
        }),
{
    if transient && policy_allows {
        RetryStep::Retry { past_retries: past_retries + 1 }
    } else {
        RetryStep::Finish { retries: past_retries }
    }
}

/// Circuit breaker thresholds.
#[derive(Debug, Clone, Copy, PartialEq, Eq, Structural)]
pub struct CircuitBreakerConfig {
    /// Consecutive failures that open the breaker.
    pub failure_threshold: u32,
    /// Consecutive half-open successes that close it again.
    pub success_threshold: u32,
    /// Time an open breaker waits before letting probes through, in milliseconds.
    pub reset_timeout_ms: u64,
    /// Probes let through while half-open.
    pub half_open_max_requests: u32,
}

pub fn default_failure_threshold() -> (r: u32)
    ensures
        r == 5,
{
    5
}

pub fn default_success_threshold() -> (r: u32)
    ensures
        r == 2,
{
    2
}

pub fn default_reset_timeout() -> (r: u64)
    ensures
        r == 30_000,
{
    30_000
}

pub fn default_half_open_max() -> (r: u32)
    ensures
        r == 5,
{
    5
}

impl Default for CircuitBreakerConfig {
    /// Open after 5 failures, probe after 30 s with up to 5 requests, close after 2 successes.
    fn default() -> (r: Self)
        ensures
            r == (CircuitBreakerConfig {
                failure_threshold: 5,
                success_threshold: 2,
                reset_timeout_ms: 30_000,
                half_open_max_requests: 5,
            }),
    {
        CircuitBreakerConfig {
            failure_threshold: default_failure_threshold(),
            success_threshold: default_success_threshold(),
            reset_timeout_ms: default_reset_timeout(),
            half_open_max_requests: default_half_open_max(),
        }
    }
}

/// Circuit breaker state.
#[derive(Debug, Clone, Copy, PartialEq, Eq, Structural)]
pub enum CbState {
    /// Requests pass.
    Closed,
    /// Requests are rejected.
    Open,
    /// A few probe requests pass.
    HalfOpen,
}

} // verus!
