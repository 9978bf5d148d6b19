use vstd::prelude::*;

verus! {

/// What one liveness probe observed.
#[derive(Clone, Copy, Debug, PartialEq, Eq, Structural)]
pub enum ProbeResult {
    /// The process is alive but its socket is not yet open.
    NotListening,
    /// The process is gone, with its exit code.
    ProcessExited(i32),
    /// The endpoint answered, reporting a fault (HTTP status).
    Unhealthy(u16),
    Healthy,
}

/// What the supervisor does with a service after a probe.
#[derive(Clone, Copy, Debug, PartialEq, Eq, Structural)]
pub enum ReadinessDecision {
    Ready,
    RetryAfter(u64),
    FailedToStart,
    Exited(i32),
}

/// Exponential backoff with a capped number of probes.
#[derive(Clone, Copy, Debug, PartialEq, Eq, Structural)]
pub struct ReadinessPolicy {
    pub initial_delay_ms: u64,
    pub max_delay_ms: u64,
    pub max_attempts: u32,
}

/// `initial * 2^k`.
pub open spec fn doubled(initial: int, k: nat) -> int
    decreases k,
{
    if k == 0 {
        initial
    } else {
        2 * doubled(initial, (k - 1) as nat)
    }
}

pub open spec fn min_int(a: int, b: int) -> int {
    if a <= b {
        a
    } else {
        b
    }
}

/// The wait before probe number `attempt + 1`: the initial delay doubled
/// `attempt` times, capped.
pub open spec fn spec_backoff(p: ReadinessPolicy, attempt: nat) -> int {
    min_int(doubled(p.initial_delay_ms as int, attempt), p.max_delay_ms as int)
}

/// The decision after probe number `attempt + 1` (counting from zero) observed `r`.
pub open spec fn spec_readiness_step(p: ReadinessPolicy, attempt: nat, r: ProbeResult) -> ReadinessDecision {
    match r {
        ProbeResult::Healthy => ReadinessDecision::Ready,
        ProbeResult::ProcessExited(code) => ReadinessDecision::Exited(code),
        _ => if attempt + 1 >= p.max_attempts {
            ReadinessDecision::FailedToStart
        } else {
            ReadinessDecision::RetryAfter(spec_backoff(p, attempt) as u64)
        },
    }
}

pub open spec fn is_retry(d: ReadinessDecision) -> bool {
    d is RetryAfter
}

/// Where a startup window ends when probe `i` (from `attempt` on) observes `rs[i]`:
/// the first decision that is not a retry, or the last one if the probes run out.
pub open spec fn outcome_from(p: ReadinessPolicy, rs: Seq<ProbeResult>, attempt: nat) -> ReadinessDecision
    decreases rs.len() - attempt,
{
    if attempt >= rs.len() {
        ReadinessDecision::RetryAfter(0)
    } else {
        let d = spec_readiness_step(p, attempt, rs[attempt as int]);
        if !is_retry(d) || attempt + 1 >= rs.len() {
            d
        } else {
            outcome_from(p, rs, attempt + 1)
        }
    }
}

proof fn lemma_doubled_nonneg(initial: int, k: nat)
    requires
        initial >= 0,
    ensures
        doubled(initial, k) >= initial,
    decreases k,
{
    if k > 0 {
        lemma_doubled_nonneg(initial, (k - 1) as nat);
    }
}

/// The delay before the next probe.
pub fn backoff_delay(p: ReadinessPolicy, attempt: u32) -> (r: u64)
    ensures
        r == spec_backoff(p, attempt as nat),
{
    let cap = p.max_delay_ms;
    let mut d: u64 = if p.initial_delay_ms <= cap { p.initial_delay_ms } else { cap };
    let mut k: u32 = 0;
    while k < attempt
        invariant
            k <= attempt,
            cap == p.max_delay_ms,
            d == spec_backoff(p, k as nat),
        decreases attempt - k,
    {
        proof {
            lemma_doubled_nonneg(p.initial_delay_ms as int, k as nat);
            assert(doubled(p.initial_delay_ms as int, (k + 1) as nat) == 2 * doubled(
                p.initial_delay_ms as int,
                k as nat,
            ));
        }
        if d >= cap - d {
            d = cap;
        } else {
            d = 2 * d;
        }
        k = k + 1;
    }
    d
}

/// Decides what follows probe number `attempt + 1` (counting from zero).
/// A healthy answer makes the service ready and a vanished process is reported
/// as exited; otherwise the probe is retried after the backoff delay until
/// `max_attempts` probes have been made, after which the service failed to start.
pub fn readiness_step(p: ReadinessPolicy, attempt: u32, r: ProbeResult) -> (d: ReadinessDecision)
    ensures
        d == spec_readiness_step(p, attempt as nat, r),
{
    match r {
        ProbeResult::Healthy => ReadinessDecision::Ready,
        ProbeResult::ProcessExited(code) => ReadinessDecision::Exited(code),
        _ => if attempt >= p.max_attempts || p.max_attempts - attempt <= 1 {
            ReadinessDecision::FailedToStart
        } else {
            ReadinessDecision::RetryAfter(backoff_delay(p, attempt))
        },
    }
}

/// Reads an HTTP answer of the health endpoint: a 2xx status whose payload does
/// not report a fault is healthy; anything else is unhealthy with that status.
pub fn classify_response(status: u16, payload_healthy: Option<bool>) -> (r: ProbeResult)
    ensures
        (200 <= status < 300 && payload_healthy != Some(false)) ==> r == ProbeResult::Healthy,
        !(200 <= status < 300 && payload_healthy != Some(false)) ==> r == ProbeResult::Unhealthy(status),
{
    if 200 <= status && status < 300 && !matches!(payload_healthy, Some(false)) {
        ProbeResult::Healthy
    } else {
        ProbeResult::Unhealthy(status)
    }
}

/// A service whose endpoint reports a fault on every probe of the startup window
/// ends as failed-to-start, which is never the state of a crashed process.
pub proof fn lemma_unhealthy_window_fails(p: ReadinessPolicy, rs: Seq<ProbeResult>)
    requires
        p.max_attempts >= 1,
        rs.len() >= p.max_attempts,
        forall|i: int| 0 <= i < p.max_attempts ==> rs[i] is Unhealthy,
    ensures
        outcome_from(p, rs, 0) == ReadinessDecision::FailedToStart,
        outcome_from(p, rs, 0) != ReadinessDecision::Exited(0),
{
    lemma_unhealthy_from(p, rs, 0);
}

proof fn lemma_unhealthy_from(p: ReadinessPolicy, rs: Seq<ProbeResult>, k: nat)
    requires
        p.max_attempts >= 1,
        rs.len() >= p.max_attempts,
        k < p.max_attempts,
        forall|i: int| 0 <= i < p.max_attempts ==> rs[i] is Unhealthy,
    ensures
        outcome_from(p, rs, k) == ReadinessDecision::FailedToStart,
    decreases p.max_attempts - k,
{
    if k + 1 < p.max_attempts {
        lemma_unhealthy_from(p, rs, k + 1);
    }
}

/// A process that exits during the startup window, before any healthy answer,
/// is reported as exited with its code, never as failed-to-start.
pub proof fn lemma_exit_reported_as_exited(p: ReadinessPolicy, rs: Seq<ProbeResult>, k: nat, code: i32)
    requires
        k < rs.len(),
        k < p.max_attempts,
        rs[k as int] == ProbeResult::ProcessExited(code),
        forall|i: int| 0 <= i < k ==> (rs[i] is NotListening || rs[i] is Unhealthy),
    ensures
        outcome_from(p, rs, 0) == ReadinessDecision::Exited(code),
{
    lemma_exit_from(p, rs, k, code, 0);
}

proof fn lemma_exit_from(p: ReadinessPolicy, rs: Seq<ProbeResult>, k: nat, code: i32, j: nat)
    requires
        j <= k,
        k < rs.len(),
        k < p.max_attempts,
        rs[k as int] == ProbeResult::ProcessExited(code),
        forall|i: int| 0 <= i < k ==> (rs[i] is NotListening || rs[i] is Unhealthy),
    ensures
        outcome_from(p, rs, j) == ReadinessDecision::Exited(code),
    decreases k - j,
{
    if j < k {
        lemma_exit_from(p, rs, k, code, j + 1);
    }
}

} // verus!
