use cliniscribe::health::{
    backoff_delay, classify_response, readiness_step, ProbeResult, ReadinessDecision, ReadinessPolicy,
};

fn policy() -> ReadinessPolicy {
    ReadinessPolicy { initial_delay_ms: 100, max_delay_ms: 1000, max_attempts: 5 }
}

#[test]
fn backoff_doubles_then_caps() {
    let p = policy();
    assert_eq!(backoff_delay(p, 0), 100);
    assert_eq!(backoff_delay(p, 1), 200);
    assert_eq!(backoff_delay(p, 3), 800);
    assert_eq!(backoff_delay(p, 4), 1000);
    assert_eq!(backoff_delay(p, 60), 1000);
}

#[test]
fn backoff_initial_above_cap_is_capped() {
    let p = ReadinessPolicy { initial_delay_ms: 5000, max_delay_ms: 1000, max_attempts: 3 };
    assert_eq!(backoff_delay(p, 0), 1000);
}

#[test]
fn backoff_near_u64_max_saturates_at_cap() {
    let p = ReadinessPolicy { initial_delay_ms: u64::MAX / 2 + 1, max_delay_ms: u64::MAX, max_attempts: 3 };
    assert_eq!(backoff_delay(p, 1), u64::MAX);
}

#[test]
fn healthy_probe_is_ready() {
    assert_eq!(readiness_step(policy(), 0, ProbeResult::Healthy), ReadinessDecision::Ready);
}

#[test]
fn exited_probe_is_exited() {
    assert_eq!(readiness_step(policy(), 2, ProbeResult::ProcessExited(3)), ReadinessDecision::Exited(3));
}

#[test]
fn not_listening_is_retried_with_backoff() {
    assert_eq!(readiness_step(policy(), 2, ProbeResult::NotListening), ReadinessDecision::RetryAfter(400));
}

#[test]
fn last_attempt_fails_to_start() {
    assert_eq!(readiness_step(policy(), 4, ProbeResult::NotListening), ReadinessDecision::FailedToStart);
    let none = ReadinessPolicy { initial_delay_ms: 1, max_delay_ms: 1, max_attempts: 0 };
    assert_eq!(readiness_step(none, 0, ProbeResult::Unhealthy(503)), ReadinessDecision::FailedToStart);
}

#[test]
fn http_500_for_whole_window_fails_to_start() {
    let p = policy();
    let mut attempt: u32 = 0;
    let mut probes = 0;
    let decision = loop {
        let r = classify_response(500, None);
        probes += 1;
        match readiness_step(p, attempt, r) {
            ReadinessDecision::RetryAfter(_) => attempt += 1,
            d => break d,
        }
    };
    assert_eq!(decision, ReadinessDecision::FailedToStart);
    assert_eq!(probes, 5);
    assert_ne!(decision, ReadinessDecision::Exited(0));
}

#[test]
fn crash_during_window_is_exited_not_failed_to_start() {
    let p = policy();
    let results = [ProbeResult::NotListening, ProbeResult::Unhealthy(500), ProbeResult::ProcessExited(137)];
    let mut last = ReadinessDecision::RetryAfter(0);
    for (i, r) in results.iter().enumerate() {
        last = readiness_step(p, i as u32, *r);
        if !matches!(last, ReadinessDecision::RetryAfter(_)) {
            break;
        }
    }
    assert_eq!(last, ReadinessDecision::Exited(137));
}

#[test]
fn classify_statuses() {
    assert_eq!(classify_response(200, None), ProbeResult::Healthy);
    assert_eq!(classify_response(204, Some(true)), ProbeResult::Healthy);
    assert_eq!(classify_response(200, Some(false)), ProbeResult::Unhealthy(200));
    assert_eq!(classify_response(500, Some(true)), ProbeResult::Unhealthy(500));
    assert_eq!(classify_response(301, None), ProbeResult::Unhealthy(301));
}
