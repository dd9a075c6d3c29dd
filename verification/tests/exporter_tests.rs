use std::time::Duration;

use sentinel_agent::exporter::http_fallback::{metrics_url, status_result, trim_base_url, HttpFallbackError};
use sentinel_agent::exporter::interceptor::AuthInterceptor;
use sentinel_agent::exporter::retry::RetryPolicy;
use sentinel_agent::exporter::send_loop::{PushOutcome, SendLoop, SendStep};

#[test]
fn error_display() {
    let e = HttpFallbackError::Rejected(503);
    assert!(e.message().contains("503"));
}

#[test]
fn error_messages_exact() {
    assert_eq!(HttpFallbackError::Rejected(404).message(), "rejected with status 404");
    assert_eq!(HttpFallbackError::Transport("refused".into()).message(), "transport: refused");
    assert_eq!(HttpFallbackError::Serialize("bad".into()).message(), "serialize: bad");
}

#[test]
fn status_classification() {
    assert!(status_result(200).is_ok());
    assert!(status_result(299).is_ok());
    assert!(matches!(status_result(199), Err(HttpFallbackError::Rejected(199))));
    assert!(matches!(status_result(300), Err(HttpFallbackError::Rejected(300))));
    assert!(matches!(status_result(503), Err(HttpFallbackError::Rejected(503))));
}

#[test]
fn base_url_trimmed_and_joined() {
    assert_eq!(trim_base_url("https://s:8443///"), "https://s:8443");
    assert_eq!(trim_base_url("https://s"), "https://s");
    assert_eq!(trim_base_url("///"), "");
    let base = trim_base_url("https://s/");
    assert_eq!(metrics_url(&base), "https://s/v1/agent/metrics");
}

#[test]
fn interceptor_injects_headers() {
    let interceptor = AuthInterceptor::new("agent-1".into(), "key-abc".into());
    let headers = interceptor.headers();
    assert_eq!(headers.len(), 2);
    assert_eq!(headers[0], ("x-agent-id".to_string(), "agent-1".to_string()));
    assert_eq!(headers[1], ("x-key-id".to_string(), "key-abc".to_string()));
}

fn nanos(d: Duration) -> u128 {
    d.as_nanos()
}

#[test]
fn exponential_backoff() {
    let policy = RetryPolicy {
        max_attempts: Some(5),
        base_delay_nanos: nanos(Duration::from_millis(100)),
        max_delay_nanos: nanos(Duration::from_secs(10)),
    };
    assert_eq!(policy.delay_for_attempt(0), nanos(Duration::from_millis(100)));
    assert_eq!(policy.delay_for_attempt(1), nanos(Duration::from_millis(200)));
    assert_eq!(policy.delay_for_attempt(2), nanos(Duration::from_millis(400)));
    assert_eq!(policy.delay_for_attempt(3), nanos(Duration::from_millis(800)));
}

#[test]
fn capped_at_max_delay() {
    let policy = RetryPolicy {
        max_attempts: None,
        base_delay_nanos: nanos(Duration::from_secs(1)),
        max_delay_nanos: nanos(Duration::from_secs(30)),
    };
    assert!(policy.delay_for_attempt(20) <= nanos(Duration::from_secs(30)));
    assert_eq!(policy.delay_for_attempt(20), nanos(Duration::from_secs(30)));
}

#[test]
fn huge_attempts_saturate_then_cap() {
    let policy = RetryPolicy { max_attempts: None, base_delay_nanos: 3_000_000, max_delay_nanos: u128::MAX };
    assert_eq!(policy.delay_for_attempt(64), u64::MAX as u128 * 1_000_000);
    assert_eq!(policy.delay_for_attempt(u32::MAX), u64::MAX as u128 * 1_000_000);
    assert_eq!(policy.delay_for_attempt(2), 12_000_000);
}

#[test]
fn sub_millisecond_parts() {
    // The base is read in whole milliseconds; the cap is exact.
    let policy = RetryPolicy {
        max_attempts: None,
        base_delay_nanos: nanos(Duration::from_micros(1_999)),
        max_delay_nanos: nanos(Duration::from_micros(2_500)),
    };
    assert_eq!(policy.delay_for_attempt(0), 1_000_000);
    assert_eq!(policy.delay_for_attempt(1), 2_000_000);
    assert_eq!(policy.delay_for_attempt(2), 2_500_000);
}

#[test]
fn respects_max_attempts() {
    let policy = RetryPolicy { max_attempts: Some(3), ..Default::default() };
    assert!(policy.should_retry(0));
    assert!(policy.should_retry(2));
    assert!(!policy.should_retry(3));
}

#[test]
fn unlimited_retries() {
    let policy = RetryPolicy::default();
    assert!(policy.should_retry(1000));
    assert_eq!(policy.base_delay_nanos, nanos(Duration::from_secs(1)));
    assert_eq!(policy.max_delay_nanos, nanos(Duration::from_secs(60)));
}

#[test]
fn send_loop_steps() {
    let lp = SendLoop { retry_policy: RetryPolicy { max_attempts: Some(2), base_delay_nanos: 100_000_000, max_delay_nanos: 1_000_000_000 } };
    assert_eq!(lp.next_step(PushOutcome::Accepted, 0), SendStep::Ack { delivered: true });
    assert_eq!(lp.next_step(PushOutcome::Rejected, 1), SendStep::Ack { delivered: false });
    assert_eq!(lp.next_step(PushOutcome::Retry, 0), SendStep::RetryAfter { delay_nanos: 100_000_000, next_attempt: 1 });
    assert_eq!(lp.next_step(PushOutcome::TransportError, 1), SendStep::RetryAfter { delay_nanos: 200_000_000, next_attempt: 2 });
    assert_eq!(lp.next_step(PushOutcome::UnknownStatus, 2), SendStep::GiveUp);
}

#[test]
fn delays_never_shrink_and_retries_stop_for_good() {
    let policy = RetryPolicy { max_attempts: Some(7), base_delay_nanos: 250_000_000, max_delay_nanos: 5_000_000_000 };
    let delays: Vec<u128> = (0..40).map(|a| policy.delay_for_attempt(a)).collect();
    assert!(delays.windows(2).all(|w| w[0] <= w[1]));
    assert!(delays.iter().all(|d| *d <= 5_000_000_000));
    let allowed: Vec<bool> = (0..20).map(|a| policy.should_retry(a)).collect();
    assert_eq!(allowed.iter().filter(|b| **b).count(), 7);
    assert!(allowed.windows(2).all(|w| w[0] || !w[1]));
}
