use sentinel_agent::api::metrics::exposition;
use sentinel_agent::api::state::AgentState;

#[test]
fn atomic_updates() {
    let state = AgentState::new();
    state.set_queue_length(42);
    state.set_wal_size_bytes(1024);
    state.set_ready(true);
    state.increment_batches_sent();
    state.increment_batches_sent();
    state.increment_batches_failed();

    assert_eq!(state.queue_length(), 42);
    assert_eq!(state.wal_size_bytes(), 1024);
    assert!(state.is_ready());
    assert_eq!(state.batches_sent(), 2);
    assert_eq!(state.batches_failed(), 1);
}

#[test]
fn clone_shares_state() {
    let a = AgentState::new();
    let b = a.clone();
    a.set_queue_length(99);
    assert_eq!(b.queue_length(), 99);
}

#[test]
fn new_agent_state_is_zero_and_not_ready() {
    let s = AgentState::default();
    assert_eq!(s.queue_length(), 0);
    assert_eq!(s.wal_size_bytes(), 0);
    assert_eq!(s.last_send_epoch(), 0);
    assert_eq!(s.batches_sent(), 0);
    assert_eq!(s.batches_failed(), 0);
    assert!(!s.is_ready());
    s.set_last_send_epoch(1_700_000_000);
    assert_eq!(s.last_send_epoch(), 1_700_000_000);
}

#[test]
fn exposition_format() {
    let state = AgentState::new();
    state.set_queue_length(5);
    state.set_wal_size_bytes(2048);
    state.increment_batches_sent();
    let text = exposition(
        state.queue_length(),
        state.wal_size_bytes(),
        state.last_send_epoch(),
        state.batches_sent(),
        state.batches_failed(),
    );
    assert!(text.contains("sentinel_queue_length 5"));
    assert!(text.contains("sentinel_wal_size_bytes 2048"));
    assert!(text.contains("sentinel_batches_sent_total 1"));
    assert!(text.contains("# TYPE sentinel_queue_length gauge"));
    assert!(text.contains("# TYPE sentinel_batches_sent_total counter"));
}

#[test]
fn exposition_exact_text() {
    let body = exposition(1, 2, 3, 4, 5);
    let expected = "# HELP sentinel_queue_length Number of unacked records in WAL\n\
# TYPE sentinel_queue_length gauge\n\
sentinel_queue_length 1\n\
# HELP sentinel_wal_size_bytes Current WAL size on disk in bytes\n\
# TYPE sentinel_wal_size_bytes gauge\n\
sentinel_wal_size_bytes 2\n\
# HELP sentinel_last_send_epoch Unix timestamp of last successful send\n\
# TYPE sentinel_last_send_epoch gauge\n\
sentinel_last_send_epoch 3\n\
# HELP sentinel_batches_sent_total Total batches sent successfully\n\
# TYPE sentinel_batches_sent_total counter\n\
sentinel_batches_sent_total 4\n\
# HELP sentinel_batches_failed_total Total batches that failed to send\n\
# TYPE sentinel_batches_failed_total counter\n\
sentinel_batches_failed_total 5\n";
    assert_eq!(body, expected);
    assert!(exposition(u64::MAX, 0, 0, 0, 0).contains("sentinel_queue_length 18446744073709551615\n"));
}
