use sentinel_agent::batch::BatchComposer;

fn sample_metrics(n: usize) -> Vec<String> {
    (0..n).map(|i| format!("test.metric.{}", i)).collect()
}

#[test]
fn compose_assigns_sequential_ranges() {
    let mut composer = BatchComposer::new("agent-test".into(), 0);
    let b1 = composer.compose(sample_metrics(3));
    assert_eq!(b1.seq_start, 0);
    assert_eq!(b1.seq_end, 3);

    let b2 = composer.compose(sample_metrics(2));
    assert_eq!(b2.seq_start, 3);
    assert_eq!(b2.seq_end, 5);
    assert_eq!(composer.current_seq(), 5);
}

#[test]
fn batch_has_unique_id() {
    let mut composer = BatchComposer::new("agent-test".into(), 0);
    let b1 = composer.compose(sample_metrics(1));
    let b2 = composer.compose(sample_metrics(1));
    assert_ne!(b1.batch_id, b2.batch_id);
    assert_eq!(b1.batch_id.len(), 32);
    assert!(b1.batch_id.chars().all(|c| c.is_ascii_digit() || ('a'..='f').contains(&c)));
    assert!(b1.created_at_ms > 0);
}

#[test]
fn compose_with_given_id_and_time() {
    let mut composer = BatchComposer::new("agent-7".into(), 40);
    let b = composer.compose_with(vec![1u8, 2, 3, 4], "id-1".into(), 1234);
    assert_eq!(b.agent_id, "agent-7");
    assert_eq!(b.batch_id, "id-1");
    assert_eq!(b.created_at_ms, 1234);
    assert_eq!((b.seq_start, b.seq_end), (40, 44));
    assert_eq!(b.metrics, vec![1, 2, 3, 4]);
    let empty = composer.compose_with(Vec::<u8>::new(), "id-2".into(), 0);
    assert_eq!((empty.seq_start, empty.seq_end), (44, 44));
}
