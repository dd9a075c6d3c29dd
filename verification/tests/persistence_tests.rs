use sentinel_agent::buffer::meta::WalMeta;
use sentinel_agent::buffer::record::Record;
use sentinel_agent::buffer::wal::{SegmentListing, WalIndex};
use sentinel_agent::persistence::recovery::{check_volume, full_recovery, recover_state, recover_wal, VolumeStep};
use sentinel_agent::persistence::state::AgentPersistedState;
use sentinel_agent::persistence::volume::{VolumeCheck, VolumeLayout};

#[test]
fn new_state_defaults() {
    let s = AgentPersistedState::new("test-agent".into(), "https://server".into());
    assert_eq!(s.agent_id, "test-agent");
    assert_eq!(s.seq_counter, 0);
    assert_eq!(s.boot_count, 0);
    assert!(s.clean_shutdown);
    assert_eq!(s.key_id, "default");
    assert_eq!(s.server_url, "https://server");
}

#[test]
fn record_boot_increments() {
    let mut s = AgentPersistedState::new("a".into(), "s".into());
    s.record_boot();
    assert_eq!(s.boot_count, 1);
    assert!(!s.clean_shutdown);
    s.record_boot();
    assert_eq!(s.boot_count, 2);
}

#[test]
fn record_shutdown_sets_clean() {
    let mut s = AgentPersistedState::new("a".into(), "s".into());
    s.record_boot();
    assert!(!s.clean_shutdown);
    s.record_shutdown();
    assert!(s.clean_shutdown);
    assert!(s.last_shutdown_ms > 0);
}

#[test]
fn record_connection_and_seq() {
    let mut s = AgentPersistedState::new("a".into(), "s".into());
    s.record_connection();
    assert!(s.last_connection_ms > 0);
    s.update_seq(77);
    assert_eq!(s.seq_counter, 77);
    assert!(s.clean_shutdown);
}

#[test]
fn layout_paths() {
    let layout = VolumeLayout::new("/etc/sentinel");
    assert_eq!(layout.config_file(), "/etc/sentinel/config.yml");
    assert_eq!(layout.state_file(), "/etc/sentinel/state/agent.state.json");
    assert_eq!(layout.wal_dir(None), "/etc/sentinel/wal");
    assert_eq!(layout.wal_dir(Some("/custom/wal")), "/custom/wal");
    assert_eq!(layout.root(), "/etc/sentinel");
    assert_eq!(layout.state_dir(), "/etc/sentinel/state");
}

#[test]
fn layout_paths_with_trailing_slash_and_relative_root() {
    let layout = VolumeLayout::new("/data/");
    assert_eq!(layout.config_file(), "/data/config.yml");
    let layout = VolumeLayout::new("vol");
    assert_eq!(layout.state_file(), "vol/state/agent.state.json");
}

fn volume(root_exists: bool, root_writable: bool) -> VolumeCheck {
    VolumeCheck { root_exists, root_writable, config_exists: false, state_exists: false, wal_exists: false }
}

#[test]
fn check_volume_initializes_if_missing() {
    assert!(matches!(check_volume(volume(false, false)), VolumeStep::Initialize));
    assert!(matches!(check_volume(volume(true, false)), VolumeStep::Initialize));
    match check_volume(volume(true, true)) {
        VolumeStep::Ready(c) => {
            assert!(c.root_exists);
            assert!(c.root_writable);
        },
        VolumeStep::Initialize => panic!("a writable volume needs no initialization"),
    }
}

#[test]
fn recover_state_first_boot() {
    let (state, first) = recover_state(None, "agent-1", "https://s");
    assert!(first);
    assert_eq!(state.agent_id, "agent-1");
    assert_eq!(state.boot_count, 1);
    assert!(!state.clean_shutdown);
}

fn saved_state() -> AgentPersistedState {
    let mut s = AgentPersistedState::new("agent-1".into(), "https://s".into());
    s.seq_counter = 100;
    s.record_boot();
    s.record_shutdown();
    s
}

#[test]
fn recover_state_subsequent_boot() {
    let (state, first) = recover_state(Some(saved_state()), "agent-1", "https://s");
    assert!(!first);
    assert_eq!(state.boot_count, 2);
    assert_eq!(state.seq_counter, 100);
    assert!(!state.clean_shutdown);
}

fn open_index(meta: &WalMeta, records: &[Record]) -> WalIndex {
    let listing = vec![SegmentListing {
        file_name: "wal-0000000.log".to_string(),
        record_ids: Some(records.iter().map(|r| r.id).collect()),
    }];
    WalIndex::recover(meta, &listing, 1024 * 1024)
}

fn records(items: &[(u64, &[u8])]) -> Vec<Record> {
    items.iter().map(|(id, d)| Record { id: *id, data: d.to_vec() }).collect()
}

#[test]
fn recover_wal_empty() {
    let wal = WalIndex::recover(&WalMeta::empty(), &Vec::new(), 1024 * 1024);
    let (seq, pending) = recover_wal(&wal, Vec::new());
    assert_eq!(seq, 0);
    assert_eq!(pending, 0);
}

#[test]
fn recover_wal_with_pending() {
    let recs = records(&[(0, b"batch1"), (1, b"batch2")]);
    let mut wal = open_index(&WalMeta::empty(), &recs);
    wal.ack(0);
    let (seq, pending) = recover_wal(&wal, recs);
    assert_eq!(seq, 2);
    assert_eq!(pending, 1);
}

#[test]
fn full_recovery_first_boot() {
    let wal = WalIndex::recover(&WalMeta::empty(), &Vec::new(), 1024 * 1024);
    let result = full_recovery(None, "a1", "https://s", &wal, Vec::new());
    assert!(result.first_boot);
    assert!(result.was_clean_shutdown);
    assert_eq!(result.pending_batches, 0);
    assert_eq!(result.resume_seq, 0);
    assert_eq!(result.state.agent_id, "a1");
    assert_eq!(result.state.boot_count, 1);
}

#[test]
fn full_recovery_after_crash() {
    let mut crashed = AgentPersistedState::new("a1".into(), "https://s".into());
    crashed.seq_counter = 50;
    crashed.record_boot();

    let recs = records(&[(0, b"pending1"), (1, b"pending2")]);
    let meta = WalMeta { head_seq: 0, tail_seq: 2, last_segment: 0, acked_ids: vec![] };
    let wal = open_index(&meta, &recs);

    let result = full_recovery(Some(crashed), "a1", "https://s", &wal, recs);
    assert!(!result.first_boot);
    assert!(!result.was_clean_shutdown);
    assert_eq!(result.pending_batches, 2);
    assert_eq!(result.resume_seq, 2);
    assert_eq!(result.state.seq_counter, 2);
    assert_eq!(result.state.boot_count, 2);
}

#[test]
fn full_recovery_after_clean_shutdown_still_reports_not_clean() {
    let wal = WalIndex::recover(&WalMeta::empty(), &Vec::new(), 1024);
    let result = full_recovery(Some(saved_state()), "other", "https://other", &wal, Vec::new());
    assert!(!result.first_boot);
    assert!(!result.was_clean_shutdown);
    assert_eq!(result.state.agent_id, "agent-1");
}

#[test]
fn record_connection_at_stamps_only_the_connection() {
    let mut s = AgentPersistedState::new("a".into(), "s".into());
    s.record_connection_at(1234);
    assert_eq!(s.last_connection_ms, 1234);
    assert_eq!(s.last_shutdown_ms, 0);
    assert!(s.clean_shutdown);
}

#[test]
fn record_shutdown_at_stamps_and_marks_clean() {
    let mut s = AgentPersistedState::new("a".into(), "s".into());
    s.record_boot();
    s.record_connection_at(7);
    s.record_shutdown_at(99);
    assert!(s.clean_shutdown);
    assert_eq!(s.last_shutdown_ms, 99);
    assert_eq!(s.last_connection_ms, 7);
    assert_eq!(s.boot_count, 1);
}
