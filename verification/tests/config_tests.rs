use sentinel_agent::config::key_store::{EncryptedFileStore, KeyStoreError};
use sentinel_agent::config::loader::{validate, LoadError};
use sentinel_agent::config::schema::{
    default_key_store, default_plugins_dir, default_retention_days, default_rotation_hours, default_segment_size,
    AgentConfig, BufferConfig, CollectConfig, MetricsToggle, SecurityConfig,
};

/// A configuration as the YAML parser fills it in: the fields given, the
/// defaults for the rest.
fn config(server: &str, interval_seconds: u64, metrics: MetricsToggle, wal_dir: &str) -> AgentConfig {
    AgentConfig {
        agent_id: None,
        server: server.to_string(),
        collect: CollectConfig { interval_seconds, metrics },
        plugins_dir: default_plugins_dir(),
        buffer: BufferConfig {
            wal_dir: wal_dir.to_string(),
            segment_size_mb: default_segment_size(),
            max_retention_days: default_retention_days(),
        },
        security: SecurityConfig {
            key_store: default_key_store(),
            rotation_check_interval_hours: default_rotation_hours(),
        },
    }
}

fn validation_message(r: Result<(), LoadError>) -> String {
    match r {
        Err(LoadError::Validation(m)) => format!("validation: {m}"),
        other => panic!("expected a validation error, got {other:?}"),
    }
}

#[test]
fn valid_config() {
    let cfg = config("https://localhost:8443", 10, MetricsToggle { cpu: true, mem: true, disk: false }, "/tmp/wal");
    assert!(validate(&cfg).is_ok());
    assert_eq!(cfg.server, "https://localhost:8443");
    assert!(!cfg.collect.metrics.disk);
}

#[test]
fn empty_server_rejected() {
    let cfg = config("", 10, MetricsToggle::all_on(), "/tmp/wal");
    let err = validation_message(validate(&cfg));
    assert!(err.contains("server URL"));
}

#[test]
fn zero_interval_rejected() {
    let cfg = config("https://localhost", 0, MetricsToggle::all_on(), "/tmp/wal");
    let err = validation_message(validate(&cfg));
    assert!(err.contains("interval_seconds"));
}

#[test]
fn empty_wal_dir_rejected_and_rules_checked_in_order() {
    let cfg = config("https://s", 5, MetricsToggle::all_on(), "");
    assert_eq!(validation_message(validate(&cfg)), "validation: buffer.wal_dir must not be empty");
    let cfg = config("", 0, MetricsToggle::all_on(), "");
    assert_eq!(validation_message(validate(&cfg)), "validation: server URL must not be empty");
}

#[test]
fn schema_defaults_applied() {
    let cfg = config("https://localhost", 5, MetricsToggle::all_on(), "/tmp/wal");
    assert!(cfg.collect.metrics.cpu);
    assert!(cfg.collect.metrics.mem);
    assert!(cfg.collect.metrics.disk);
    assert_eq!(cfg.buffer.segment_size_mb, 16);
    assert_eq!(cfg.buffer.max_retention_days, 7);
    assert_eq!(cfg.security.key_store, "auto");
    assert_eq!(cfg.security.rotation_check_interval_hours, 24);
    assert_eq!(cfg.plugins_dir, "/var/lib/sentinel/plugins");
}

fn test_store(key: u8) -> EncryptedFileStore {
    EncryptedFileStore::new("/var/lib/sentinel/keys", [key; 32])
}

#[test]
fn store_and_load() {
    let store = test_store(0xAB);
    let secret = b"super-secret-hmac-key";
    let blob = store.seal(secret).unwrap();
    assert_eq!(blob.len(), 12 + secret.len() + 16);
    let loaded = store.open(&blob).unwrap();
    assert_eq!(loaded, secret);
}

#[test]
fn wrong_key_fails_decrypt() {
    let blob = test_store(0x01).seal(b"secret").unwrap();
    let err = test_store(0x02).open(&blob).unwrap_err();
    assert!(matches!(err, KeyStoreError::Crypto(_)));
}

#[test]
fn short_blob_rejected() {
    match test_store(0x01).open(&[1, 2, 3]) {
        Err(KeyStoreError::Crypto(m)) => assert_eq!(m, "blob too short"),
        other => panic!("expected a crypto error, got {other:?}"),
    }
}

#[test]
fn key_file_path() {
    let store = test_store(0);
    assert_eq!(store.path_for("agent-1"), "/var/lib/sentinel/keys/agent-1.enc");
    assert_eq!(store.dir(), "/var/lib/sentinel/keys");
}
