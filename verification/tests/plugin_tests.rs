use std::collections::HashMap;

use sentinel_agent::plugin::discovery::{check_signature, extract_manifest_name, manifest_names, plugin_file, sort_installed};
use sentinel_agent::plugin::error::PluginError;
use sentinel_agent::plugin::host::{guest_range, HostBuffers};
use sentinel_agent::plugin::installer::{sign_blob, verify_blob};
use sentinel_agent::plugin::manifest::{Capability, PluginManifest, ResourceLimits};
use sentinel_agent::plugin::runtime::{finish_run, EntryOutcome};

fn test_manifest(name: &str) -> PluginManifest {
    PluginManifest {
        name: name.into(),
        version: "1.0.0".into(),
        entry_fn: "collect".into(),
        capabilities: vec![],
        resource_limits: ResourceLimits::default(),
        metadata: HashMap::new(),
    }
}

#[test]
fn installer_sign_and_verify() {
    let key = b"server-public-key";
    let blob = b"fake wasm module bytes";
    let sig = sign_blob(blob, key);
    assert!(verify_blob(blob, &sig, key));
    assert_eq!(sig.len(), 32);
}

#[test]
fn tampered_blob_rejected() {
    let key = b"server-public-key";
    let blob = b"original";
    let sig = sign_blob(blob, key);
    assert!(!verify_blob(b"tampered", &sig, key));
}

#[test]
fn wrong_key_rejected() {
    let blob = b"data";
    let sig = sign_blob(blob, b"key-a");
    assert!(!verify_blob(blob, &sig, b"key-b"));
}

#[test]
fn hmac_known_answer() {
    // RFC 4231, test case 2.
    let sig = sign_blob(b"what do ya want for nothing?", b"Jefe");
    let hex: String = sig.iter().map(|b| format!("{b:02x}")).collect();
    assert_eq!(hex, "5bdcc146bf60754e6a042426089575c75a003f089d2739839dec58b964ec3843");
}

#[test]
fn manifest_defaults_applied() {
    let m = test_manifest("basic");
    assert_eq!(m.resource_limits.max_memory_mb, 64);
    assert_eq!(m.resource_limits.timeout_ms, 5000);
    assert_eq!(m.resource_limits.max_metrics, 1000);
    assert!(m.capabilities.is_empty());
}

#[test]
fn capabilities_checked() {
    let mut m = test_manifest("nginx_status");
    m.capabilities = vec![Capability::HttpGet];
    assert!(m.has_capability(&Capability::HttpGet));
    assert!(!m.has_capability(&Capability::ReadFile));
    assert!(!test_manifest("x").has_capability(&Capability::MetricBuilder));
}

#[test]
fn host_collects_emits_and_logs() {
    let mut host = HostBuffers::new(1000);
    assert_eq!(host.emit(Some("{\"name\":\"cpu\",\"value\":42}".into())), 0);
    host.log(Some("hello from plugin".into()));
    let result = finish_run(EntryOutcome::Returned(0), host.collected_json, host.logs).unwrap();
    assert_eq!(result.metrics_json.len(), 1);
    assert!(result.metrics_json[0].contains("cpu"));
    assert_eq!(result.logs.len(), 1);
    assert_eq!(result.logs[0], "hello from plugin");
}

#[test]
fn nonzero_entry_code_is_error() {
    match finish_run(EntryOutcome::Returned(1), vec![], vec![]) {
        Err(PluginError::Execution(m)) => assert_eq!(m, "plugin returned code 1"),
        other => panic!("expected an execution error, got {:?}", other.err()),
    }
    match finish_run(EntryOutcome::Returned(-7), vec![], vec![]) {
        Err(PluginError::Execution(m)) => assert_eq!(m, "plugin returned code -7"),
        other => panic!("expected an execution error, got {:?}", other.err()),
    }
}

#[test]
fn plugin_traps_classified() {
    assert!(matches!(
        finish_run(EntryOutcome::Trapped("wasm trap: interrupt: epoch deadline".into()), vec![], vec![]),
        Err(PluginError::Timeout)
    ));
    assert!(matches!(
        finish_run(EntryOutcome::Trapped("out of memory growing".into()), vec![], vec![]),
        Err(PluginError::MemoryLimit)
    ));
    match finish_run(EntryOutcome::Trapped("unreachable executed".into()), vec![], vec![]) {
        Err(PluginError::Execution(m)) => assert_eq!(m, "unreachable executed"),
        other => panic!("expected an execution error, got {:?}", other.err()),
    }
}

#[test]
fn host_accepts_several_emits() {
    let mut host = HostBuffers::new(1000);
    assert_eq!(host.emit(Some("{\"a\":1}".into())), 0);
    assert_eq!(host.emit(Some("{\"b\":2}".into())), 0);
    assert_eq!(host.collected_json.len(), 2);
}

#[test]
fn host_enforces_metric_limit() {
    let mut host = HostBuffers::new(1);
    assert_eq!(host.emit(Some("{\"a\":1}".into())), 0);
    assert_eq!(host.emit(Some("{\"b\":2}".into())), -1);
    assert_eq!(host.collected_json.len(), 1);
}

#[test]
fn unreadable_guest_strings_refused() {
    let mut host = HostBuffers::new(5);
    assert_eq!(host.emit(None), -1);
    host.log(None);
    assert!(host.collected_json.is_empty());
    assert!(host.logs.is_empty());
}

#[test]
fn guest_ranges() {
    assert_eq!(guest_range(0, 27, 65536), Some((0, 27)));
    assert_eq!(guest_range(65530, 6, 65536), Some((65530, 65536)));
    assert_eq!(guest_range(65530, 7, 65536), None);
}

#[test]
fn manifest_file_names() {
    assert_eq!(extract_manifest_name("nginx.manifest.yml"), Some("nginx".to_string()));
    assert_eq!(extract_manifest_name("nginx.wasm"), None);
    assert_eq!(extract_manifest_name(".manifest.yml"), Some(String::new()));
    let files = vec![
        "beta.manifest.yml".to_string(),
        "beta.wasm".to_string(),
        "alpha.manifest.yml".to_string(),
        "alpha.sig".to_string(),
        "beta.manifest.yml".to_string(),
    ];
    assert_eq!(manifest_names(&files), vec!["alpha".to_string(), "beta".to_string()]);
    assert_eq!(plugin_file("/plugins", "alpha", ".wasm"), "/plugins/alpha.wasm");
}

#[test]
fn list_installed_returns_sorted() {
    let items = vec![("beta".to_string(), test_manifest("beta")), ("alpha".to_string(), test_manifest("alpha"))];
    let list = sort_installed(items);
    assert_eq!(list.len(), 2);
    assert_eq!(list[0].0, "alpha");
    assert_eq!(list[1].0, "beta");
}

#[test]
fn scan_with_signing_verification() {
    let wasm = b"(module)";
    let key = b"signing-key";
    let sig = sign_blob(wasm, key);
    assert!(check_signature("signed", wasm, &sig, Some(key)).is_ok());
    assert!(check_signature("unsigned", wasm, b"", None).is_ok());
}

#[test]
fn scan_rejects_bad_signature() {
    match check_signature("bad", b"(module)", b"invalid-sig", Some(b"key")) {
        Err(PluginError::InvalidOutput(m)) => assert_eq!(m, "signature verification failed for bad"),
        other => panic!("expected a refused signature, got {other:?}"),
    }
}
