use sentinel_agent::collector::naming::normalize_name;

#[test]
fn lowercases_and_replaces_invalid_chars() {
    assert_eq!(normalize_name("CPU-Core#0"), "cpu_core_0");
}

#[test]
fn keeps_dots_and_underscores() {
    assert_eq!(normalize_name("cpu.core_0.usage"), "cpu.core_0.usage");
}

#[test]
fn normalize_edge_cases() {
    assert_eq!(normalize_name(""), "");
    assert_eq!(normalize_name("Disk /dev/sda1"), "disk__dev_sda1");
    assert_eq!(normalize_name("ÄB"), "_b");
}

use sentinel_agent::collector::system::{
    collect, cpu_metrics, disk_device, disk_metrics, memory_metrics, network_metrics, DiskSample, MetricKind,
    NetworkSample, SystemMetric, SystemSnapshot,
};

/// Reads the machine the way the agent does.
fn machine_snapshot() -> SystemSnapshot<f64> {
    let sys = sysinfo::System::new_all();
    let disks = sysinfo::Disks::new_with_refreshed_list();
    let networks = sysinfo::Networks::new_with_refreshed_list();
    SystemSnapshot {
        cpu_usage: sys.cpus().iter().map(|c| c.cpu_usage() as f64).collect(),
        total_memory: sys.total_memory() as f64,
        used_memory: sys.used_memory() as f64,
        available_memory: sys.available_memory() as f64,
        total_swap: sys.total_swap() as f64,
        used_swap: sys.used_swap() as f64,
        disks: disks
            .iter()
            .map(|d| DiskSample {
                name: d.name().to_string_lossy().to_string(),
                mount_point: d.mount_point().to_string_lossy().to_string(),
                total: d.total_space() as f64,
                available: d.available_space() as f64,
            })
            .collect(),
        networks: networks
            .iter()
            .map(|(iface, data)| NetworkSample {
                interface: iface.clone(),
                received: data.total_received() as f64,
                transmitted: data.total_transmitted() as f64,
            })
            .collect(),
        uptime: sysinfo::System::uptime() as f64,
        process_count: sys.processes().len() as f64,
    }
}

fn has_label(m: &SystemMetric<f64>, key: &str) -> bool {
    m.labels.iter().any(|(k, _)| k == key)
}

#[test]
fn collects_non_empty_metrics() {
    let metrics = collect(machine_snapshot(), 1);
    assert!(!metrics.is_empty(), "must produce at least one metric");
}

#[test]
fn cpu_metrics_have_core_label() {
    let metrics = collect(machine_snapshot(), 1);
    let cpu_metrics: Vec<_> = metrics.iter().filter(|m| m.name.starts_with("cpu.core")).collect();
    for m in &cpu_metrics {
        assert!(has_label(m, "core"));
    }
}

#[test]
fn memory_metrics_present() {
    let metrics = collect(machine_snapshot(), 1);
    let mem_names: Vec<_> = metrics.iter().filter(|m| m.name.starts_with("mem.")).map(|m| m.name.as_str()).collect();
    assert!(mem_names.contains(&"mem.total_bytes"));
    assert!(mem_names.contains(&"mem.used_bytes"));
}

#[test]
fn cpu_names_and_labels() {
    let out = cpu_metrics(vec![1.5f64, 2.5], 7);
    assert_eq!(out.len(), 2);
    assert_eq!(out[1].name, "cpu.core.1.usage_percent");
    assert_eq!(out[1].labels, vec![("core".to_string(), "1".to_string())]);
    assert_eq!(out[1].value, 2.5);
    assert_eq!(out[1].kind, MetricKind::Gauge);
    assert_eq!(out[0].timestamp_ms, 7);
}

#[test]
fn memory_gauges_in_order() {
    let out = memory_metrics(1u64, 2, 3, 4, 5, 0);
    let names: Vec<&str> = out.iter().map(|m| m.name.as_str()).collect();
    assert_eq!(
        names,
        vec!["mem.total_bytes", "mem.used_bytes", "mem.available_bytes", "mem.swap_total_bytes", "mem.swap_used_bytes"]
    );
    assert_eq!(out.iter().map(|m| m.value).collect::<Vec<_>>(), vec![1, 2, 3, 4, 5]);
    assert!(out.iter().all(|m| m.labels.is_empty()));
}

#[test]
fn disk_devices_and_names() {
    assert_eq!(disk_device("sda1", "/"), "sda1");
    assert_eq!(disk_device("", "/mnt/data"), "_mnt_data");
    assert_eq!(disk_device("", "C:\\"), "C:_");
    let out = disk_metrics(
        vec![DiskSample { name: "".into(), mount_point: "/Boot".into(), total: 10u64, available: 4 }],
        0,
    );
    assert_eq!(out.len(), 2);
    assert_eq!(out[0].name, "disk._boot.total_bytes");
    assert_eq!(out[1].name, "disk._boot.available_bytes");
    assert_eq!(out[0].labels, vec![("device".to_string(), "_Boot".to_string())]);
    assert_eq!((out[0].value, out[1].value), (10, 4));
}

#[test]
fn network_counters() {
    let out = network_metrics(vec![NetworkSample { interface: "eth0".into(), received: 9u64, transmitted: 8 }], 3);
    assert_eq!(out[0].name, "net.eth0.bytes_recv");
    assert_eq!(out[1].name, "net.eth0.bytes_sent");
    assert_eq!(out[0].kind, MetricKind::Counter);
    assert_eq!(out[1].labels, vec![("interface".to_string(), "eth0".to_string())]);
}

#[test]
fn snapshot_order() {
    let snap = SystemSnapshot {
        cpu_usage: vec![0u64],
        total_memory: 1,
        used_memory: 2,
        available_memory: 3,
        total_swap: 4,
        used_swap: 5,
        disks: vec![],
        networks: vec![NetworkSample { interface: "lo".into(), received: 6, transmitted: 7 }],
        uptime: 8,
        process_count: 9,
    };
    let out = collect(snap, 0);
    let values: Vec<u64> = out.iter().map(|m| m.value).collect();
    assert_eq!(values, vec![0, 1, 2, 3, 4, 5, 6, 7, 8, 9]);
    assert_eq!(out[8].name, "uptime_seconds");
    assert_eq!(out[9].name, "process.count_total");
}

#[test]
fn normalizing_twice_changes_nothing() {
    for raw in ["CPU-Core#0", "disk /dev/SDA", "ÄÖÜ.x_y", ""] {
        let once = normalize_name(raw);
        assert_eq!(normalize_name(&once), once);
    }
}
