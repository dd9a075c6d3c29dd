//! The built-in system metrics: their names, labels and kinds, given the
//! figures read from the machine.
use vstd::prelude::*;

use super::naming::{normalize_char, normalize_name};
use crate::text::{chars_of, decimal, push_decimal, push_str, string_from_chars, u64_to_decimal};

verus! {

/// Whether a metric is a level (gauge) or a running total (counter).
#[derive(Debug, Clone, Copy, PartialEq, Eq, Structural)]
pub enum MetricKind {
    Gauge,
    Counter,
}

/// One system metric. The value is carried as read, in whatever type the
/// caller reads the machine's figures.
pub struct SystemMetric<V> {
    pub name: String,
    pub labels: Vec<(String, String)>,
    pub kind: MetricKind,
    pub value: V,
    pub timestamp_ms: i64,
}

/// The figures of one mounted disk.
pub struct DiskSample<V> {
    pub name: String,
    pub mount_point: String,
    pub total: V,
    pub available: V,
}

/// The totals of one network interface.
pub struct NetworkSample<V> {
    pub interface: String,
    pub received: V,
    pub transmitted: V,
}

/// Everything the system collector reads from the machine at one moment.
pub struct SystemSnapshot<V> {
    pub cpu_usage: Vec<V>,
    pub total_memory: V,
    pub used_memory: V,
    pub available_memory: V,
    pub total_swap: V,
    pub used_swap: V,
    pub disks: Vec<DiskSample<V>>,
    pub networks: Vec<NetworkSample<V>>,
    pub uptime: V,
    pub process_count: V,
}

/// A metric name as reported: every character normalized.
pub open spec fn normalized(s: Seq<char>) -> Seq<char> {
    s.map_values(|c: char| normalize_char(c))
}

/// The labels of a metric, by view.
pub open spec fn label_views(labels: Seq<(String, String)>) -> Seq<(Seq<char>, Seq<char>)> {
    labels.map_values(|p: (String, String)| (p.0@, p.1@))
}

/// `m` is the metric named `normalized(name)` with these labels, kind, value and time.
pub open spec fn is_metric<V>(
    m: SystemMetric<V>,
    name: Seq<char>,
    labels: Seq<(Seq<char>, Seq<char>)>,
    kind: MetricKind,
    value: V,
    now_ms: i64,
) -> bool {
    &&& m.name@ == normalized(name)
    &&& label_views(m.labels@) == labels
    &&& m.kind == kind
    &&& m.value == value
    &&& m.timestamp_ms == now_ms
}

/// The device a disk is reported under: its name, or, when that is empty,
/// its mount point with every `\` and `/` turned into `_`.
pub open spec fn disk_device_spec(name: Seq<char>, mount_point: Seq<char>) -> Seq<char> {
    if name.len() == 0 {
        mount_point.map_values(|c: char| if c == '\\' || c == '/' { '_' } else { c })
    } else {
        name
    }
}

/// Law: a disk with a name is reported under that name exactly as given;
/// only a disk without a name falls back to its mount point, character for
/// character, with each `/` and `\\` turned into `_`, so the fallback holds no
/// separator.
pub proof fn lemma_disk_device(name: Seq<char>, mount_point: Seq<char>)
    ensures
        name.len() > 0 ==> disk_device_spec(name, mount_point) == name,
        name.len() == 0 ==> disk_device_spec(name, mount_point).len() == mount_point.len(),
        name.len() == 0 ==> forall|i: int|
            0 <= i < mount_point.len() ==> {
                let c = #[trigger] disk_device_spec(name, mount_point)[i];
                &&& (mount_point[i] != '/' && mount_point[i] != '\\' ==> c == mount_point[i])
                &&& (mount_point[i] == '/' || mount_point[i] == '\\' ==> c == '_')
            },
        name.len() == 0 ==> !disk_device_spec(name, mount_point).contains('/'),
{
    if name.len() == 0 {
        let d = disk_device_spec(name, mount_point);
        if d.contains('/') {
            let k = choose|k: int| 0 <= k < d.len() && d[k] == '/';
            assert(d[k] == (if mount_point[k] == '\\' || mount_point[k] == '/' { '_' } else { mount_point[k] }));
        }
    }
}

/// A metric of the given kind; its name is normalized.
pub fn system_metric<V>(name: &str, kind: MetricKind, value: V, labels: Vec<(String, String)>, now_ms: i64) -> (m: SystemMetric<V>)
    ensures
        m.name@ == normalized(name@),
        m.labels@ == labels@,
        m.kind == kind,
        m.value == value,
        m.timestamp_ms == now_ms,
{
    SystemMetric { name: normalize_name(name), labels, kind, value, timestamp_ms: now_ms }
}

fn one_label(key: &str, value: String) -> (l: Vec<(String, String)>)
    ensures
        label_views(l@) == seq![(key@, value@)],
{
    let mut l: Vec<(String, String)> = Vec::new();
    l.push((String::from_str(key), value));
    assert(label_views(l@) =~= seq![(key@, value@)]);
    l
}

fn no_labels() -> (l: Vec<(String, String)>)
    ensures
        label_views(l@) == Seq::<(Seq<char>, Seq<char>)>::empty(),
{
    let l: Vec<(String, String)> = Vec::new();
    assert(label_views(l@) =~= Seq::<(Seq<char>, Seq<char>)>::empty());
    l
}

/// The name of core `i`'s usage: `cpu.core.<i>.usage_percent`.
pub open spec fn cpu_metric_name(i: nat) -> Seq<char> {
    "cpu.core."@ + decimal(i) + ".usage_percent"@
}

/// One gauge per core, in core order: named by `cpu_metric_name`, labelled
/// `core` with the core's number.
pub fn cpu_metrics<V>(usage: Vec<V>, now_ms: i64) -> (out: Vec<SystemMetric<V>>)
    ensures
        out@.len() == usage@.len(),
        forall|k: int|
            0 <= k < out@.len() ==> is_metric(
                #[trigger] out@[k],
                cpu_metric_name(k as nat),
                seq![("core"@, decimal(k as nat))],
                MetricKind::Gauge,
                usage@[k],
                now_ms,
            ),
{
    let ghost orig = usage@;
    let total = usage.len();
    let mut usage = usage;
    let mut out: Vec<SystemMetric<V>> = Vec::new();
    let mut i: usize = 0;
    while usage.len() > 0
        invariant
            total == orig.len(),
            i + usage@.len() == orig.len(),
            usage@ == orig.subrange(i as int, orig.len() as int),
            out@.len() == i,
            forall|k: int|
                0 <= k < i ==> is_metric(
                    #[trigger] out@[k],
                    cpu_metric_name(k as nat),
                    seq![("core"@, decimal(k as nat))],
                    MetricKind::Gauge,
                    orig[k],
                    now_ms,
                ),
        decreases usage@.len(),
    {
        let v = usage.remove(0);
        assert(v == orig[i as int]);
        let mut name = String::new();
        push_str(&mut name, "cpu.core.");
        push_decimal(&mut name, i as u64);
        push_str(&mut name, ".usage_percent");
        assert(name@ =~= cpu_metric_name(i as nat));
        let labels = one_label("core", u64_to_decimal(i as u64));
        let m = system_metric(name.as_str(), MetricKind::Gauge, v, labels, now_ms);
        out.push(m);
        i = i + 1;
        assert(usage@ =~= orig.subrange(i as int, orig.len() as int));
    }
    out
}

/// The memory gauges, in this order: total, used and available memory,
/// total and used swap (`mem.total_bytes`, `mem.used_bytes`,
/// `mem.available_bytes`, `mem.swap_total_bytes`, `mem.swap_used_bytes`),
/// without labels.
pub fn memory_metrics<V>(total: V, used: V, available: V, swap_total: V, swap_used: V, now_ms: i64) -> (out: Vec<
    SystemMetric<V>,
>)
    ensures
        out@.len() == 5,
        is_metric(out@[0], "mem.total_bytes"@, seq![], MetricKind::Gauge, total, now_ms),
        is_metric(out@[1], "mem.used_bytes"@, seq![], MetricKind::Gauge, used, now_ms),
        is_metric(out@[2], "mem.available_bytes"@, seq![], MetricKind::Gauge, available, now_ms),
        is_metric(out@[3], "mem.swap_total_bytes"@, seq![], MetricKind::Gauge, swap_total, now_ms),
        is_metric(out@[4], "mem.swap_used_bytes"@, seq![], MetricKind::Gauge, swap_used, now_ms),
{
    let mut out: Vec<SystemMetric<V>> = Vec::new();
    out.push(system_metric("mem.total_bytes", MetricKind::Gauge, total, no_labels(), now_ms));
    out.push(system_metric("mem.used_bytes", MetricKind::Gauge, used, no_labels(), now_ms));
    out.push(system_metric("mem.available_bytes", MetricKind::Gauge, available, no_labels(), now_ms));
    out.push(system_metric("mem.swap_total_bytes", MetricKind::Gauge, swap_total, no_labels(), now_ms));
    out.push(system_metric("mem.swap_used_bytes", MetricKind::Gauge, swap_used, no_labels(), now_ms));
    out
}

/// The device a disk is reported under (see `disk_device_spec`).
pub fn disk_device(name: &str, mount_point: &str) -> (dev: String)
    ensures
        dev@ == disk_device_spec(name@, mount_point@),
{
    if name.unicode_len() > 0 {
        return String::from_str(name);
    }
    let cs = chars_of(mount_point);
    let mut mapped: Vec<char> = Vec::new();
    let mut i: usize = 0;
    while i < cs.len()
        invariant
            i <= cs@.len(),
            cs@ == mount_point@,
            mapped@ == cs@.subrange(0, i as int).map_values(|c: char| if c == '\\' || c == '/' { '_' } else { c }),
        decreases cs@.len() - i,
    {
        let c = cs[i];
        mapped.push(if c == '\\' || c == '/' { '_' } else { c });
        i = i + 1;
        assert(mapped@ =~= cs@.subrange(0, i as int).map_values(
            |c: char| if c == '\\' || c == '/' { '_' } else { c },
        ));
    }
    assert(cs@.subrange(0, i as int) =~= cs@);
    string_from_chars(&mapped)
}

/// The device of a disk sample.
pub open spec fn sample_device<V>(d: DiskSample<V>) -> Seq<char> {
    disk_device_spec(d.name@, d.mount_point@)
}

/// Two gauges per disk, in disk order: `disk.<device>.total_bytes` and
/// `disk.<device>.available_bytes`, both labelled `device` with the device.
pub fn disk_metrics<V>(disks: Vec<DiskSample<V>>, now_ms: i64) -> (out: Vec<SystemMetric<V>>)
    ensures
        out@.len() == 2 * disks@.len(),
        forall|k: int|
            0 <= k < disks@.len() ==> {
                let dev = sample_device(#[trigger] disks@[k]);
                &&& is_metric(
                    out@[2 * k],
                    "disk."@ + dev + ".total_bytes"@,
                    seq![("device"@, dev)],
                    MetricKind::Gauge,
                    disks@[k].total,
                    now_ms,
                )
                &&& is_metric(
                    out@[2 * k + 1],
                    "disk."@ + dev + ".available_bytes"@,
                    seq![("device"@, dev)],
                    MetricKind::Gauge,
                    disks@[k].available,
                    now_ms,
                )
            },
{
    let ghost orig = disks@;
    let total = disks.len();
    let mut disks = disks;
    let mut out: Vec<SystemMetric<V>> = Vec::new();
    let mut i: usize = 0;
    while disks.len() > 0
        invariant
            total == orig.len(),
            i + disks@.len() == orig.len(),
            disks@ == orig.subrange(i as int, orig.len() as int),
            out@.len() == 2 * i,
            forall|k: int|
                0 <= k < i ==> {
                    let dev = sample_device(#[trigger] orig[k]);
                    &&& is_metric(
                        out@[2 * k],
                        "disk."@ + dev + ".total_bytes"@,
                        seq![("device"@, dev)],
                        MetricKind::Gauge,
                        orig[k].total,
                        now_ms,
                    )
                    &&& is_metric(
                        out@[2 * k + 1],
                        "disk."@ + dev + ".available_bytes"@,
                        seq![("device"@, dev)],
                        MetricKind::Gauge,
                        orig[k].available,
                        now_ms,
                    )
                },
        decreases disks@.len(),
    {
        let d = disks.remove(0);
        assert(d == orig[i as int]);
        let ghost before = out@;
        let dev = disk_device(d.name.as_str(), d.mount_point.as_str());
        let mut total_name = String::new();
        push_str(&mut total_name, "disk.");
        push_str(&mut total_name, dev.as_str());
        push_str(&mut total_name, ".total_bytes");
        let mut avail_name = String::new();
        push_str(&mut avail_name, "disk.");
        push_str(&mut avail_name, dev.as_str());
        push_str(&mut avail_name, ".available_bytes");
        let total_labels = one_label("device", dev.clone());
        let avail_labels = one_label("device", dev);
        out.push(system_metric(total_name.as_str(), MetricKind::Gauge, d.total, total_labels, now_ms));
        out.push(system_metric(avail_name.as_str(), MetricKind::Gauge, d.available, avail_labels, now_ms));
        proof {
            assert forall|k: int| 0 <= k < i + 1 implies {
                let dev = sample_device(#[trigger] orig[k]);
                &&& is_metric(
                    out@[2 * k],
                    "disk."@ + dev + ".total_bytes"@,
                    seq![("device"@, dev)],
                    MetricKind::Gauge,
                    orig[k].total,
                    now_ms,
                )
                &&& is_metric(
                    out@[2 * k + 1],
                    "disk."@ + dev + ".available_bytes"@,
                    seq![("device"@, dev)],
                    MetricKind::Gauge,
                    orig[k].available,
                    now_ms,
                )
            } by {
                if k < i {
                    assert(out@[2 * k] == before[2 * k]);
                    assert(out@[2 * k + 1] == before[2 * k + 1]);
                }
            }
        }
        i = i + 1;
        assert(disks@ =~= orig.subrange(i as int, orig.len() as int));
    }
    out
}

/// Two counters per interface, in interface order:
/// `net.<interface>.bytes_recv` and `net.<interface>.bytes_sent`, both
/// labelled `interface` with the interface's name.
pub fn network_metrics<V>(networks: Vec<NetworkSample<V>>, now_ms: i64) -> (out: Vec<SystemMetric<V>>)
    ensures
        out@.len() == 2 * networks@.len(),
        forall|k: int|
            0 <= k < networks@.len() ==> {
                let iface = (#[trigger] networks@[k]).interface@;
                &&& is_metric(
                    out@[2 * k],
                    "net."@ + iface + ".bytes_recv"@,
                    seq![("interface"@, iface)],
                    MetricKind::Counter,
                    networks@[k].received,
                    now_ms,
                )
                &&& is_metric(
                    out@[2 * k + 1],
                    "net."@ + iface + ".bytes_sent"@,
                    seq![("interface"@, iface)],
                    MetricKind::Counter,
                    networks@[k].transmitted,
                    now_ms,
                )
            },
{
    let ghost orig = networks@;
    let total = networks.len();
    let mut networks = networks;
    let mut out: Vec<SystemMetric<V>> = Vec::new();
    let mut i: usize = 0;
    while networks.len() > 0
        invariant
            total == orig.len(),
            i + networks@.len() == orig.len(),
            networks@ == orig.subrange(i as int, orig.len() as int),
            out@.len() == 2 * i,
            forall|k: int|
                0 <= k < i ==> {
                    let iface = (#[trigger] orig[k]).interface@;
                    &&& is_metric(
                        out@[2 * k],
                        "net."@ + iface + ".bytes_recv"@,
                        seq![("interface"@, iface)],
                        MetricKind::Counter,
                        orig[k].received,
                        now_ms,
                    )
                    &&& is_metric(
                        out@[2 * k + 1],
                        "net."@ + iface + ".bytes_sent"@,
                        seq![("interface"@, iface)],
                        MetricKind::Counter,
                        orig[k].transmitted,
                        now_ms,
                    )
                },
        decreases networks@.len(),
    {
        let n = networks.remove(0);
        assert(n == orig[i as int]);
        let ghost before = out@;
        let mut recv_name = String::new();
        push_str(&mut recv_name, "net.");
        push_str(&mut recv_name, n.interface.as_str());
        push_str(&mut recv_name, ".bytes_recv");
        let mut sent_name = String::new();
        push_str(&mut sent_name, "net.");
        push_str(&mut sent_name, n.interface.as_str());
        push_str(&mut sent_name, ".bytes_sent");
        let recv_labels = one_label("interface", n.interface.clone());
        let sent_labels = one_label("interface", n.interface);
        out.push(system_metric(recv_name.as_str(), MetricKind::Counter, n.received, recv_labels, now_ms));
        out.push(system_metric(sent_name.as_str(), MetricKind::Counter, n.transmitted, sent_labels, now_ms));
        proof {
            assert forall|k: int| 0 <= k < i + 1 implies {
                let iface = (#[trigger] orig[k]).interface@;
                &&& is_metric(
                    out@[2 * k],
                    "net."@ + iface + ".bytes_recv"@,
                    seq![("interface"@, iface)],
                    MetricKind::Counter,
                    orig[k].received,
                    now_ms,
                )
                &&& is_metric(
                    out@[2 * k + 1],
                    "net."@ + iface + ".bytes_sent"@,
                    seq![("interface"@, iface)],
                    MetricKind::Counter,
                    orig[k].transmitted,
                    now_ms,
                )
            } by {
                if k < i {
                    assert(out@[2 * k] == before[2 * k]);
                    assert(out@[2 * k + 1] == before[2 * k + 1]);
                }
            }
        }
        i = i + 1;
        assert(networks@ =~= orig.subrange(i as int, orig.len() as int));
    }
    out
}


/// All system metrics of a snapshot, in this order: the cores' usage, the
/// five memory gauges, two gauges per disk, two counters per network
/// interface, then `uptime_seconds` and `process.count_total` (gauges
/// without labels).
pub fn collect<V>(snapshot: SystemSnapshot<V>, now_ms: i64) -> (out: Vec<SystemMetric<V>>)
    ensures
        ({
            let c = snapshot.cpu_usage@.len() as int;
            let d = snapshot.disks@.len() as int;
            let n = snapshot.networks@.len() as int;
            let disks_at = c + 5;
            let nets_at = disks_at + 2 * d;
            let tail_at = nets_at + 2 * n;
            &&& out@.len() == tail_at + 2
            &&& forall|k: int|
                0 <= k < c ==> is_metric(
                    #[trigger] out@[k],
                    cpu_metric_name(k as nat),
                    seq![("core"@, decimal(k as nat))],
                    MetricKind::Gauge,
                    snapshot.cpu_usage@[k],
                    now_ms,
                )
            &&& is_metric(out@[c], "mem.total_bytes"@, seq![], MetricKind::Gauge, snapshot.total_memory, now_ms)
            &&& is_metric(out@[c + 1], "mem.used_bytes"@, seq![], MetricKind::Gauge, snapshot.used_memory, now_ms)
            &&& is_metric(
                out@[c + 2],
                "mem.available_bytes"@,
                seq![],
                MetricKind::Gauge,
                snapshot.available_memory,
                now_ms,
            )
            &&& is_metric(out@[c + 3], "mem.swap_total_bytes"@, seq![], MetricKind::Gauge, snapshot.total_swap, now_ms)
            &&& is_metric(out@[c + 4], "mem.swap_used_bytes"@, seq![], MetricKind::Gauge, snapshot.used_swap, now_ms)
            &&& forall|k: int|
                0 <= k < d ==> {
                    let dev = sample_device(#[trigger] snapshot.disks@[k]);
                    &&& is_metric(
                        out@[disks_at + 2 * k],
                        "disk."@ + dev + ".total_bytes"@,
                        seq![("device"@, dev)],
                        MetricKind::Gauge,
                        snapshot.disks@[k].total,
                        now_ms,
                    )
                    &&& is_metric(
                        out@[disks_at + 2 * k + 1],
                        "disk."@ + dev + ".available_bytes"@,
                        seq![("device"@, dev)],
                        MetricKind::Gauge,
                        snapshot.disks@[k].available,
                        now_ms,
                    )
                }
            &&& forall|k: int|
                0 <= k < n ==> {
                    let iface = (#[trigger] snapshot.networks@[k]).interface@;
                    &&& is_metric(
                        out@[nets_at + 2 * k],
                        "net."@ + iface + ".bytes_recv"@,
                        seq![("interface"@, iface)],
                        MetricKind::Counter,
                        snapshot.networks@[k].received,
                        now_ms,
                    )
                    &&& is_metric(
                        out@[nets_at + 2 * k + 1],
                        "net."@ + iface + ".bytes_sent"@,
                        seq![("interface"@, iface)],
                        MetricKind::Counter,
                        snapshot.networks@[k].transmitted,
                        now_ms,
                    )
                }
            &&& is_metric(out@[tail_at], "uptime_seconds"@, seq![], MetricKind::Gauge, snapshot.uptime, now_ms)
            &&& is_metric(
                out@[tail_at + 1],
                "process.count_total"@,
                seq![],
                MetricKind::Gauge,
                snapshot.process_count,
                now_ms,
            )
        }),
{
    let ghost snap = snapshot;
    let SystemSnapshot {
        cpu_usage,
        total_memory,
        used_memory,
        available_memory,
        total_swap,
        used_swap,
        disks,
        networks,
        uptime,
        process_count,
    } = snapshot;
    let cpu = cpu_metrics(cpu_usage, now_ms);
    let mem = memory_metrics(total_memory, used_memory, available_memory, total_swap, used_swap, now_ms);
    let disk = disk_metrics(disks, now_ms);
    let net = network_metrics(networks, now_ms);
    let mut tail: Vec<SystemMetric<V>> = Vec::new();
    tail.push(system_metric("uptime_seconds", MetricKind::Gauge, uptime, no_labels(), now_ms));
    tail.push(system_metric("process.count_total", MetricKind::Gauge, process_count, no_labels(), now_ms));
    let ghost (cs, ms, ds, ns, ts) = (cpu@, mem@, disk@, net@, tail@);
    let mut out = cpu;
    let mut mem = mem;
    let mut disk = disk;
    let mut net = net;
    out.append(&mut mem);
    out.append(&mut disk);
    out.append(&mut net);
    out.append(&mut tail);
    proof {
        let all = cs + ms + ds + ns + ts;
        assert(out@ =~= all);
        let c = cs.len() as int;
        let disks_at = c + 5;
        let nets_at = disks_at + ds.len();
        let tail_at = nets_at + ns.len();
        assert forall|k: int| 0 <= k < c implies #[trigger] out@[k] == cs[k] by {}
        assert forall|k: int| 0 <= k < 5 implies out@[c + k] == ms[k] by {}
        assert forall|k: int| 0 <= k < ds.len() implies out@[disks_at + k] == ds[k] by {}
        assert forall|k: int| 0 <= k < ns.len() implies out@[nets_at + k] == ns[k] by {}
        assert(out@[tail_at] == ts[0]);
        assert(out@[tail_at + 1] == ts[1]);
        assert(is_metric(out@[c], "mem.total_bytes"@, seq![], MetricKind::Gauge, snap.total_memory, now_ms));
        assert(is_metric(out@[c + 1], "mem.used_bytes"@, seq![], MetricKind::Gauge, snap.used_memory, now_ms));
        assert(out@[c + 2] == ms[2]);
        assert(out@[c + 3] == ms[3]);
        assert(out@[c + 4] == ms[4]);
        assert forall|k: int| 0 <= k < snap.disks@.len() implies {
            let dev = sample_device(#[trigger] snap.disks@[k]);
            &&& is_metric(
                out@[disks_at + 2 * k],
                "disk."@ + dev + ".total_bytes"@,
                seq![("device"@, dev)],
                MetricKind::Gauge,
                snap.disks@[k].total,
                now_ms,
            )
            &&& is_metric(
                out@[disks_at + 2 * k + 1],
                "disk."@ + dev + ".available_bytes"@,
                seq![("device"@, dev)],
                MetricKind::Gauge,
                snap.disks@[k].available,
                now_ms,
            )
        } by {
            assert(out@[disks_at + 2 * k] == ds[2 * k]);
            assert(out@[disks_at + 2 * k + 1] == ds[2 * k + 1]);
        }
        assert forall|k: int| 0 <= k < snap.networks@.len() implies {
            let iface = (#[trigger] snap.networks@[k]).interface@;
            &&& is_metric(
                out@[nets_at + 2 * k],
                "net."@ + iface + ".bytes_recv"@,
                seq![("interface"@, iface)],
                MetricKind::Counter,
                snap.networks@[k].received,
                now_ms,
            )
            &&& is_metric(
                out@[nets_at + 2 * k + 1],
                "net."@ + iface + ".bytes_sent"@,
                seq![("interface"@, iface)],
                MetricKind::Counter,
                snap.networks@[k].transmitted,
                now_ms,
            )
        } by {
            assert(out@[nets_at + 2 * k] == ns[2 * k]);
            assert(out@[nets_at + 2 * k + 1] == ns[2 * k + 1]);
        }
    }
    out
}

} // verus!
