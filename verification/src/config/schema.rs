use vstd::prelude::*;

verus! {

/// The agent's configuration file.
#[derive(Debug, Clone, PartialEq)]
pub struct AgentConfig {
    pub agent_id: Option<String>,
    pub server: String,
    pub collect: CollectConfig,
    pub plugins_dir: String,
    pub buffer: BufferConfig,
    pub security: SecurityConfig,
}

/// How often to collect, and which metric families.
#[derive(Debug, Clone, PartialEq)]
pub struct CollectConfig {
    pub interval_seconds: u64,
    pub metrics: MetricsToggle,
}

/// Which built-in metric families are collected.
#[derive(Debug, Clone, Copy, PartialEq, Eq, Structural)]
pub struct MetricsToggle {
    pub cpu: bool,
    pub mem: bool,
    pub disk: bool,
}

/// Where the write-ahead log lives and how it is sized.
#[derive(Debug, Clone, PartialEq)]
pub struct BufferConfig {
    pub wal_dir: String,
    pub segment_size_mb: u64,
    pub max_retention_days: u64,
}

/// Which key store to use and how often to check for key rotation.
#[derive(Debug, Clone, PartialEq)]
pub struct SecurityConfig {
    pub key_store: String,
    pub rotation_check_interval_hours: u64,
}

/// Default plugin directory: `/var/lib/sentinel/plugins`.
pub fn default_plugins_dir() -> (s: String)
    ensures
        s@ == "/var/lib/sentinel/plugins"@,
{
    String::from_str("/var/lib/sentinel/plugins")
}

/// Default segment size: 16 MB.
pub fn default_segment_size() -> (n: u64)
    ensures
        n == 16,
{
    16
}

/// Default retention: 7 days.
pub fn default_retention_days() -> (n: u64)
    ensures
        n == 7,
{
    7
}

/// Default key store: `auto`.
pub fn default_key_store() -> (s: String)
    ensures
        s@ == "auto"@,
{
    String::from_str("auto")
}

/// Default rotation check interval: 24 hours.
pub fn default_rotation_hours() -> (n: u64)
    ensures
        n == 24,
{
    24
}

/// Metric families are on unless turned off.
pub fn yes() -> (b: bool)
    ensures
        b,
{
    true
}

impl MetricsToggle {
    /// Every family on.
    pub fn all_on() -> (t: MetricsToggle)
        ensures
            t.cpu && t.mem && t.disk,
    {
        MetricsToggle { cpu: yes(), mem: yes(), disk: yes() }
    }
}

} // verus!
