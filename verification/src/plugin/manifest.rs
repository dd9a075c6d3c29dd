use std::collections::HashMap;
use vstd::prelude::*;

verus! {

/// What a plugin may ask the host for.
#[derive(Debug, Clone, Copy, PartialEq, Eq, Structural)]
pub enum Capability {
    HttpGet,
    ReadFile,
    MetricBuilder,
}

/// Limits on one plugin run.
#[derive(Debug, Clone, Copy, PartialEq, Eq, Structural)]
pub struct ResourceLimits {
    pub max_memory_mb: u64,
    pub timeout_ms: u64,
    pub max_metrics: u64,
}

/// Default memory limit: 64 MB.
pub fn default_memory_mb() -> (n: u64)
    ensures
        n == 64,
{
    64
}

/// Default time limit: 5000 ms.
pub fn default_timeout_ms() -> (n: u64)
    ensures
        n == 5000,
{
    5000
}

/// Default number of metrics a run may emit: 1000.
pub fn default_max_metrics() -> (n: u64)
    ensures
        n == 1000,
{
    1000
}

impl Default for ResourceLimits {
    /// 64 MB, 5000 ms, 1000 metrics.
    fn default() -> (l: ResourceLimits)
        ensures
            l.max_memory_mb == 64,
            l.timeout_ms == 5000,
            l.max_metrics == 1000,
    {
        ResourceLimits {
            max_memory_mb: default_memory_mb(),
            timeout_ms: default_timeout_ms(),
            max_metrics: default_max_metrics(),
        }
    }
}

/// A plugin's manifest.
#[derive(Debug, Clone, PartialEq)]
pub struct PluginManifest {
    pub name: String,
    pub version: String,
    pub entry_fn: String,
    pub capabilities: Vec<Capability>,
    pub resource_limits: ResourceLimits,
    pub metadata: HashMap<String, String>,
}

impl PluginManifest {
    /// Whether the manifest grants `cap`.
    pub fn has_capability(&self, cap: &Capability) -> (r: bool)
        ensures
            r == self.capabilities@.contains(*cap),
    {
        let mut i: usize = 0;
        while i < self.capabilities.len()
            invariant
                i <= self.capabilities@.len(),
                forall|k: int| 0 <= k < i ==> self.capabilities@[k] != *cap,
            decreases self.capabilities@.len() - i,
        {
            if self.capabilities[i] == *cap {
                return true;
            }
            i = i + 1;
        }
        false
    }
}

} // verus!
