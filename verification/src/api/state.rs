use std::sync::atomic::{AtomicBool, AtomicU64, Ordering};
use std::sync::Arc;
use vstd::prelude::*;

verus! {

/// Status figures shared by every clone of an `AgentState` (and so by every
/// task holding one): queue length, log size, time of the last send, sent and
/// failed batch counts, readiness. The values live in atomics that other
/// clones may change at any moment, so what a read returns is not stated;
/// the operations are those of the atomics, with relaxed ordering.
#[derive(Debug, Clone)]
pub struct AgentState {
    inner: Arc<Inner>,
}

#[derive(Debug)]
struct Inner {
    queue_length: AtomicU64,
    wal_size_bytes: AtomicU64,
    last_send_epoch: AtomicU64,
    batches_sent: AtomicU64,
    batches_failed: AtomicU64,
    ready: AtomicBool,
}

impl AgentState {
    /// All figures zero, not ready.
    pub fn new() -> (s: AgentState) {
        AgentState {
            inner: Arc::new(
                Inner {
                    queue_length: AtomicU64::new(0),
                    wal_size_bytes: AtomicU64::new(0),
                    last_send_epoch: AtomicU64::new(0),
                    batches_sent: AtomicU64::new(0),
                    batches_failed: AtomicU64::new(0),
                    ready: AtomicBool::new(false),
                },
            ),
        }
    }

    pub fn set_queue_length(&self, v: u64) {
        self.inner.queue_length.store(v, Ordering::Relaxed);
    }

    pub fn queue_length(&self) -> u64 {
        self.inner.queue_length.load(Ordering::Relaxed)
    }

    pub fn set_wal_size_bytes(&self, v: u64) {
        self.inner.wal_size_bytes.store(v, Ordering::Relaxed);
    }

    pub fn wal_size_bytes(&self) -> u64 {
        self.inner.wal_size_bytes.load(Ordering::Relaxed)
    }

    pub fn set_last_send_epoch(&self, v: u64) {
        self.inner.last_send_epoch.store(v, Ordering::Relaxed);
    }

    pub fn last_send_epoch(&self) -> u64 {
        self.inner.last_send_epoch.load(Ordering::Relaxed)
    }

    /// Adds one to the sent count (wrapping, as `fetch_add` does).
    pub fn increment_batches_sent(&self) {
        self.inner.batches_sent.fetch_add(1, Ordering::Relaxed);
    }

    pub fn batches_sent(&self) -> u64 {
        self.inner.batches_sent.load(Ordering::Relaxed)
    }

    /// Adds one to the failed count (wrapping, as `fetch_add` does).
    pub fn increment_batches_failed(&self) {
        self.inner.batches_failed.fetch_add(1, Ordering::Relaxed);
    }

    pub fn batches_failed(&self) -> u64 {
        self.inner.batches_failed.load(Ordering::Relaxed)
    }

    pub fn set_ready(&self, v: bool) {
        self.inner.ready.store(v, Ordering::Relaxed);
    }

    pub fn is_ready(&self) -> bool {
        self.inner.ready.load(Ordering::Relaxed)
    }
}

impl Default for AgentState {
    fn default() -> (s: AgentState) {
        AgentState::new()
    }
}

} // verus!
