use vstd::prelude::*;

use crate::platform::now_ms;

verus! {

/// The agent's state as saved on its volume.
#[derive(Debug, Clone)]
pub struct AgentPersistedState {
    pub agent_id: String,
    pub seq_counter: u64,
    pub boot_count: u64,
    pub last_connection_ms: i64,
    pub last_shutdown_ms: i64,
    pub key_id: String,
    pub server_url: String,
    pub clean_shutdown: bool,
}

impl AgentPersistedState {
    /// The state of an agent that has never booted: counters zero, key id
    /// `default`, and marked as cleanly shut down.
    pub fn new(agent_id: String, server_url: String) -> (s: AgentPersistedState)
        ensures
            s.agent_id@ == agent_id@,
            s.server_url@ == server_url@,
            s.seq_counter == 0,
            s.boot_count == 0,
            s.last_connection_ms == 0,
            s.last_shutdown_ms == 0,
            s.key_id@ == "default"@,
            s.clean_shutdown,
    {
        AgentPersistedState {
            agent_id,
            seq_counter: 0,
            boot_count: 0,
            last_connection_ms: 0,
            last_shutdown_ms: 0,
            key_id: String::from_str("default"),
            server_url,
            clean_shutdown: true,
        }
    }

    /// Counts a boot and marks the run as not (yet) cleanly shut down.
    pub fn record_boot(&mut self)
        requires
            old(self).boot_count < u64::MAX,
        ensures
            final(self).boot_count == old(self).boot_count + 1,
            !final(self).clean_shutdown,
            final(self).agent_id == old(self).agent_id,
            final(self).seq_counter == old(self).seq_counter,
            final(self).last_connection_ms == old(self).last_connection_ms,
            final(self).last_shutdown_ms == old(self).last_shutdown_ms,
            final(self).key_id == old(self).key_id,
            final(self).server_url == old(self).server_url,
    {
        self.boot_count = self.boot_count + 1;
        self.clean_shutdown = false;
    }

    /// Stamps the shutdown with the time `now_ms` and marks it clean; nothing
    /// else changes.
    pub fn record_shutdown_at(&mut self, now_ms: i64)
        ensures
            *final(self) == (AgentPersistedState { last_shutdown_ms: now_ms, clean_shutdown: true, ..*old(self) }),
    {
        self.last_shutdown_ms = now_ms;
        self.clean_shutdown = true;
    }

    /// Stamps the shutdown with the current time read from the clock (see
    /// `record_shutdown_at`) and marks it clean; nothing else changes.
    pub fn record_shutdown(&mut self)
        ensures
            final(self).clean_shutdown,
            final(self).agent_id == old(self).agent_id,
            final(self).seq_counter == old(self).seq_counter,
            final(self).boot_count == old(self).boot_count,
            final(self).last_connection_ms == old(self).last_connection_ms,
            final(self).key_id == old(self).key_id,
            final(self).server_url == old(self).server_url,
    {
        let stamp = now_ms();
        self.record_shutdown_at(stamp);
    }

    /// Stamps the last connection with the time `now_ms`; nothing else changes.
    pub fn record_connection_at(&mut self, now_ms: i64)
        ensures
            *final(self) == (AgentPersistedState { last_connection_ms: now_ms, ..*old(self) }),
    {
        self.last_connection_ms = now_ms;
    }

    /// Stamps the last connection with the current time read from the clock
    /// (see `record_connection_at`); nothing else changes.
    pub fn record_connection(&mut self)
        ensures
            final(self).agent_id == old(self).agent_id,
            final(self).seq_counter == old(self).seq_counter,
            final(self).boot_count == old(self).boot_count,
            final(self).last_shutdown_ms == old(self).last_shutdown_ms,
            final(self).key_id == old(self).key_id,
            final(self).server_url == old(self).server_url,
            final(self).clean_shutdown == old(self).clean_shutdown,
    {
        let stamp = now_ms();
        self.record_connection_at(stamp);
    }

    /// Sets the sequence counter.
    pub fn update_seq(&mut self, seq: u64)
        ensures
            final(self).seq_counter == seq,
            final(self).agent_id == old(self).agent_id,
            final(self).boot_count == old(self).boot_count,
            final(self).last_connection_ms == old(self).last_connection_ms,
            final(self).last_shutdown_ms == old(self).last_shutdown_ms,
            final(self).key_id == old(self).key_id,
            final(self).server_url == old(self).server_url,
            final(self).clean_shutdown == old(self).clean_shutdown,
    {
        self.seq_counter = seq;
    }
}

} // verus!
