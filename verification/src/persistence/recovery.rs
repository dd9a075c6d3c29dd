use vstd::prelude::*;

use super::state::AgentPersistedState;
use super::volume::VolumeCheck;
use crate::buffer::record::Record;
use crate::buffer::wal::{unacked_of, WalIndex};

verus! {

/// What starting again found out.
#[derive(Debug)]
pub struct RecoveryResult {
    pub state: AgentPersistedState,
    pub resume_seq: u64,
    pub pending_batches: usize,
    pub was_clean_shutdown: bool,
    pub first_boot: bool,
}

/// The state to continue with, given the state loaded from the volume (if
/// any): a loaded state counts one more boot; without one a new state for
/// `agent_id` and `server_url` is created and counts its first boot. The
/// flag tells whether this is the first boot.
pub fn recover_state(loaded: Option<AgentPersistedState>, agent_id: &str, server_url: &str) -> (r: (
    AgentPersistedState,
    bool,
))
    requires
        loaded matches Some(s) ==> s.boot_count < u64::MAX,
    ensures
        r.1 == (loaded is None),
        !r.0.clean_shutdown,
        match loaded {
            Some(s) => {
                &&& r.0.boot_count == s.boot_count + 1
                &&& r.0.agent_id == s.agent_id
                &&& r.0.seq_counter == s.seq_counter
                &&& r.0.last_connection_ms == s.last_connection_ms
                &&& r.0.last_shutdown_ms == s.last_shutdown_ms
                &&& r.0.key_id == s.key_id
                &&& r.0.server_url == s.server_url
            },
            None => {
                &&& r.0.boot_count == 1
                &&& r.0.agent_id@ == agent_id@
                &&& r.0.server_url@ == server_url@
                &&& r.0.seq_counter == 0
                &&& r.0.last_connection_ms == 0
                &&& r.0.last_shutdown_ms == 0
                &&& r.0.key_id@ == "default"@
            },
        },
{
    match loaded {
        Some(mut state) => {
            state.record_boot();
            (state, false)
        },
        None => {
            let mut state = AgentPersistedState::new(String::from_str(agent_id), String::from_str(server_url));
            state.record_boot();
            (state, true)
        },
    }
}

/// Puts the result of starting together: the state resumes at `resume_seq`;
/// the previous run counts as cleanly shut down if the recovered state says
/// so or this is the first boot.
pub fn finish_recovery(
    state: AgentPersistedState,
    first_boot: bool,
    resume_seq: u64,
    pending_batches: usize,
) -> (r: RecoveryResult)
    ensures
        r.was_clean_shutdown == (state.clean_shutdown || first_boot),
        r.first_boot == first_boot,
        r.resume_seq == resume_seq,
        r.pending_batches == pending_batches,
        r.state.seq_counter == resume_seq,
        r.state.agent_id == state.agent_id,
        r.state.boot_count == state.boot_count,
        r.state.clean_shutdown == state.clean_shutdown,
        r.state.server_url == state.server_url,
        r.state.key_id == state.key_id,
{
    let was_clean = state.clean_shutdown || first_boot;
    let mut state = state;
    state.update_seq(resume_seq);
    RecoveryResult { state, resume_seq, pending_batches, was_clean_shutdown: was_clean, first_boot }
}

/// What to do with a freshly checked volume: use it as it is, or
/// initialize it (and check it again) when its root is missing or cannot
/// be written.
pub enum VolumeStep {
    Ready(VolumeCheck),
    Initialize,
}

/// Decides, from a check of the volume, whether it must be initialized
/// first: exactly when its root is missing or not writable.
pub fn check_volume(check: VolumeCheck) -> (r: VolumeStep)
    ensures
        (!check.root_exists || !check.root_writable) <==> r is Initialize,
        r matches VolumeStep::Ready(c) ==> c == check,
{
    if !check.root_exists || !check.root_writable {
        VolumeStep::Initialize
    } else {
        VolumeStep::Ready(check)
    }
}

/// Where the log resumes: the id the next record gets, and how many records
/// read back from the log's segments are still unacknowledged.
pub fn recover_wal(wal: &WalIndex, records: Vec<Record>) -> (r: (u64, usize))
    ensures
        r.0 == wal@.next_id,
        r.1 == unacked_of(records@.map_values(|x: Record| x@), wal@.acked).len(),
{
    let resume_seq = wal.next_id();
    let unacked = wal.unacked(records);
    proof {
        assert(unacked@.map_values(|p: (u64, Vec<u8>)| (p.0, p.1@)).len() == unacked@.len());
    }
    (resume_seq, unacked.len())
}

/// Recovery as a whole, from the state loaded from the volume (if any), the
/// log's bookkeeping and the records read back from its segments. The
/// clean-shutdown flag is read only after the boot has been recorded, and
/// recording the boot clears it; so a loaded state never counts as cleanly
/// shut down, not even one saved by a clean shutdown, and the previous run
/// counts as clean exactly on the first boot.
pub fn full_recovery(
    loaded: Option<AgentPersistedState>,
    agent_id: &str,
    server_url: &str,
    wal: &WalIndex,
    records: Vec<Record>,
) -> (r: RecoveryResult)
    requires
        loaded matches Some(s) ==> s.boot_count < u64::MAX,
    ensures
        r.first_boot == (loaded is None),
        r.was_clean_shutdown == r.first_boot,
        r.resume_seq == wal@.next_id,
        r.pending_batches == unacked_of(records@.map_values(|x: Record| x@), wal@.acked).len(),
        r.state.seq_counter == wal@.next_id,
        !r.state.clean_shutdown,
        match loaded {
            Some(s) => {
                &&& r.state.boot_count == s.boot_count + 1
                &&& r.state.agent_id == s.agent_id
                &&& r.state.server_url == s.server_url
                &&& r.state.key_id == s.key_id
            },
            None => {
                &&& r.state.boot_count == 1
                &&& r.state.agent_id@ == agent_id@
                &&& r.state.server_url@ == server_url@
                &&& r.state.key_id@ == "default"@
            },
        },
{
    let (state, first_boot) = recover_state(loaded, agent_id, server_url);
    let (resume_seq, pending) = recover_wal(wal, records);
    finish_recovery(state, first_boot, resume_seq, pending)
}

} // verus!
