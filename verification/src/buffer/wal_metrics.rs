use vstd::prelude::*;

use super::compaction::{count_log_files, log_bytes, log_count, total_log_size, FileSize};

verus! {

/// Figures about a log directory.
pub struct WalStats {
    pub total_size_bytes: u64,
    pub segment_count: u64,
    pub unacked_count: u64,
}

/// The total size and number of the segment files among `entries` (the
/// entries of the log directory, none when it does not exist).
pub fn compute_stats(entries: &Vec<FileSize>, unacked_count: u64) -> (s: WalStats)
    requires
        log_bytes(entries@) <= u64::MAX,
        entries@.len() <= u64::MAX,
    ensures
        s.total_size_bytes == log_bytes(entries@),
        s.segment_count == log_count(entries@),
        s.unacked_count == unacked_count,
{
    WalStats {
        total_size_bytes: total_log_size(entries),
        segment_count: count_log_files(entries),
        unacked_count,
    }
}

} // verus!
