use vstd::prelude::*;

use crate::text::{decimal, push_decimal, push_str};

verus! {

/// The Prometheus text exposition of the agent's status figures: for each of
/// queue length, log size, last send time (gauges) and sent and failed batch
/// totals (counters), a HELP line, a TYPE line and the sample line.
pub open spec fn exposition_spec(
    queue_length: u64,
    wal_size_bytes: u64,
    last_send_epoch: u64,
    batches_sent: u64,
    batches_failed: u64,
) -> Seq<char> {
    "# HELP sentinel_queue_length Number of unacked records in WAL\n# TYPE sentinel_queue_length gauge\nsentinel_queue_length "@
        + decimal(queue_length as nat)
        + "\n# HELP sentinel_wal_size_bytes Current WAL size on disk in bytes\n# TYPE sentinel_wal_size_bytes gauge\nsentinel_wal_size_bytes "@
        + decimal(wal_size_bytes as nat)
        + "\n# HELP sentinel_last_send_epoch Unix timestamp of last successful send\n# TYPE sentinel_last_send_epoch gauge\nsentinel_last_send_epoch "@
        + decimal(last_send_epoch as nat)
        + "\n# HELP sentinel_batches_sent_total Total batches sent successfully\n# TYPE sentinel_batches_sent_total counter\nsentinel_batches_sent_total "@
        + decimal(batches_sent as nat)
        + "\n# HELP sentinel_batches_failed_total Total batches that failed to send\n# TYPE sentinel_batches_failed_total counter\nsentinel_batches_failed_total "@
        + decimal(batches_failed as nat) + "\n"@
}

/// The body of the `/metrics` response for the given figures.
pub fn exposition(
    queue_length: u64,
    wal_size_bytes: u64,
    last_send_epoch: u64,
    batches_sent: u64,
    batches_failed: u64,
) -> (out: String)
    ensures
        out@ == exposition_spec(queue_length, wal_size_bytes, last_send_epoch, batches_sent, batches_failed),
{
    let mut out = String::new();
    push_str(&mut out, "# HELP sentinel_queue_length Number of unacked records in WAL\n# TYPE sentinel_queue_length gauge\nsentinel_queue_length ");
    push_decimal(&mut out, queue_length);
    push_str(&mut out, "\n# HELP sentinel_wal_size_bytes Current WAL size on disk in bytes\n# TYPE sentinel_wal_size_bytes gauge\nsentinel_wal_size_bytes ");
    push_decimal(&mut out, wal_size_bytes);
    push_str(&mut out, "\n# HELP sentinel_last_send_epoch Unix timestamp of last successful send\n# TYPE sentinel_last_send_epoch gauge\nsentinel_last_send_epoch ");
    push_decimal(&mut out, last_send_epoch);
    push_str(&mut out, "\n# HELP sentinel_batches_sent_total Total batches sent successfully\n# TYPE sentinel_batches_sent_total counter\nsentinel_batches_sent_total ");
    push_decimal(&mut out, batches_sent);
    push_str(&mut out, "\n# HELP sentinel_batches_failed_total Total batches that failed to send\n# TYPE sentinel_batches_failed_total counter\nsentinel_batches_failed_total ");
    push_decimal(&mut out, batches_failed);
    push_str(&mut out, "\n");
    out
}

} // verus!
