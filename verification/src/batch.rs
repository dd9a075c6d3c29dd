//! Grouping collected metrics into numbered batches.
use vstd::prelude::*;

use crate::platform::{now_ms, random_bytes};
use crate::text::{hex_lower, hex_of};

verus! {

/// A batch of metrics with the range of sequence numbers it covers
/// (`seq_start` inclusive, `seq_end` exclusive).
pub struct Batch<M> {
    pub agent_id: String,
    pub batch_id: String,
    pub seq_start: u64,
    pub seq_end: u64,
    pub created_at_ms: i64,
    pub metrics: Vec<M>,
}

/// Numbers metrics consecutively into batches for one agent.
pub struct BatchComposer {
    agent_id: String,
    seq_counter: u64,
}

/// `b` is the batch that a composer in state `before` makes of `n` metrics,
/// leaving the composer in state `after`: the batch covers the next `n`
/// sequence numbers and the counter moves past them.
pub open spec fn numbered<M>(before: BatchComposer, n: nat, b: Batch<M>, after: BatchComposer) -> bool {
    &&& b.agent_id@ == before.agent()
    &&& b.seq_start == before.seq()
    &&& b.seq_end == before.seq() + n
    &&& after.agent() == before.agent()
    &&& after.seq() == b.seq_end
}

impl BatchComposer {
    /// The agent this composer numbers batches for.
    pub closed spec fn agent(&self) -> Seq<char> {
        self.agent_id@
    }

    /// The sequence number the next batch starts at.
    pub closed spec fn seq(&self) -> u64 {
        self.seq_counter
    }

    /// A composer for `agent_id` whose first batch starts at `initial_seq`.
    pub fn new(agent_id: String, initial_seq: u64) -> (c: BatchComposer)
        ensures
            c.agent() == agent_id@,
            c.seq() == initial_seq,
    {
        BatchComposer { agent_id, seq_counter: initial_seq }
    }

    /// The sequence number the next batch starts at.
    pub fn current_seq(&self) -> (r: u64)
        ensures
            r == self.seq(),
    {
        self.seq_counter
    }

    /// Makes a batch of `metrics` with the given id and creation time: it
    /// covers the next `metrics.len()` sequence numbers, and the counter moves
    /// past them.
    pub fn compose_with<M>(&mut self, metrics: Vec<M>, batch_id: String, created_at_ms: i64) -> (b: Batch<M>)
        requires
            old(self).seq() + metrics@.len() <= u64::MAX,
        ensures
            b.agent_id@ == old(self).agent(),
            b.batch_id@ == batch_id@,
            b.seq_start == old(self).seq(),
            b.seq_end == old(self).seq() + metrics@.len(),
            b.created_at_ms == created_at_ms,
            b.metrics@ == metrics@,
            final(self).agent() == old(self).agent(),
            final(self).seq() == b.seq_end,
            numbered(*old(self), metrics@.len(), b, *final(self)),
    {
        let seq_start = self.seq_counter;
        let seq_end = seq_start + metrics.len() as u64;
        self.seq_counter = seq_end;
        Batch {
            agent_id: self.agent_id.clone(),
            batch_id,
            seq_start,
            seq_end,
            created_at_ms,
            metrics,
        }
    }

    /// Makes a batch of `metrics` stamped with the current time and a fresh
    /// random id (32 lowercase hex digits); numbering as `compose_with`.
    pub fn compose<M>(&mut self, metrics: Vec<M>) -> (b: Batch<M>)
        requires
            old(self).seq() + metrics@.len() <= u64::MAX,
        ensures
            b.agent_id@ == old(self).agent(),
            b.batch_id@.len() == 32,
            exists|id_bytes: Seq<u8>| id_bytes.len() == 16 && b.batch_id@ == #[trigger] hex_of(id_bytes),
            b.seq_start == old(self).seq(),
            b.seq_end == old(self).seq() + metrics@.len(),
            b.metrics@ == metrics@,
            final(self).agent() == old(self).agent(),
            final(self).seq() == b.seq_end,
            numbered(*old(self), metrics@.len(), b, *final(self)),
    {
        let stamp = now_ms();
        let id_bytes = random_bytes(16);
        let batch_id = hex_lower(&id_bytes);
        assert(id_bytes@.len() == 16 && batch_id@ == hex_of(id_bytes@));
        self.compose_with(metrics, batch_id, stamp)
    }
}

/// Law: batches made one after the other by the same composer cover
/// consecutive ranges: each starts where the previous one ended, so no
/// sequence number is used twice or skipped, and both carry the same agent.
pub proof fn lemma_batches_are_contiguous<M>(
    c0: BatchComposer,
    n1: nat,
    b1: Batch<M>,
    c1: BatchComposer,
    n2: nat,
    b2: Batch<M>,
    c2: BatchComposer,
)
    requires
        numbered(c0, n1, b1, c1),
        numbered(c1, n2, b2, c2),
    ensures
        b2.seq_start == b1.seq_end,
        b1.seq_start <= b1.seq_end <= b2.seq_end,
        b2.seq_end - b1.seq_start == n1 + n2,
        b1.agent_id@ == b2.agent_id@,
        c2.seq() == b2.seq_end,
{
}

} // verus!
