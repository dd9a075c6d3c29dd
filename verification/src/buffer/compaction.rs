use vstd::prelude::*;

use super::meta::WalMeta;
use super::record::Record;
use super::wal::{is_log_file, is_log_name, unacked_of};

verus! {

/// A directory entry and its size in bytes.
pub struct FileSize {
    pub file_name: String,
    pub size: u64,
}

/// The total size of the entries that are segment files.
pub open spec fn log_bytes(entries: Seq<FileSize>) -> int
    decreases entries.len(),
{
    if entries.len() == 0 {
        0
    } else {
        log_bytes(entries.drop_last()) + if is_log_name(entries.last().file_name@) {
            entries.last().size as int
        } else {
            0
        }
    }
}

/// The number of entries that are segment files.
pub open spec fn log_count(entries: Seq<FileSize>) -> int
    decreases entries.len(),
{
    if entries.len() == 0 {
        0
    } else {
        log_count(entries.drop_last()) + if is_log_name(entries.last().file_name@) { 1int } else { 0 }
    }
}

proof fn lemma_log_nonneg(entries: Seq<FileSize>)
    ensures
        log_bytes(entries) >= 0,
        log_count(entries) >= 0,
    decreases entries.len(),
{
    if entries.len() > 0 {
        lemma_log_nonneg(entries.drop_last());
    }
}

proof fn lemma_log_bytes_prefix(entries: Seq<FileSize>, i: int)
    requires
        0 <= i <= entries.len(),
    ensures
        0 <= log_bytes(entries.subrange(0, i)) <= log_bytes(entries),
        0 <= log_count(entries.subrange(0, i)) <= log_count(entries),
    decreases entries.len() - i,
{
    lemma_log_nonneg(entries.subrange(0, i));
    if i < entries.len() {
        lemma_log_bytes_prefix(entries, i + 1);
        assert(entries.subrange(0, i + 1).drop_last() =~= entries.subrange(0, i));
    } else {
        assert(entries.subrange(0, i) =~= entries);
    }
}

/// Sums the sizes of the segment files among `entries`.
pub fn total_log_size(entries: &Vec<FileSize>) -> (total: u64)
    requires
        log_bytes(entries@) <= u64::MAX,
    ensures
        total == log_bytes(entries@),
{
    let mut total: u64 = 0;
    let mut i: usize = 0;
    while i < entries.len()
        invariant
            i <= entries@.len(),
            log_bytes(entries@) <= u64::MAX,
            total == log_bytes(entries@.subrange(0, i as int)),
        decreases entries@.len() - i,
    {
        proof {
            lemma_log_bytes_prefix(entries@, i + 1);
            assert(entries@.subrange(0, i + 1).drop_last() =~= entries@.subrange(0, i as int));
        }
        if is_log_file(entries[i].file_name.as_str()) {
            total = total + entries[i].size;
        }
        i = i + 1;
    }
    assert(entries@.subrange(0, i as int) =~= entries@);
    total
}

/// Whether the segment files together reach `threshold_bytes`.
pub fn needs_compaction(entries: &Vec<FileSize>, threshold_bytes: u64) -> (r: bool)
    requires
        log_bytes(entries@) <= u64::MAX,
    ensures
        r == (log_bytes(entries@) >= threshold_bytes),
{
    total_log_size(entries) >= threshold_bytes
}

/// Counts the segment files among `entries`.
pub fn count_log_files(entries: &Vec<FileSize>) -> (n: u64)
    requires
        entries@.len() <= u64::MAX,
    ensures
        n == log_count(entries@),
{
    let mut n: u64 = 0;
    let mut i: usize = 0;
    while i < entries.len()
        invariant
            i <= entries@.len(),
            entries@.len() <= u64::MAX,
            n == log_count(entries@.subrange(0, i as int)),
            n <= i,
        decreases entries@.len() - i,
    {
        proof {
            assert(entries@.subrange(0, i + 1).drop_last() =~= entries@.subrange(0, i as int));
        }
        if is_log_file(entries[i].file_name.as_str()) {
            n = n + 1;
        }
        i = i + 1;
    }
    assert(entries@.subrange(0, i as int) =~= entries@);
    n
}

/// The result of compacting a log: the surviving records, to be written
/// into segment 0, and the metadata that replaces the old one.
pub struct CompactionPlan {
    pub records: Vec<Record>,
    pub meta: WalMeta,
}

/// Decides a compaction: keeps the records whose ids are not acknowledged in
/// `meta`, in their order; the new head is the first kept id (or the old tail
/// when nothing is kept), the tail stays, the last segment becomes 0 and no
/// id is acknowledged any more.
pub fn plan_compaction(meta: &WalMeta, records: Vec<Record>) -> (plan: CompactionPlan)
    ensures
        plan.records@.map_values(|r: Record| r@) == unacked_of(
            records@.map_values(|r: Record| r@),
            meta.acked_ids@.to_set(),
        ),
        plan.meta.head_seq == if plan.records@.len() > 0 {
            plan.records@[0].id
        } else {
            meta.tail_seq
        },
        plan.meta.tail_seq == meta.tail_seq,
        plan.meta.last_segment == 0,
        plan.meta.acked_ids@ == Seq::<u64>::empty(),
{
    let acked = meta.acked_set();
    let ghost all = records@.map_values(|r: Record| r@);
    let mut rev: Vec<Record> = Vec::new();
    let mut records = records;
    while records.len() > 0
        invariant
            rev@.len() + records@.len() == all.len(),
            forall|k: int| 0 <= k < records@.len() ==> #[trigger] records@[k]@ == all[k],
            forall|k: int| 0 <= k < rev@.len() ==> #[trigger] rev@[k]@ == all[all.len() - 1 - k],
        decreases records@.len(),
    {
        let r = records.pop().unwrap();
        rev.push(r);
    }
    let ghost n = all.len();
    let mut kept: Vec<Record> = Vec::new();
    while rev.len() > 0
        invariant
            rev@.len() <= n,
            n == all.len(),
            acked@ == meta.acked_ids@.to_set(),
            forall|k: int| 0 <= k < rev@.len() ==> #[trigger] rev@[k]@ == all[n - 1 - k],
            kept@.map_values(|r: Record| r@) == unacked_of(all.subrange(0, n - rev@.len()), acked@),
        decreases rev@.len(),
    {
        let ghost done = n - rev@.len();
        let r = rev.pop().unwrap();
        assert(r@ == all[done]);
        assert(all.subrange(0, done + 1).drop_last() =~= all.subrange(0, done));
        assert(all.subrange(0, done + 1).last() == all[done]);
        if !acked.contains(&r.id) {
            let ghost before = kept@.map_values(|r: Record| r@);
            let ghost rv = r@;
            kept.push(r);
            assert(kept@.map_values(|r: Record| r@) =~= before.push(rv));
        }
    }
    assert(all.subrange(0, n as int) =~= all);
    let head_seq = if kept.len() > 0 {
        kept[0].id
    } else {
        meta.tail_seq
    };
    let new_meta = WalMeta { head_seq, tail_seq: meta.tail_seq, last_segment: 0, acked_ids: Vec::new() };
    CompactionPlan { records: kept, meta: new_meta }
}

proof fn lemma_unacked_of_empty(records: Seq<(u64, Seq<u8>)>)
    ensures
        unacked_of(records, Set::empty()) == records,
    decreases records.len(),
{
    if records.len() > 0 {
        lemma_unacked_of_empty(records.drop_last());
        assert(records.drop_last().push(records.last()) =~= records);
    }
}

/// Law: compaction keeps exactly the unacknowledged records in their order, so
/// the records left unacknowledged after it (none is acknowledged any more)
/// are those that were unacknowledged before it.
pub proof fn lemma_compaction_preserves_unacked(records: Seq<(u64, Seq<u8>)>, acked: Set<u64>)
    ensures
        unacked_of(unacked_of(records, acked), Set::empty()) == unacked_of(records, acked),
{
    lemma_unacked_of_empty(unacked_of(records, acked));
}

} // verus!
