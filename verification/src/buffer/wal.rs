use std::collections::HashSet;
use vstd::prelude::*;

use super::meta::WalMeta;
use super::record::Record;
use crate::text::{
    chars_of, decimal, ends_with, parse_u64, parse_u64_spec, push_char, push_chars, starts_with,
    u64_to_decimal, vec_ends_with, vec_starts_with,
};

verus! {

broadcast use vstd::std_specs::hash::group_hash_axioms;

/// `.log`
pub open spec fn log_suffix() -> Seq<char> {
    seq!['.', 'l', 'o', 'g']
}

/// `wal-`
pub open spec fn segment_prefix() -> Seq<char> {
    seq!['w', 'a', 'l', '-']
}

/// Whether a file name has the extension `log` as `Path::extension` sees it:
/// the last dot is not the first character and `log` follows it.
pub open spec fn is_log_name(name: Seq<char>) -> bool {
    name.len() > 4 && ends_with(name, log_suffix())
}

/// The segment index in a name `wal-<digits>.log`.
pub open spec fn segment_index_of(name: Seq<char>) -> Option<u64> {
    if name.len() >= 8 && starts_with(name, segment_prefix()) && ends_with(name, log_suffix()) {
        parse_u64_spec(name.subrange(4, name.len() - 4))
    } else {
        None
    }
}

/// The decimal text of `n`, padded with zeros to at least `width` characters.
pub open spec fn zero_padded(n: nat, width: nat) -> Seq<char> {
    if decimal(n).len() >= width {
        decimal(n)
    } else {
        Seq::new((width - decimal(n).len()) as nat, |_i: int| '0') + decimal(n)
    }
}

/// The file name of segment `index`: `wal-` and the index padded to seven digits, then `.log`.
pub open spec fn segment_name(index: u64) -> Seq<char> {
    segment_prefix() + zero_padded(index as nat, 7) + log_suffix()
}

fn log_suffix_vec() -> (v: Vec<char>)
    ensures
        v@ == log_suffix(),
{
    let v = vec!['.', 'l', 'o', 'g'];
    assert(v@ =~= log_suffix());
    v
}

fn segment_prefix_vec() -> (v: Vec<char>)
    ensures
        v@ == segment_prefix(),
{
    let v = vec!['w', 'a', 'l', '-'];
    assert(v@ =~= segment_prefix());
    v
}

/// Whether a directory entry name is a segment file (extension `log`).
pub fn is_log_file(name: &str) -> (r: bool)
    ensures
        r == is_log_name(name@),
{
    let cs = chars_of(name);
    let suffix = log_suffix_vec();
    cs.len() > 4 && vec_ends_with(&cs, &suffix)
}

/// The index of a segment file name `wal-<digits>.log`, if the name has that form.
pub fn parse_segment_index(name: &str) -> (r: Option<u64>)
    ensures
        r == segment_index_of(name@),
{
    let cs = chars_of(name);
    if cs.len() < 8 {
        return None;
    }
    let prefix = segment_prefix_vec();
    let suffix = log_suffix_vec();
    if !vec_starts_with(&cs, &prefix) || !vec_ends_with(&cs, &suffix) {
        return None;
    }
    let mut middle: Vec<char> = Vec::new();
    let mut i: usize = 4;
    while i < cs.len() - 4
        invariant
            cs@ == name@,
            cs@.len() >= 8,
            4 <= i <= cs@.len() - 4,
            middle@ == cs@.subrange(4, i as int),
        decreases cs.len() - 4 - i,
    {
        middle.push(cs[i]);
        i = i + 1;
        assert(middle@ =~= cs@.subrange(4, i as int));
    }
    parse_u64(&middle)
}

/// The file name of segment `index` (`format!("wal-{:07}.log", index)`).
pub fn segment_file_name(index: u64) -> (out: String)
    ensures
        out@ == segment_name(index),
{
    let mut out = String::new();
    push_char(&mut out, 'w');
    push_char(&mut out, 'a');
    push_char(&mut out, 'l');
    push_char(&mut out, '-');
    let digits = u64_to_decimal(index);
    let d = chars_of(digits.as_str());
    let mut pad: usize = 0;
    let ghost before = out@;
    if d.len() < 7 {
        pad = 7 - d.len();
    }
    let mut k: usize = 0;
    while k < pad
        invariant
            k <= pad,
            out@ == before + Seq::new(k as nat, |_i: int| '0'),
        decreases pad - k,
    {
        push_char(&mut out, '0');
        k = k + 1;
        assert(out@ =~= before + Seq::new(k as nat, |_i: int| '0'));
    }
    push_chars(&mut out, &d);
    push_char(&mut out, '.');
    push_char(&mut out, 'l');
    push_char(&mut out, 'o');
    push_char(&mut out, 'g');
    proof {
        assert(before =~= segment_prefix());
        if decimal(index as nat).len() >= 7 {
            assert(pad == 0);
            assert(Seq::new(0nat, |_i: int| '0') + decimal(index as nat) =~= decimal(index as nat));
        }
        assert(out@ =~= segment_name(index));
    }
    out
}

/// What a scan of the log directory found under one name: the ids of the
/// records read from it, or `None` when the file could not be read.
pub struct SegmentListing {
    pub file_name: String,
    pub record_ids: Option<Vec<u64>>,
}

/// The ids that a listing contributes: those of readable segment files.
pub open spec fn listing_ids(l: SegmentListing) -> Seq<u64> {
    if is_log_name(l.file_name@) {
        match l.record_ids {
            Some(ids) => ids@,
            None => Seq::empty(),
        }
    } else {
        Seq::empty()
    }
}

/// The segment index that a listing names, if it is a segment file.
pub open spec fn listing_index(l: SegmentListing) -> Option<u64> {
    if is_log_name(l.file_name@) {
        segment_index_of(l.file_name@)
    } else {
        None
    }
}

/// The in-memory bookkeeping of a write-ahead log: the index of the segment
/// being written, the next record id, the size at which segments rotate,
/// and the acknowledged ids (kept both as a set and in acknowledgement order).
pub struct WalIndex {
    segment_index: u64,
    next_id: u64,
    max_segment_bytes: u64,
    acked: HashSet<u64>,
    acked_order: Vec<u64>,
}

/// The abstract state of a log index.
pub struct WalIndexView {
    pub segment_index: u64,
    pub next_id: u64,
    pub max_segment_bytes: u64,
    pub acked: Set<u64>,
}

impl View for WalIndex {
    type V = WalIndexView;

    closed spec fn view(&self) -> WalIndexView {
        WalIndexView {
            segment_index: self.segment_index,
            next_id: self.next_id,
            max_segment_bytes: self.max_segment_bytes,
            acked: self.acked@,
        }
    }
}

/// The records (id, payload) whose id is not acknowledged, in their order.
pub open spec fn unacked_of(records: Seq<(u64, Seq<u8>)>, acked: Set<u64>) -> Seq<(u64, Seq<u8>)>
    decreases records.len(),
{
    if records.len() == 0 {
        Seq::empty()
    } else {
        let rest = unacked_of(records.drop_last(), acked);
        if acked.contains(records.last().0) {
            rest
        } else {
            rest.push(records.last())
        }
    }
}

/// Law: the pending records are exactly the records whose id is not
/// acknowledged; none is lost and no acknowledged one comes back.
pub proof fn lemma_unacked_is_filter(records: Seq<(u64, Seq<u8>)>, acked: Set<u64>)
    ensures
        forall|r: (u64, Seq<u8>)|
            #[trigger] unacked_of(records, acked).contains(r) <==> (records.contains(r) && !acked.contains(r.0)),
    decreases records.len(),
{
    if records.len() > 0 {
        let init = records.drop_last();
        let last = records.last();
        lemma_unacked_is_filter(init, acked);
        assert(records =~= init.push(last));
        assert forall|r: (u64, Seq<u8>)|
            #[trigger] unacked_of(records, acked).contains(r) <==> (records.contains(r) && !acked.contains(r.0)) by {
            let rest = unacked_of(init, acked);
            if records.contains(r) {
                let k = choose|k: int| 0 <= k < records.len() && records[k] == r;
                if k < records.len() - 1 {
                    assert(init[k] == r);
                    assert(init.contains(r));
                }
            }
            if init.contains(r) {
                let k = choose|k: int| 0 <= k < init.len() && init[k] == r;
                assert(records[k] == r);
            }
            if !acked.contains(last.0) {
                assert(rest.push(last)[rest.len() as int] == last);
                if rest.push(last).contains(r) {
                    let k = choose|k: int| 0 <= k < rest.push(last).len() && rest.push(last)[k] == r;
                    if k < rest.len() {
                        assert(rest[k] == r);
                    }
                }
                if rest.contains(r) {
                    let k = choose|k: int| 0 <= k < rest.len() && rest[k] == r;
                    assert(rest.push(last)[k] == r);
                }
            }
            assert(records[records.len() - 1] == last);
        }
    } else {
        assert forall|r: (u64, Seq<u8>)|
            #[trigger] unacked_of(records, acked).contains(r) <==> (records.contains(r) && !acked.contains(r.0)) by {
            if records.contains(r) {
                let k = choose|k: int| 0 <= k < records.len() && records[k] == r;
            }
        }
    }
}

/// The first id in `from..next_id` that is not acknowledged, or `next_id`.
pub open spec fn first_unacked_from(acked: Set<u64>, from: int, next_id: u64) -> u64
    decreases next_id - from,
{
    if from < 0 || from >= next_id {
        next_id
    } else if !acked.contains(from as u64) {
        from as u64
    } else {
        first_unacked_from(acked, from + 1, next_id)
    }
}

proof fn lemma_first_unacked_from(acked: Set<u64>, from: int, next_id: u64)
    requires
        0 <= from <= next_id,
    ensures
        from <= first_unacked_from(acked, from, next_id) <= next_id,
        forall|id: u64| from <= id < first_unacked_from(acked, from, next_id) ==> acked.contains(id),
        first_unacked_from(acked, from, next_id) < next_id ==> !acked.contains(first_unacked_from(acked, from, next_id)),
    decreases next_id - from,
{
    if from < next_id && acked.contains(from as u64) {
        lemma_first_unacked_from(acked, from + 1, next_id);
        assert forall|id: u64| from <= id < first_unacked_from(acked, from, next_id) implies acked.contains(id) by {
            if id == from {
            } else {
                assert(from + 1 <= id);
            }
        }
    }
}

/// Law: the head of the log is its first pending id. With nothing
/// acknowledged it is 0; otherwise it is at most the next id, every id below
/// it is acknowledged, and, when below the next id, it is not acknowledged
/// itself (so an unacknowledged record 0 keeps the head at 0).
pub proof fn lemma_head_seq_is_first_pending(acked: Set<u64>, next_id: u64)
    ensures
        acked.is_empty() ==> head_seq_of(acked, next_id) == 0,
        !acked.is_empty() ==> head_seq_of(acked, next_id) <= next_id,
        !acked.is_empty() ==> forall|id: u64| id < head_seq_of(acked, next_id) ==> acked.contains(id),
        !acked.is_empty() && head_seq_of(acked, next_id) < next_id ==> !acked.contains(head_seq_of(acked, next_id)),
        0 < next_id && !acked.contains(0) ==> head_seq_of(acked, next_id) == 0,
{
    lemma_first_unacked_from(acked, 0, next_id);
}

/// The head of the log as the metadata records it: zero when nothing is
/// acknowledged, else the first id below `next_id` that is not acknowledged,
/// or `next_id` when all are.
pub open spec fn head_seq_of(acked: Set<u64>, next_id: u64) -> u64 {
    if acked.is_empty() {
        0
    } else {
        first_unacked_from(acked, 0, next_id)
    }
}

/// `v` is the state a log is rebuilt in from its saved metadata `meta` and
/// what a scan of its directory found (`listings`), with segments rotating
/// at `max` bytes: the acknowledged ids are those of the metadata; the next
/// id is past the stored tail and every id read from a segment file, and is
/// the least such; the segment index is past the stored last segment and
/// every segment file's index, and is the least such.
pub open spec fn reopened(meta: WalMeta, listings: Seq<SegmentListing>, max: u64, v: WalIndexView) -> bool {
    &&& v.max_segment_bytes == max
    &&& v.acked == meta.acked_ids@.to_set()
    &&& v.next_id >= meta.tail_seq
    &&& forall|i: int, k: int| 0 <= i < listings.len() && 0 <= k < listing_ids(listings[i]).len()
        ==> #[trigger] listing_ids(listings[i])[k] < v.next_id
    &&& (v.next_id == meta.tail_seq || exists|i: int, k: int|
        0 <= i < listings.len() && 0 <= k < listing_ids(listings[i]).len()
        && v.next_id == #[trigger] listing_ids(listings[i])[k] + 1)
    &&& v.segment_index >= meta.last_segment
    &&& forall|i: int| 0 <= i < listings.len() && #[trigger] listing_index(listings[i]) is Some
        ==> listing_index(listings[i])->0 < v.segment_index
    &&& (v.segment_index == meta.last_segment || exists|i: int|
        0 <= i < listings.len() && #[trigger] listing_index(listings[i]) is Some
        && v.segment_index == listing_index(listings[i])->0 + 1)
}

/// `m` is the metadata saved for a log in state `v`.
pub open spec fn saved_meta(v: WalIndexView, m: WalMeta) -> bool {
    &&& m.head_seq == head_seq_of(v.acked, v.next_id)
    &&& m.tail_seq == v.next_id
    &&& m.last_segment == v.segment_index
    &&& m.acked_ids@.to_set() == v.acked
    &&& m.acked_ids@.no_duplicates()
}

/// Law: saving the metadata and reopening the log resumes where it stood:
/// the same ids are acknowledged, so the same records are pending, and no
/// record id or segment index is handed out again.
pub proof fn lemma_reopen_resumes(
    v: WalIndexView,
    m: WalMeta,
    listings: Seq<SegmentListing>,
    max: u64,
    v2: WalIndexView,
)
    requires
        saved_meta(v, m),
        reopened(m, listings, max, v2),
    ensures
        v2.acked == v.acked,
        v2.next_id >= v.next_id,
        v2.segment_index >= v.segment_index,
        forall|records: Seq<(u64, Seq<u8>)>| #[trigger] unacked_of(records, v2.acked) == unacked_of(records, v.acked),
{
}

impl WalIndex {
    /// The order in which ids were acknowledged, without repeats, matches the set.
    pub closed spec fn wf(&self) -> bool {
        &&& self.acked@ == self.acked_order@.to_set()
        &&& self.acked_order@.no_duplicates()
    }

    /// Rebuilds the bookkeeping when a log is opened: the next id is past the
    /// stored tail and every id found in a readable segment file, the segment
    /// index is past the stored last segment and every segment file's index,
    /// and the acknowledged ids are those of the metadata.
    pub fn recover(meta: &WalMeta, listings: &Vec<SegmentListing>, max_segment_bytes: u64) -> (w: WalIndex)
        requires
            forall|i: int, k: int| 0 <= i < listings@.len() && 0 <= k < listing_ids(listings@[i]).len()
                ==> #[trigger] listing_ids(listings@[i])[k] < u64::MAX,
            forall|i: int| 0 <= i < listings@.len() && #[trigger] listing_index(listings@[i]) is Some
                ==> listing_index(listings@[i])->0 < u64::MAX,
        ensures
            w.wf(),
            reopened(*meta, listings@, max_segment_bytes, w@),
    {
        let mut segment_index = meta.last_segment;
        let mut next_id = meta.tail_seq;
        let mut j: usize = 0;
        while j < listings.len()
            invariant
                j <= listings@.len(),
                forall|i: int, k: int| 0 <= i < listings@.len() && 0 <= k < listing_ids(listings@[i]).len()
                    ==> #[trigger] listing_ids(listings@[i])[k] < u64::MAX,
                forall|i: int| 0 <= i < listings@.len() && #[trigger] listing_index(listings@[i]) is Some
                    ==> listing_index(listings@[i])->0 < u64::MAX,
                next_id >= meta.tail_seq,
                forall|i: int, k: int| 0 <= i < j && 0 <= k < listing_ids(listings@[i]).len()
                    ==> #[trigger] listing_ids(listings@[i])[k] < next_id,
                next_id == meta.tail_seq || exists|i: int, k: int|
                    0 <= i < j && 0 <= k < listing_ids(listings@[i]).len()
                    && next_id == #[trigger] listing_ids(listings@[i])[k] + 1,
                segment_index >= meta.last_segment,
                forall|i: int| 0 <= i < j && #[trigger] listing_index(listings@[i]) is Some
                    ==> listing_index(listings@[i])->0 < segment_index,
                segment_index == meta.last_segment || exists|i: int|
                    0 <= i < j && #[trigger] listing_index(listings@[i]) is Some
                    && segment_index == listing_index(listings@[i])->0 + 1,
            decreases listings@.len() - j,
        {
            let listing = &listings[j];
            if is_log_file(listing.file_name.as_str()) {
                match &listing.record_ids {
                    Some(ids) => {
                        let ghost before = next_id;
                        let mut k: usize = 0;
                        while k < ids.len()
                            invariant
                                j < listings@.len(),
                                listing == &listings@[j as int],
                                listing_ids(listings@[j as int]) == ids@,
                                k <= ids@.len(),
                                forall|i: int, k2: int| 0 <= i < listings@.len() && 0 <= k2 < listing_ids(listings@[i]).len()
                                    ==> #[trigger] listing_ids(listings@[i])[k2] < u64::MAX,
                                next_id >= before,
                                forall|k2: int| 0 <= k2 < k ==> #[trigger] ids@[k2] < next_id,
                                next_id == before || exists|k2: int| 0 <= k2 < k && next_id == #[trigger] ids@[k2] + 1,
                            decreases ids@.len() - k,
                        {
                            let id = ids[k];
                            assert(listing_ids(listings@[j as int])[k as int] < u64::MAX);
                            if id >= next_id {
                                next_id = id + 1;
                            }
                            k = k + 1;
                        }
                        proof {
                            if next_id != before {
                                let k2 = choose|k2: int| 0 <= k2 < ids@.len() && next_id == #[trigger] ids@[k2] + 1;
                                assert(next_id == listing_ids(listings@[j as int])[k2] + 1);
                            }
                            assert forall|i: int, k2: int| 0 <= i < j + 1 && 0 <= k2 < listing_ids(listings@[i]).len()
                                implies #[trigger] listing_ids(listings@[i])[k2] < next_id by {
                                if i == j {
                                    assert(ids@[k2] < next_id);
                                }
                            }
                        }
                    },
                    None => {},
                }
                match parse_segment_index(listing.file_name.as_str()) {
                    Some(idx) => {
                        assert(listing_index(listings@[j as int]) == Some(idx));
                        if idx >= segment_index {
                            segment_index = idx + 1;
                        }
                    },
                    None => {},
                }
            }
            proof {
                assert forall|i: int| 0 <= i < j + 1 && #[trigger] listing_index(listings@[i]) is Some
                    implies listing_index(listings@[i])->0 < segment_index by {}
            }
            j = j + 1;
        }
        let acked = meta.acked_set();
        let mut acked_order: Vec<u64> = Vec::new();
        let mut set: HashSet<u64> = HashSet::new();
        let mut i: usize = 0;
        while i < meta.acked_ids.len()
            invariant
                i <= meta.acked_ids@.len(),
                set@ == acked_order@.to_set(),
                set@ == meta.acked_ids@.subrange(0, i as int).to_set(),
                acked_order@.no_duplicates(),
            decreases meta.acked_ids@.len() - i,
        {
            let id = meta.acked_ids[i];
            let ghost pre = meta.acked_ids@.subrange(0, i as int);
            if !set.contains(&id) {
                proof { lemma_push_to_set(acked_order@, id); }
                acked_order.push(id);
                set.insert(id);
            }
            proof {
                assert(meta.acked_ids@.subrange(0, i + 1) =~= pre.push(id));
                lemma_push_to_set(pre, id);
            }
            i = i + 1;
        }
        assert(meta.acked_ids@.subrange(0, i as int) =~= meta.acked_ids@);
        WalIndex { segment_index, next_id, max_segment_bytes, acked: set, acked_order }
    }

    /// The index of the segment being written.
    pub fn segment_index(&self) -> (r: u64)
        ensures
            r == self@.segment_index,
    {
        self.segment_index
    }

    /// The id the next appended record will get.
    pub fn next_id(&self) -> (r: u64)
        ensures
            r == self@.next_id,
    {
        self.next_id
    }

    /// Whether `id` has been acknowledged.
    pub fn is_acked(&self, id: u64) -> (r: bool)
        ensures
            r == self@.acked.contains(id),
    {
        self.acked.contains(&id)
    }

    /// Starts an append: assigns the next id, and decides whether to rotate
    /// to a new segment first (when the current segment's size is known and has
    /// reached the limit). Both counters move before any write is attempted.
    pub fn begin_append(&mut self, current_size: Option<u64>) -> (r: (u64, bool))
        requires
            old(self).wf(),
            old(self)@.next_id < u64::MAX,
            (current_size matches Some(s) && s >= old(self)@.max_segment_bytes) ==> old(self)@.segment_index
                < u64::MAX,
        ensures
            final(self).wf(),
            r.0 == old(self)@.next_id,
            r.1 == (current_size matches Some(s) && s >= old(self)@.max_segment_bytes),
            final(self)@ == (WalIndexView {
                next_id: (old(self)@.next_id + 1) as u64,
                segment_index: if r.1 { (old(self)@.segment_index + 1) as u64 } else { old(self)@.segment_index },
                ..old(self)@
            }),
    {
        let id = self.next_id;
        self.next_id = self.next_id + 1;
        let rotate = match current_size {
            Some(size) => size >= self.max_segment_bytes,
            None => false,
        };
        if rotate {
            self.segment_index = self.segment_index + 1;
        }
        (id, rotate)
    }

    /// Marks a record as acknowledged.
    pub fn ack(&mut self, record_id: u64)
        requires
            old(self).wf(),
        ensures
            final(self).wf(),
            final(self)@ == (WalIndexView { acked: old(self)@.acked.insert(record_id), ..old(self)@ }),
    {
        if !self.acked.contains(&record_id) {
            proof { lemma_push_to_set(self.acked_order@, record_id); }
            self.acked_order.push(record_id);
            self.acked.insert(record_id);
        } else {
            assert(self.acked@.insert(record_id) =~= self.acked@);
        }
    }

    /// The records that are not acknowledged, as (id, payload), in order.
    pub fn unacked(&self, records: Vec<Record>) -> (out: Vec<(u64, Vec<u8>)>)
        ensures
            out@.map_values(|p: (u64, Vec<u8>)| (p.0, p.1@)) == unacked_of(
                records@.map_values(|r: Record| r@),
                self@.acked,
            ),
    {
        let mut out: Vec<(u64, Vec<u8>)> = Vec::new();
        let mut records = records;
        let ghost all = records@.map_values(|r: Record| r@);
        let mut rev: Vec<Record> = Vec::new();
        while records.len() > 0
            invariant
                rev@.len() + records@.len() == all.len(),
                forall|k: int| 0 <= k < records@.len() ==> #[trigger] records@[k]@ == all[k],
                forall|k: int| 0 <= k < rev@.len() ==> #[trigger] rev@[k]@ == all[all.len() - 1 - k],
            decreases records@.len(),
        {
            let r = records.pop().unwrap();
            rev.push(r);
        }
        let ghost n = all.len();
        while rev.len() > 0
            invariant
                rev@.len() <= n,
                n == all.len(),
                forall|k: int| 0 <= k < rev@.len() ==> #[trigger] rev@[k]@ == all[n - 1 - k],
                out@.map_values(|p: (u64, Vec<u8>)| (p.0, p.1@)) == unacked_of(
                    all.subrange(0, n - rev@.len()),
                    self@.acked,
                ),
            decreases rev@.len(),
        {
            let ghost done = n - rev@.len();
            let r = rev.pop().unwrap();
            assert(r@ == all[done]);
            let ghost pre = all.subrange(0, done);
            assert(all.subrange(0, done + 1).drop_last() =~= pre);
            assert(all.subrange(0, done + 1).last() == all[done]);
            if !self.acked.contains(&r.id) {
                let ghost before = out@.map_values(|p: (u64, Vec<u8>)| (p.0, p.1@));
                out.push((r.id, r.data));
                assert(out@.map_values(|p: (u64, Vec<u8>)| (p.0, p.1@)) =~= before.push(all[done]));
            }
        }
        assert(all.subrange(0, n as int) =~= all);
        out
    }

    /// The first unacknowledged id (see `head_seq_of`).
    pub fn head_seq(&self) -> (r: u64)
        requires
            self.wf(),
        ensures
            r == head_seq_of(self@.acked, self@.next_id),
    {
        if self.acked_order.len() == 0 {
            proof {
                assert(self.acked_order@ =~= Seq::<u64>::empty());
                assert(self.acked@ =~= Set::<u64>::empty());
            }
            return 0;
        }
        proof {
            assert(self.acked@.contains(self.acked_order@[0]));
        }
        let mut id: u64 = 0;
        while id < self.next_id
            invariant
                id <= self.next_id,
                !self@.acked.is_empty(),
                head_seq_of(self@.acked, self@.next_id) == first_unacked_from(self@.acked, id as int, self@.next_id),
            decreases self.next_id - id,
        {
            if !self.acked.contains(&id) {
                return id;
            }
            id = id + 1;
        }
        self.next_id
    }

    /// The metadata to persist for the current state.
    pub fn to_meta(&self) -> (m: WalMeta)
        requires
            self.wf(),
        ensures
            saved_meta(self@, m),
    {
        let head = self.head_seq();
        WalMeta {
            head_seq: head,
            tail_seq: self.next_id,
            last_segment: self.segment_index,
            acked_ids: self.acked_order.clone(),
        }
    }
}

proof fn lemma_push_to_set(s: Seq<u64>, x: u64)
    ensures
        s.push(x).to_set() == s.to_set().insert(x),
        !s.contains(x) && s.no_duplicates() ==> s.push(x).no_duplicates(),
{
    assert forall|y: u64| s.push(x).to_set().contains(y) == s.to_set().insert(x).contains(y) by {
        if y == x {
            assert(s.push(x)[s.len() as int] == x);
        } else if s.push(x).contains(y) {
            let k = choose|k: int| 0 <= k < s.push(x).len() && s.push(x)[k] == y;
            assert(s[k] == y);
        } else if s.contains(y) {
            let k = choose|k: int| 0 <= k < s.len() && s[k] == y;
            assert(s.push(x)[k] == y);
        }
    }
    assert(s.push(x).to_set() =~= s.to_set().insert(x));
    if !s.contains(x) && s.no_duplicates() {
        assert forall|i: int, j: int| 0 <= i < j < s.push(x).len() implies s.push(x)[i] != s.push(x)[j] by {
            if j == s.len() {
                assert(s[i] == s.push(x)[i]);
            }
        }
    }
}

} // verus!
