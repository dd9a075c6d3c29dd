use std::collections::HashSet;
use vstd::prelude::*;

verus! {

broadcast use vstd::std_specs::hash::group_hash_axioms;

/// The persisted summary of a write-ahead log: the first unacknowledged id
/// (`head_seq`), the next id to assign (`tail_seq`), the index of the last
/// segment and the acknowledged ids.
#[derive(Debug, Clone)]
pub struct WalMeta {
    pub head_seq: u64,
    pub tail_seq: u64,
    pub last_segment: u64,
    pub acked_ids: Vec<u64>,
}

/// `a - b`, or 0 when `b` exceeds `a` (`u64::saturating_sub`).
pub open spec fn saturating_sub(a: int, b: int) -> int {
    if a >= b { a - b } else { 0 }
}

impl WalMeta {
    /// The metadata of a log that has never been written.
    pub fn empty() -> (m: WalMeta)
        ensures
            m.head_seq == 0,
            m.tail_seq == 0,
            m.last_segment == 0,
            m.acked_ids@ == Seq::<u64>::empty(),
    {
        WalMeta { head_seq: 0, tail_seq: 0, last_segment: 0, acked_ids: Vec::new() }
    }

    /// Records between head and tail, less the acknowledged ones, never below zero.
    pub fn unacked_count(&self) -> (n: u64)
        requires
            self.head_seq <= self.tail_seq,
        ensures
            n == saturating_sub(self.tail_seq - self.head_seq, self.acked_ids@.len() as int),
    {
        let total_records = self.tail_seq - self.head_seq;
        total_records.saturating_sub(self.acked_ids.len() as u64)
    }

    /// The acknowledged ids as a set.
    pub fn acked_set(&self) -> (s: HashSet<u64>)
        ensures
            s@ == self.acked_ids@.to_set(),
    {
        let mut s: HashSet<u64> = HashSet::new();
        let mut i: usize = 0;
        while i < self.acked_ids.len()
            invariant
                i <= self.acked_ids@.len(),
                s@ == self.acked_ids@.subrange(0, i as int).to_set(),
            decreases self.acked_ids@.len() - i,
        {
            let id = self.acked_ids[i];
            s.insert(id);
            proof {
                let pre = self.acked_ids@.subrange(0, i as int);
                assert(self.acked_ids@.subrange(0, i + 1) =~= pre.push(id));
                assert(pre.push(id).to_set() =~= pre.to_set().insert(id)) by {
                    assert forall|x: u64| pre.push(id).to_set().contains(x) <==> pre.to_set().insert(id).contains(x) by {
                        if x == id {
                            assert(pre.push(id)[pre.len() as int] == id);
                        } else if pre.push(id).contains(x) {
                            let k = choose|k: int| 0 <= k < pre.push(id).len() && pre.push(id)[k] == x;
                            assert(pre[k] == x);
                        } else if pre.contains(x) {
                            let k = choose|k: int| 0 <= k < pre.len() && pre[k] == x;
                            assert(pre.push(id)[k] == x);
                        }
                    }
                }
            }
            i = i + 1;
        }
        assert(self.acked_ids@.subrange(0, i as int) =~= self.acked_ids@);
        s
    }
}

} // verus!
