//! Association lists keyed by strings: vectors of (key, value) pairs whose
//! keys do not repeat, read as maps.
use vstd::prelude::*;

use crate::text::chars_of;

verus! {

/// Whether some entry has key `k`.
pub open spec fn has_key<V: View>(s: Seq<(String, V)>, k: Seq<char>) -> bool {
    exists|i: int| 0 <= i < s.len() && (#[trigger] s[i]).0@ == k
}

/// No two entries share a key.
pub open spec fn keys_unique<V: View>(s: Seq<(String, V)>) -> bool {
    forall|i: int, j: int|
        0 <= i < s.len() && 0 <= j < s.len() && i != j ==> (#[trigger] s[i]).0@ != (#[trigger] s[j]).0@
}

/// The entries as a map from key to (the view of) value.
pub open spec fn entries_map<V: View>(s: Seq<(String, V)>) -> Map<Seq<char>, V::V> {
    Map::new(
        |k: Seq<char>| has_key(s, k),
        |k: Seq<char>| s[choose|i: int| 0 <= i < s.len() && (#[trigger] s[i]).0@ == k].1@,
    )
}

pub proof fn lemma_map_at<V: View>(s: Seq<(String, V)>, i: int)
    requires
        keys_unique(s),
        0 <= i < s.len(),
    ensures
        entries_map(s).contains_key(s[i].0@),
        entries_map(s)[s[i].0@] == s[i].1@,
{
    let k = s[i].0@;
    assert(has_key(s, k));
    let j = choose|j: int| 0 <= j < s.len() && (#[trigger] s[j]).0@ == k;
    assert(j == i);
}

pub fn same_key(a: &String, b: &Vec<char>) -> (r: bool)
    ensures
        r == (a@ == b@),
{
    let ac = chars_of(a.as_str());
    if ac.len() != b.len() {
        return false;
    }
    let mut i: usize = 0;
    while i < ac.len()
        invariant
            ac@ == a@,
            ac@.len() == b@.len(),
            i <= ac@.len(),
            forall|k: int| 0 <= k < i ==> ac@[k] == b@[k],
        decreases ac@.len() - i,
    {
        if ac[i] != b[i] {
            return false;
        }
        i = i + 1;
    }
    assert(ac@ =~= b@);
    true
}

pub fn find<V: View>(entries: &Vec<(String, V)>, key: &Vec<char>) -> (r: Option<usize>)
    ensures
        match r {
            Some(i) => i < entries@.len() && entries@[i as int].0@ == key@,
            None => !has_key(entries@, key@),
        },
{
    let mut i: usize = 0;
    while i < entries.len()
        invariant
            i <= entries@.len(),
            forall|j: int| 0 <= j < i ==> (#[trigger] entries@[j]).0@ != key@,
        decreases entries@.len() - i,
    {
        if same_key(&entries[i].0, key) {
            return Some(i);
        }
        i = i + 1;
    }
    None
}

pub fn store_entry<V: View>(entries: &mut Vec<(String, V)>, name: &str, value: V)
    requires
        keys_unique(old(entries)@),
    ensures
        keys_unique(final(entries)@),
        entries_map(final(entries)@) == entries_map(old(entries)@).insert(name@, value@),
{
    let key = chars_of(name);
    let ghost before = entries@;
    let ghost target = entries_map(before).insert(name@, value@);
    match find(entries, &key) {
        Some(i) => {
            let stored = entries[i].0.clone();
            entries.set(i, (stored, value));
            proof {
                let after = entries@;
                assert forall|a: int, b: int| 0 <= a < after.len() && 0 <= b < after.len() && a != b
                    implies (#[trigger] after[a]).0@ != (#[trigger] after[b]).0@ by {
                    assert(after[a].0@ == before[a].0@);
                    assert(after[b].0@ == before[b].0@);
                }
                assert forall|k: Seq<char>| #[trigger] entries_map(after).contains_key(k) == target.contains_key(k) by {
                    if has_key(after, k) {
                        let j = choose|j: int| 0 <= j < after.len() && (#[trigger] after[j]).0@ == k;
                        assert(before[j].0@ == k);
                    }
                    if has_key(before, k) {
                        let j = choose|j: int| 0 <= j < before.len() && (#[trigger] before[j]).0@ == k;
                        assert(after[j].0@ == k);
                    }
                }
                assert forall|k: Seq<char>| #[trigger] entries_map(after).contains_key(k) implies entries_map(after)[k]
                    == target[k] by {
                    let j = choose|j: int| 0 <= j < after.len() && (#[trigger] after[j]).0@ == k;
                    lemma_map_at(after, j);
                    if j != i {
                        assert(before[j] == after[j]);
                        lemma_map_at(before, j);
                    }
                }
                assert(entries_map(after) =~= target);
            }
        },
        None => {
            let stored = String::from_str(name);
            entries.push((stored, value));
            proof {
                let after = entries@;
                let n = before.len() as int;
                assert forall|a: int, b: int| 0 <= a < after.len() && 0 <= b < after.len() && a != b
                    implies (#[trigger] after[a]).0@ != (#[trigger] after[b]).0@ by {
                    if a < n && b < n {
                        assert(after[a] == before[a] && after[b] == before[b]);
                    } else if a == n {
                        assert(after[b] == before[b]);
                    } else {
                        assert(after[a] == before[a]);
                    }
                }
                assert forall|k: Seq<char>| #[trigger] entries_map(after).contains_key(k) == target.contains_key(k) by {
                    if has_key(after, k) {
                        let j = choose|j: int| 0 <= j < after.len() && (#[trigger] after[j]).0@ == k;
                        if j < n {
                            assert(before[j] == after[j]);
                        }
                    }
                    if has_key(before, k) {
                        let j = choose|j: int| 0 <= j < before.len() && (#[trigger] before[j]).0@ == k;
                        assert(after[j] == before[j]);
                    }
                    if k == name@ {
                        assert(after[n].0@ == k);
                    }
                }
                assert forall|k: Seq<char>| #[trigger] entries_map(after).contains_key(k) implies entries_map(after)[k]
                    == target[k] by {
                    let j = choose|j: int| 0 <= j < after.len() && (#[trigger] after[j]).0@ == k;
                    lemma_map_at(after, j);
                    if j < n {
                        assert(before[j] == after[j]);
                        lemma_map_at(before, j);
                    }
                }
                assert(entries_map(after) =~= target);
            }
        },
    }
}

pub fn delete_entry<V: View>(entries: &mut Vec<(String, V)>, name: &str)
    requires
        keys_unique(old(entries)@),
    ensures
        keys_unique(final(entries)@),
        entries_map(final(entries)@) == entries_map(old(entries)@).remove(name@),
{
    let key = chars_of(name);
    let ghost before = entries@;
    let ghost target = entries_map(before).remove(name@);
    match find(entries, &key) {
        Some(i) => {
            let _removed = entries.swap_remove(i);
            proof {
                let after = entries@;
                let last = before.len() - 1;
                assert forall|a: int, b: int| 0 <= a < after.len() && 0 <= b < after.len() && a != b
                    implies (#[trigger] after[a]).0@ != (#[trigger] after[b]).0@ by {
                    let oa = if a == i { last } else { a };
                    let ob = if b == i { last } else { b };
                    assert(after[a] == before[oa]);
                    assert(after[b] == before[ob]);
                }
                assert forall|k: Seq<char>| #[trigger] entries_map(after).contains_key(k) == target.contains_key(k) by {
                    if has_key(after, k) {
                        let j = choose|j: int| 0 <= j < after.len() && (#[trigger] after[j]).0@ == k;
                        let oj = if j == i { last } else { j };
                        assert(after[j] == before[oj]);
                        assert(oj != i);
                    }
                    if has_key(before, k) && k != name@ {
                        let j = choose|j: int| 0 <= j < before.len() && (#[trigger] before[j]).0@ == k;
                        assert(j != i);
                        if j == last {
                            assert(after[i as int] == before[last]);
                        } else {
                            assert(after[j] == before[j]);
                        }
                    }
                }
                assert forall|k: Seq<char>| #[trigger] entries_map(after).contains_key(k) implies entries_map(after)[k]
                    == target[k] by {
                    let j = choose|j: int| 0 <= j < after.len() && (#[trigger] after[j]).0@ == k;
                    let oj = if j == i { last } else { j };
                    assert(after[j] == before[oj]);
                    lemma_map_at(after, j);
                    lemma_map_at(before, oj);
                }
                assert(entries_map(after) =~= target);
            }
        },
        None => {
            assert(target =~= entries_map(before));
        },
    }
}

} // verus!
