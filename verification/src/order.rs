//! Ordering names as `str`'s `Ord` does (by code point, which for UTF-8 is
//! byte order), and sorting keyed lists by name.
use vstd::prelude::*;
use vstd::seq_lib::*;

use crate::text::chars_of;

verus! {

/// `a <= b` in the lexicographic order of code points.
pub open spec fn lex_le(a: Seq<char>, b: Seq<char>) -> bool
    decreases a.len(),
{
    if a.len() == 0 {
        true
    } else if b.len() == 0 {
        false
    } else if a[0] < b[0] {
        true
    } else if a[0] == b[0] {
        lex_le(a.drop_first(), b.drop_first())
    } else {
        false
    }
}

/// Law: any two names are ordered one way or the other.
pub proof fn lemma_lex_total(a: Seq<char>, b: Seq<char>)
    ensures
        lex_le(a, b) || lex_le(b, a),
    decreases a.len(),
{
    if a.len() > 0 && b.len() > 0 && a[0] == b[0] {
        lemma_lex_total(a.drop_first(), b.drop_first());
    }
}

/// Law: the order is transitive.
pub proof fn lemma_lex_transitive(a: Seq<char>, b: Seq<char>, c: Seq<char>)
    requires
        lex_le(a, b),
        lex_le(b, c),
    ensures
        lex_le(a, c),
    decreases a.len(),
{
    if a.len() > 0 && b.len() > 0 && c.len() > 0 && a[0] == b[0] && b[0] == c[0] {
        lemma_lex_transitive(a.drop_first(), b.drop_first(), c.drop_first());
    }
}

/// Law: names ordered both ways are equal.
pub proof fn lemma_lex_antisymmetric(a: Seq<char>, b: Seq<char>)
    requires
        lex_le(a, b),
        lex_le(b, a),
    ensures
        a == b,
    decreases a.len(),
{
    if a.len() > 0 && b.len() > 0 {
        if a[0] == b[0] {
            lemma_lex_antisymmetric(a.drop_first(), b.drop_first());
            assert(a =~= seq![a[0]] + a.drop_first());
            assert(b =~= seq![b[0]] + b.drop_first());
        }
    } else if a.len() == 0 && b.len() == 0 {
        assert(a =~= b);
    }
}

/// Law: the order is the usual dictionary order of code points, read from
/// the first character: `a` comes first when it is a prefix of `b`, or when
/// at the first position where they differ `a` has the smaller character.
pub proof fn lemma_lex_is_dictionary_order(a: Seq<char>, b: Seq<char>)
    ensures
        lex_le(a, b) <==> ((a.len() <= b.len() && a =~= b.subrange(0, a.len() as int)) || exists|i: int|
            0 <= i < a.len() && i < b.len() && a.subrange(0, i) =~= b.subrange(0, i) && #[trigger] a[i] < b[i]),
        a.len() > 0 && b.len() > 0 && a[0] < b[0] ==> lex_le(a, b) && !lex_le(b, a),
    decreases a.len(),
{
    let prefix = a.len() <= b.len() && a =~= b.subrange(0, a.len() as int);
    let diverges = exists|i: int|
        0 <= i < a.len() && i < b.len() && a.subrange(0, i) =~= b.subrange(0, i) && #[trigger] a[i] < b[i];
    if a.len() == 0 {
        assert(prefix);
    } else if b.len() == 0 {
        assert(!prefix);
        assert(!diverges);
    } else if a[0] < b[0] {
        assert(a.subrange(0, 0) =~= b.subrange(0, 0));
        assert(a[0] < b[0]);
        assert(diverges);
    } else if a[0] == b[0] {
        let a2 = a.drop_first();
        let b2 = b.drop_first();
        lemma_lex_is_dictionary_order(a2, b2);
        let prefix2 = a2.len() <= b2.len() && a2 =~= b2.subrange(0, a2.len() as int);
        let diverges2 = exists|i: int|
            0 <= i < a2.len() && i < b2.len() && a2.subrange(0, i) =~= b2.subrange(0, i) && #[trigger] a2[i] < b2[i];
        if prefix2 {
            assert(a =~= b.subrange(0, a.len() as int)) by {
                assert forall|k: int| 0 <= k < a.len() implies #[trigger] a[k] == b.subrange(0, a.len() as int)[k] by {
                    if k > 0 {
                        assert(a[k] == a2[k - 1]);
                        assert(a2[k - 1] == b2.subrange(0, a2.len() as int)[k - 1]);
                    }
                }
            }
        }
        if prefix {
            assert(a2 =~= b2.subrange(0, a2.len() as int)) by {
                assert forall|k: int| 0 <= k < a2.len() implies #[trigger] a2[k] == b2.subrange(0, a2.len() as int)[k] by {
                    assert(a[k + 1] == b.subrange(0, a.len() as int)[k + 1]);
                }
            }
        }
        if diverges2 {
            let j = choose|i: int|
                0 <= i < a2.len() && i < b2.len() && a2.subrange(0, i) =~= b2.subrange(0, i) && #[trigger] a2[i] < b2[i];
            assert(a.subrange(0, j + 1) =~= b.subrange(0, j + 1)) by {
                assert forall|k: int| 0 <= k < j + 1 implies #[trigger] a.subrange(0, j + 1)[k] == b.subrange(0, j + 1)[k] by {
                    if k > 0 {
                        assert(a2.subrange(0, j)[k - 1] == b2.subrange(0, j)[k - 1]);
                    }
                }
            }
            assert(a[j + 1] < b[j + 1]);
            assert(diverges);
        }
        if diverges {
            let j = choose|i: int|
                0 <= i < a.len() && i < b.len() && a.subrange(0, i) =~= b.subrange(0, i) && #[trigger] a[i] < b[i];
            assert(j > 0);
            assert(a2.subrange(0, j - 1) =~= b2.subrange(0, j - 1)) by {
                assert forall|k: int| 0 <= k < j - 1 implies #[trigger] a2.subrange(0, j - 1)[k] == b2.subrange(0, j - 1)[k] by {
                    assert(a.subrange(0, j)[k + 1] == b.subrange(0, j)[k + 1]);
                }
            }
            assert(a2[j - 1] < b2[j - 1]);
            assert(diverges2);
        }
    } else {
        assert(!prefix) by {
            if a.len() <= b.len() && a =~= b.subrange(0, a.len() as int) {
                assert(a[0] == b.subrange(0, a.len() as int)[0]);
            }
        }
        assert(!diverges) by {
            if diverges {
                let j = choose|i: int|
                    0 <= i < a.len() && i < b.len() && a.subrange(0, i) =~= b.subrange(0, i) && #[trigger] a[i] < b[i];
                if j > 0 {
                    assert(a.subrange(0, j)[0] == b.subrange(0, j)[0]);
                }
            }
        }
    }
}

fn lex_le_exec(a: &Vec<char>, b: &Vec<char>) -> (r: bool)
    ensures
        r == lex_le(a@, b@),
{
    let mut i: usize = 0;
    assert(a@.skip(0) =~= a@);
    assert(b@.skip(0) =~= b@);
    while i < a.len() && i < b.len()
        invariant
            i <= a@.len(),
            i <= b@.len(),
            forall|k: int| 0 <= k < i ==> a@[k] == b@[k],
            lex_le(a@, b@) == lex_le(a@.skip(i as int), b@.skip(i as int)),
        decreases a@.len() - i,
    {
        let x = a[i];
        let y = b[i];
        if x < y {
            return true;
        }
        if x != y {
            return false;
        }
        assert(a@.skip(i as int).drop_first() =~= a@.skip(i + 1));
        assert(b@.skip(i as int).drop_first() =~= b@.skip(i + 1));
        i = i + 1;
    }
    i == a.len()
}

/// The names (first components) are in non-decreasing order.
pub open spec fn sorted_by_name<T>(s: Seq<(String, T)>) -> bool {
    forall|i: int, j: int| 0 <= i < j < s.len() ==> lex_le((#[trigger] s[i]).0@, (#[trigger] s[j]).0@)
}

/// Sorts a list by name.
pub fn sort_by_name<T>(items: Vec<(String, T)>) -> (out: Vec<(String, T)>)
    ensures
        sorted_by_name(out@),
        out@.to_multiset() == items@.to_multiset(),
        out@.len() == items@.len(),
{
    broadcast use group_to_multiset_ensures, vstd::multiset::group_multiset_axioms;

    let mut src = items;
    let ghost all = src@;
    let mut out: Vec<(String, T)> = Vec::new();
    assert(out@.to_multiset().add(src@.to_multiset()) =~= all.to_multiset());
    while src.len() > 0
        invariant
            sorted_by_name(out@),
            out@.to_multiset().add(src@.to_multiset()) == all.to_multiset(),
            out@.len() + src@.len() == all.len(),
        decreases src@.len(),
    {
        let ghost s0 = src@;
        let ghost o0 = out@;
        let x = src.pop().unwrap();
        proof {
            assert(s0 =~= src@.push(x));
        }
        let key = chars_of(x.0.as_str());
        // the first position whose name is strictly greater than x's
        let mut scan: usize = 0;
        let mut found = false;
        while !found && scan < out.len()
            invariant
                scan <= out@.len(),
                out@ == o0,
                key@ == x.0@,
                forall|m: int| 0 <= m < scan ==> lex_le((#[trigger] out@[m]).0@, key@),
                found ==> scan < out@.len() && !lex_le(out@[scan as int].0@, key@),
            decreases out@.len() - scan, if found { 0int } else { 1int },
        {
            let name = chars_of(out[scan].0.as_str());
            if !lex_le_exec(&name, &key) {
                found = true;
            } else {
                scan = scan + 1;
            }
        }
        let k = scan;
        proof {
            if k < o0.len() {
                lemma_lex_total(o0[k as int].0@, key@);
            }
        }
        out.insert(k, x);
        proof {
            let o1 = out@;
            assert forall|i: int, j: int| 0 <= i < j < o1.len() implies lex_le((#[trigger] o1[i]).0@, (#[trigger] o1[j]).0@) by {
                if j < k {
                    assert(o1[i] == o0[i] && o1[j] == o0[j]);
                } else if j == k {
                    assert(o1[i] == o0[i]);
                } else if i == k {
                    assert(o1[j] == o0[j - 1]);
                    if j - 1 > k {
                        assert(lex_le(o0[k as int].0@, o0[j - 1].0@));
                        lemma_lex_transitive(x.0@, o0[k as int].0@, o0[j - 1].0@);
                    }
                } else if i < k {
                    assert(o1[i] == o0[i] && o1[j] == o0[j - 1]);
                    if j - 1 >= k {
                        assert(lex_le(o0[i].0@, key@));
                        if j - 1 > k {
                            assert(lex_le(o0[k as int].0@, o0[j - 1].0@));
                            lemma_lex_transitive(key@, o0[k as int].0@, o0[j - 1].0@);
                        }
                        lemma_lex_transitive(o0[i].0@, key@, o0[j - 1].0@);
                    }
                } else {
                    assert(o1[i] == o0[i - 1] && o1[j] == o0[j - 1]);
                }
            }
            assert(o1.remove(k as int) =~= o0);
            assert(o1[k as int] == x);
            o1.to_multiset_ensures();
            assert(o1.remove(k as int).to_multiset() =~= o1.to_multiset().remove(x));
            assert(o1.contains(x));
            assert(o1.to_multiset().count(x) > 0);
            assert(o1.to_multiset() =~= o0.to_multiset().insert(x));
            src@.to_multiset_ensures();
            assert(s0.to_multiset() =~= src@.to_multiset().insert(x));
            assert(o1.to_multiset().add(src@.to_multiset()) =~= o0.to_multiset().add(s0.to_multiset()));
        }
    }
    proof {
        assert(src@ =~= Seq::<(String, T)>::empty());
        assert(out@.to_multiset().add(src@.to_multiset()) =~= out@.to_multiset());
    }
    out
}

} // verus!
