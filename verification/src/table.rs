//! Small tables and sets that keep the order in which things came.
use vstd::prelude::*;

use crate::address::Address;

verus! {

/// A key that can be told apart from another one.
pub trait Key: Copy {
    fn equals(self, other: Self) -> (r: bool)
        ensures
            r == (self == other),
    ;
}

impl Key for u64 {
    fn equals(self, other: u64) -> (r: bool) {
        self == other
    }
}

impl Key for Address {
    fn equals(self, other: Address) -> (r: bool) {
        self == other
    }
}

/// Whether no key occurs twice.
pub open spec fn distinct_keys<K, V>(s: Seq<(K, V)>) -> bool {
    forall|i: int, j: int|
        #![trigger s[i], s[j]]
        0 <= i < s.len() && 0 <= j < s.len() && i != j ==> s[i].0 != s[j].0
}

/// What stands under each key; the last entry counts.
pub open spec fn table<K, V>(s: Seq<(K, V)>) -> Map<K, V>
    decreases s.len(),
{
    if s.len() == 0 {
        Map::empty()
    } else {
        table(s.drop_last()).insert(s.last().0, s.last().1)
    }
}

/// A key stands in the table exactly if an entry has it.
pub proof fn lemma_table_dom<K, V>(s: Seq<(K, V)>, k: K)
    ensures
        table(s).dom().contains(k) <==> exists|i: int| 0 <= i < s.len() && (#[trigger] s[i]).0 == k,
    decreases s.len(),
{
    if s.len() > 0 {
        let t = s.drop_last();
        lemma_table_dom(t, k);
        if table(s).dom().contains(k) {
            if s.last().0 == k {
                assert(s[s.len() - 1].0 == k);
            } else {
                let i = choose|i: int| 0 <= i < t.len() && (#[trigger] t[i]).0 == k;
                assert(s[i].0 == k);
            }
        }
        if exists|i: int| 0 <= i < s.len() && (#[trigger] s[i]).0 == k {
            let i = choose|i: int| 0 <= i < s.len() && (#[trigger] s[i]).0 == k;
            if i < t.len() {
                assert(t[i].0 == k);
            }
        }
    }
}

/// An entry's value stands under its key.
pub proof fn lemma_table_at<K, V>(s: Seq<(K, V)>, i: int)
    requires
        distinct_keys(s),
        0 <= i < s.len(),
    ensures
        table(s).dom().contains(s[i].0),
        table(s)[s[i].0] == s[i].1,
    decreases s.len(),
{
    let t = s.drop_last();
    if i < t.len() {
        assert(distinct_keys(t)) by {
            assert forall|a: int, b: int|
                #![trigger t[a], t[b]]
                0 <= a < t.len() && 0 <= b < t.len() && a != b implies t[a].0 != t[b].0 by {
                assert(s[a].0 != s[b].0);
            }
        }
        lemma_table_at(t, i);
        assert(s[i] == t[i]);
        assert(s[i].0 != s[s.len() - 1].0);
    }
}

/// Replacing an entry's value replaces what stands under its key.
pub proof fn lemma_table_update<K, V>(s: Seq<(K, V)>, i: int, v: V)
    requires
        distinct_keys(s),
        0 <= i < s.len(),
    ensures
        distinct_keys(s.update(i, (s[i].0, v))),
        table(s.update(i, (s[i].0, v))) == table(s).insert(s[i].0, v),
{
    let u = s.update(i, (s[i].0, v));
    assert forall|a: int, b: int|
        #![trigger u[a], u[b]]
        0 <= a < u.len() && 0 <= b < u.len() && a != b implies u[a].0 != u[b].0 by {
        assert(s[a].0 != s[b].0);
    }
    assert forall|k: K| table(u).dom().contains(k) <==> table(s).insert(s[i].0, v).dom().contains(
        k,
    ) by {
        lemma_table_dom(u, k);
        lemma_table_dom(s, k);
        if exists|j: int| 0 <= j < u.len() && (#[trigger] u[j]).0 == k {
            let j = choose|j: int| 0 <= j < u.len() && (#[trigger] u[j]).0 == k;
            assert(s[j].0 == k);
        }
        if exists|j: int| 0 <= j < s.len() && (#[trigger] s[j]).0 == k {
            let j = choose|j: int| 0 <= j < s.len() && (#[trigger] s[j]).0 == k;
            assert(u[j].0 == k);
        }
        if k == s[i].0 {
            assert(u[i].0 == k);
        }
    }
    assert forall|k: K| table(u).dom().contains(k) implies table(u)[k] == table(s).insert(
        s[i].0,
        v,
    )[k] by {
        lemma_table_dom(u, k);
        let j = choose|j: int| 0 <= j < u.len() && (#[trigger] u[j]).0 == k;
        lemma_table_at(u, j);
        lemma_table_at(s, j);
        if j != i {
            assert(s[j].0 != s[i].0);
        }
    }
    assert(table(u) =~= table(s).insert(s[i].0, v));
}

/// The place of the first entry under `k`; the table's length if there is none.
pub fn place_of<K: Key, V>(s: &Vec<(K, V)>, k: K) -> (r: usize)
    ensures
        r <= s@.len(),
        r < s@.len() ==> s@[r as int].0 == k,
        r == s@.len() ==> forall|i: int| 0 <= i < s@.len() ==> (#[trigger] s@[i]).0 != k,
{
    let mut i: usize = 0;
    while i < s.len()
        invariant
            i <= s@.len(),
            forall|j: int| 0 <= j < i ==> (#[trigger] s@[j]).0 != k,
        decreases s@.len() - i,
    {
        let found = s[i].0;
        if found.equals(k) {
            return i;
        }
        i = i + 1;
    }
    i
}

/// Puts a value under a key, in place of the one that stood there.
pub fn put<K: Key, V>(s: &mut Vec<(K, V)>, k: K, v: V)
    requires
        distinct_keys(old(s)@),
    ensures
        distinct_keys(final(s)@),
        table(final(s)@) == table(old(s)@).insert(k, v),
{
    let i: usize = place_of(s, k);
    let ghost before = s@;
    if i < s.len() {
        proof {
            lemma_table_update(before, i as int, v);
        }
        s.set(i, (k, v));
    } else {
        s.push((k, v));
        proof {
            let u = s@;
            assert forall|a: int, b: int|
                #![trigger u[a], u[b]]
                0 <= a < u.len() && 0 <= b < u.len() && a != b implies u[a].0 != u[b].0 by {
                if a < before.len() && b < before.len() {
                    assert(before[a].0 != before[b].0);
                } else if a < before.len() {
                    assert(before[a].0 != k);
                } else {
                    assert(before[b].0 != k);
                }
            }
            assert(u.drop_last() =~= before);
        }
    }
}

/// Whether `k` is in a list.
pub fn holds<K: Key>(s: &Vec<K>, k: K) -> (r: bool)
    ensures
        r == s@.contains(k),
{
    let mut i: usize = 0;
    while i < s.len()
        invariant
            i <= s@.len(),
            forall|j: int| 0 <= j < i ==> s@[j] != k,
        decreases s@.len() - i,
    {
        if s[i].equals(k) {
            return true;
        }
        i = i + 1;
    }
    false
}

/// Adds `k` to a list that does not hold it yet.
pub fn note<K: Key>(s: &mut Vec<K>, k: K)
    requires
        old(s)@.no_duplicates(),
    ensures
        final(s)@.no_duplicates(),
        final(s)@.to_set() == old(s)@.to_set().insert(k),
{
    let ghost before = s@;
    if holds(s, k) {
        assert(before.to_set().insert(k) =~= before.to_set());
    } else {
        s.push(k);
        proof {
            assert forall|x: K| s@.to_set().contains(x) <==> before.to_set().insert(k).contains(
                x,
            ) by {
                if s@.contains(x) {
                    let i = choose|i: int| 0 <= i < s@.len() && s@[i] == x;
                    if i < before.len() {
                        assert(before[i] == x);
                    }
                }
                if before.contains(x) {
                    let i = choose|i: int| 0 <= i < before.len() && before[i] == x;
                    assert(s@[i] == x);
                }
                assert(s@[before.len() as int] == k);
            }
            assert(s@.to_set() =~= before.to_set().insert(k));
        }
    }
}

} // verus!
