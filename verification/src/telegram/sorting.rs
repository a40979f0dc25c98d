//! Sorting of candidates.
use vstd::prelude::*;

use crate::double::{less, Double, SIGN};
use crate::order::lemma_units_increase;
use crate::rounding::INFINITE;

verus! {

/// A pool that may make it into a list: where it stands in its source, what is shown
/// of it, and the key that orders the list.
#[derive(Debug, Clone, Copy, PartialEq, Eq, Structural)]
pub struct Candidate {
    pub place: usize,
    pub market_cap: Double,
    pub liquidity: Double,
    pub age_secs: Option<u64>,
    pub volume: Double,
    pub score: Double,
    pub audit_issues: u32,
    pub key: u64,
}

/// A list with one more candidate, behind the last one whose key is not larger.
pub open spec fn inserted(s: Seq<Candidate>, x: Candidate) -> Seq<Candidate>
    decreases s.len(),
{
    if s.len() == 0 {
        seq![x]
    } else if s.last().key <= x.key {
        s.push(x)
    } else {
        inserted(s.drop_last(), x).push(s.last())
    }
}

/// The candidates by increasing key; those with equal keys in the order in which
/// they came.
pub open spec fn in_order(s: Seq<Candidate>) -> Seq<Candidate>
    decreases s.len(),
{
    if s.len() == 0 {
        Seq::empty()
    } else {
        inserted(in_order(s.drop_last()), s.last())
    }
}

proof fn lemma_inserted_at(s: Seq<Candidate>, x: Candidate, at: int)
    requires
        0 <= at <= s.len(),
        at > 0 ==> s[at - 1].key <= x.key,
        forall|i: int| at <= i < s.len() ==> (#[trigger] s[i]).key > x.key,
    ensures
        inserted(s, x) == s.insert(at, x),
    decreases s.len(),
{
    if s.len() == 0 {
        assert(s.insert(at, x) =~= seq![x]);
    } else if at == s.len() {
        assert(s.insert(at, x) =~= s.push(x));
    } else {
        let t = s.drop_last();
        assert(s[s.len() - 1].key > x.key);
        assert forall|i: int| at <= i < t.len() implies (#[trigger] t[i]).key > x.key by {
            assert(s[i].key > x.key);
        }
        lemma_inserted_at(t, x, at);
        assert(t.insert(at, x).push(s.last()) =~= s.insert(at, x));
    }
}

/// Sorts candidates by key, keeping the order of those with equal keys.
pub fn sort_candidates(s: &Vec<Candidate>) -> (r: Vec<Candidate>)
    ensures
        r@ == in_order(s@),
{
    let mut r: Vec<Candidate> = Vec::new();
    let mut i: usize = 0;
    assert(s@.take(0) =~= Seq::<Candidate>::empty());
    while i < s.len()
        invariant
            i <= s@.len(),
            r@ == in_order(s@.take(i as int)),
            r@.len() == i,
        decreases s@.len() - i,
    {
        let x = s[i];
        let mut at: usize = r.len();
        while at > 0 && r[at - 1].key > x.key
            invariant
                at <= r@.len(),
                forall|j: int| at <= j < r@.len() ==> (#[trigger] r@[j]).key > x.key,
            decreases at,
        {
            at = at - 1;
        }
        proof {
            lemma_inserted_at(r@, x, at as int);
            assert(s@.take(i + 1).drop_last() =~= s@.take(i as int));
            assert(s@.take(i + 1).last() == x);
        }
        r.insert(at, x);
        i = i + 1;
    }
    assert(s@.take(i as int) =~= s@);
    r
}

/// Whether keys never decrease.
pub open spec fn ordered(s: Seq<Candidate>) -> bool {
    forall|i: int, j: int|
        #![trigger s[i], s[j]]
        0 <= i < j < s.len() ==> s[i].key <= s[j].key
}

/// The candidates with a given key, in order.
pub open spec fn with_key(s: Seq<Candidate>, key: u64) -> Seq<Candidate>
    decreases s.len(),
{
    if s.len() == 0 {
        Seq::empty()
    } else if s.last().key == key {
        with_key(s.drop_last(), key).push(s.last())
    } else {
        with_key(s.drop_last(), key)
    }
}

proof fn lemma_inserted(s: Seq<Candidate>, x: Candidate, key: u64)
    requires
        ordered(s),
    ensures
        ordered(inserted(s, x)),
        inserted(s, x).len() == s.len() + 1,
        inserted(s, x).to_multiset() == s.to_multiset().insert(x),
        with_key(inserted(s, x), key) == (if x.key == key {
            with_key(s, key).push(x)
        } else {
            with_key(s, key)
        }),
        forall|i: int|
            0 <= i < inserted(s, x).len() ==> (#[trigger] inserted(s, x)[i]).key <= x.key || (
            s.len() > 0 && inserted(s, x)[i].key <= s.last().key),
    decreases s.len(),
{
    broadcast use vstd::seq_lib::group_to_multiset_ensures;

    if s.len() == 0 {
        assert(seq![x] =~= Seq::<Candidate>::empty().push(x));
        assert(seq![x].drop_last() =~= Seq::<Candidate>::empty());
        assert(s =~= Seq::<Candidate>::empty());
    } else if s.last().key <= x.key {
        let r = s.push(x);
        assert(r.drop_last() =~= s);
        assert forall|i: int, j: int|
            #![trigger r[i], r[j]]
            0 <= i < j < r.len() implies r[i].key <= r[j].key by {
            if j == s.len() {
                assert(s[i].key <= s[s.len() - 1].key || i == s.len() - 1);
            } else {
                assert(s[i].key <= s[j].key);
            }
        }
    } else {
        let t = s.drop_last();
        assert(ordered(t)) by {
            assert forall|i: int, j: int|
                #![trigger t[i], t[j]]
                0 <= i < j < t.len() implies t[i].key <= t[j].key by {
                assert(s[i].key <= s[j].key);
            }
        }
        lemma_inserted(t, x, key);
        let u = inserted(t, x);
        let r = u.push(s.last());
        assert(r.drop_last() =~= u);
        assert(s =~= t.push(s.last()));
        assert forall|i: int, j: int|
            #![trigger r[i], r[j]]
            0 <= i < j < r.len() implies r[i].key <= r[j].key by {
            if j == u.len() {
                assert(u[i].key <= x.key || (t.len() > 0 && u[i].key <= t.last().key));
                if t.len() > 0 {
                    assert(s[t.len() - 1].key <= s[s.len() - 1].key);
                }
            } else {
                assert(u[i].key <= u[j].key);
            }
        }
        assert(r.to_multiset() =~= s.to_multiset().insert(x)) by {
            assert(r.to_multiset() =~= u.to_multiset().insert(s.last()));
            assert(s.to_multiset() =~= t.to_multiset().insert(s.last()));
        }
        assert forall|i: int| 0 <= i < r.len() implies (#[trigger] r[i]).key <= x.key || r[i].key
            <= s.last().key by {
            if i < u.len() {
                assert(u[i].key <= x.key || (t.len() > 0 && u[i].key <= t.last().key));
                if t.len() > 0 {
                    assert(s[t.len() - 1].key <= s[s.len() - 1].key);
                }
            }
        }
    }
}

/// Sorting orders the candidates by key, neither loses nor adds one, and keeps the
/// order of those with equal keys.
pub proof fn law_sorting_is_stable(s: Seq<Candidate>, key: u64)
    ensures
        ordered(in_order(s)),
        in_order(s).len() == s.len(),
        in_order(s).to_multiset() == s.to_multiset(),
        with_key(in_order(s), key) == with_key(s, key),
    decreases s.len(),
{
    broadcast use vstd::seq_lib::group_to_multiset_ensures;

    if s.len() > 0 {
        let t = s.drop_last();
        law_sorting_is_stable(t, key);
        lemma_inserted(in_order(t), s.last(), key);
        assert(s =~= t.push(s.last()));
    } else {
        assert(s =~= Seq::<Candidate>::empty());
    }
}

/// The key that puts larger numbers first.
pub open spec fn descending(v: Double) -> u64 {
    (u64::MAX - v.bits) as u64
}

/// The key that puts larger numbers first.
pub fn descending_key(v: Double) -> (r: u64)
    ensures
        r == descending(v),
{
    u64::MAX - v.bits
}

/// Of two numbers that are not negative, the larger one has the smaller key.
pub proof fn law_descending_key(a: Double, b: Double)
    requires
        a.bits <= INFINITE,
        b.bits <= INFINITE,
    ensures
        descending(a) < descending(b) <==> less(b, a),
{
    assert(INFINITE < SIGN);
    if a.bits < b.bits {
        lemma_units_increase(a.magnitude(), b.magnitude());
    }
    if b.bits < a.bits {
        lemma_units_increase(b.magnitude(), a.magnitude());
    }
}

} // verus!
