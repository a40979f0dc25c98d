//! Which pools a list holds.
use vstd::arithmetic::power2::{lemma2_to64, lemma2_to64_rest};
use vstd::prelude::*;

use crate::chain::dexscreener::DexScreenerPair;
use crate::chain::dextools::DextoolsRankedPool;
use crate::closeness::lemma_integer;
use crate::double::{less, one_units, units_of, Double};
use crate::numbers::{HUNDRED_THOUSAND, TWO_HUNDRED_THOUSAND};
use crate::telegram::lookup::busy_places;
use crate::telegram::ranking::{
    busy_v3_places, graded_candidate, graded_candidates, labelled_v3, ranked_candidate,
    ranked_candidates, top_ten, uniswap_candidate, uniswap_candidates, uniswap_places, v3_places,
    with_candidate,
};
use crate::telegram::sorting::Candidate;
use crate::text::{contains_text, lowercase};

verus! {

/// Whether places are in the order of what they are places in.
pub open spec fn ascending(places: Seq<usize>) -> bool {
    forall|i: int, j: int|
        #![trigger places[i], places[j]]
        0 <= i < j < places.len() ==> places[i] < places[j]
}

proof fn lemma_thresholds()
    ensures
        units_of(HUNDRED_THOUSAND as nat) == 100_000 * one_units(),
        units_of(TWO_HUNDRED_THOUSAND as nat) == 200_000 * one_units(),
{
    lemma2_to64();
    lemma2_to64_rest();
    lemma_integer(HUNDRED_THOUSAND, 100_000, 36);
    lemma_integer(TWO_HUNDRED_THOUSAND, 200_000, 35);
}

proof fn lemma_pushed(s: Seq<usize>, x: usize, y: usize)
    ensures
        s.push(x).contains(y) <==> s.contains(y) || x == y,
{
    if s.contains(y) {
        let i = choose|i: int| 0 <= i < s.len() && s[i] == y;
        assert(s.push(x)[i] == y);
    }
    if x == y {
        assert(s.push(x)[s.len() as int] == y);
    }
}

/// A search shows the pairs that traded at least $200k in the last day, all of them and
/// no others, in the order in which they were found.
pub proof fn law_search_finds_busy_pairs(pairs: Seq<DexScreenerPair>, n: nat, place: usize)
    requires
        n <= pairs.len(),
        n <= usize::MAX,
        forall|i: int| 0 <= i < pairs.len() ==> !(#[trigger] pairs[i]).volume.h24.nan(),
    ensures
        busy_places(pairs, n).contains(place) <==> place < n
            && pairs[place as int].volume.h24.units() >= 200_000 * one_units(),
        ascending(busy_places(pairs, n)),
        forall|i: int|
            0 <= i < busy_places(pairs, n).len() ==> (#[trigger] busy_places(pairs, n)[i]) < n,
    decreases n,
{
    lemma_thresholds();
    if n > 0 {
        let m = (n - 1) as nat;
        law_search_finds_busy_pairs(pairs, m, place);
        lemma_pushed(busy_places(pairs, m), m as usize, place);
        assert(!pairs[m as int].volume.h24.nan());
    }
}

/// The hot pools that are looked at are the ones of an exchange that is called after
/// Uniswap and that have a fee, all of them and no others, in their order.
pub proof fn law_hot_pools_are_of_uniswap(pools: Seq<DextoolsRankedPool>, n: nat, place: usize)
    requires
        n <= pools.len(),
        n <= usize::MAX,
    ensures
        uniswap_places(pools, n).contains(place) <==> place < n && contains_text(
            lowercase(pools[place as int].exchange_name@),
            "uniswap"@,
        ) && less(Double { bits: 0 }, pools[place as int].fee),
        ascending(uniswap_places(pools, n)),
        forall|i: int|
            0 <= i < uniswap_places(pools, n).len() ==> (#[trigger] uniswap_places(pools, n)[i])
                < n,
    decreases n,
{
    if n > 0 {
        let m = (n - 1) as nat;
        law_hot_pools_are_of_uniswap(pools, m, place);
        lemma_pushed(uniswap_places(pools, m), m as usize, place);
    }
}

/// Of the pairs that are kept, those of Uniswap with a label of v3 are looked at, all of
/// them and no others.
pub proof fn law_v3_pairs_are_picked(
    pairs: Seq<DexScreenerPair>,
    kept: Seq<usize>,
    n: nat,
    place: usize,
)
    requires
        n <= kept.len(),
    ensures
        v3_places(pairs, kept, n).contains(place) <==> kept.take(n as int).contains(place)
            && contains_text(lowercase(pairs[place as int].dex_id@), "uniswap"@) && labelled_v3(
            pairs[place as int].labels,
        ),
    decreases n,
{
    if n > 0 {
        let m = (n - 1) as nat;
        law_v3_pairs_are_picked(pairs, kept, m, place);
        lemma_pushed(v3_places(pairs, kept, m), kept[m as int], place);
        assert(kept.take(n as int) =~= kept.take(m as int).push(kept[m as int]));
        lemma_pushed(kept.take(m as int), kept[m as int], place);
    }
}

/// Of these, the ones that traded at least $100k in the last day stay, all of them and no
/// others.
pub proof fn law_busy_v3_pairs_stay(
    pairs: Seq<DexScreenerPair>,
    v3: Seq<usize>,
    n: nat,
    place: usize,
)
    requires
        n <= v3.len(),
        forall|i: int| 0 <= i < v3.len() ==> !pairs[(#[trigger] v3[i]) as int].volume.h24.nan(),
    ensures
        busy_v3_places(pairs, v3, n).contains(place) <==> v3.take(n as int).contains(place)
            && pairs[place as int].volume.h24.units() >= 100_000 * one_units(),
    decreases n,
{
    lemma_thresholds();
    if n > 0 {
        let m = (n - 1) as nat;
        law_busy_v3_pairs_stay(pairs, v3, m, place);
        lemma_pushed(busy_v3_places(pairs, v3, m), v3[m as int], place);
        assert(v3.take(n as int) =~= v3.take(m as int).push(v3[m as int]));
        lemma_pushed(v3.take(m as int), v3[m as int], place);
        assert(!pairs[v3[m as int] as int].volume.h24.nan());
    }
}

proof fn lemma_added(s: Seq<Candidate>, c: Option<Candidate>, x: Candidate)
    ensures
        with_candidate(s, c).contains(x) <==> s.contains(x) || c == Some(x),
{
    if c is Some {
        let t = s.push(c->0);
        if s.contains(x) {
            let i = choose|i: int| 0 <= i < s.len() && s[i] == x;
            assert(t[i] == x);
        }
        if c->0 == x {
            assert(t[s.len() as int] == x);
        }
    }
}

/// No pool that qualifies is left out of a ranking, and none is in it that does not: the
/// candidates are exactly those that the pools make, each with its own pair.
pub proof fn law_every_hot_candidate_counts(
    pools: Seq<DextoolsRankedPool>,
    places: Seq<usize>,
    pairs: Seq<Option<DexScreenerPair>>,
    now_ms: u64,
    n: nat,
    x: Candidate,
)
    ensures
        ranked_candidates(pools, places, pairs, now_ms, n).contains(x) <==> exists|i: int|
            0 <= i < n && ranked_candidate(
                places[i],
                pools[places[i] as int].rank,
                #[trigger] pairs[i],
                now_ms,
            ) == Some(x),
    decreases n,
{
    if n > 0 {
        let m = (n - 1) as nat;
        law_every_hot_candidate_counts(pools, places, pairs, now_ms, m, x);
        let c = ranked_candidate(
            places[m as int],
            pools[places[m as int] as int].rank,
            pairs[m as int],
            now_ms,
        );
        lemma_added(ranked_candidates(pools, places, pairs, now_ms, m), c, x);
        if c == Some(x) {
            assert(pairs[m as int] == pairs[m as int]);
        }
    }
}

/// No candidate that is good enough is left out of the graded list, and none is in it
/// that is not: each is graded by its own score and its own issues.
pub proof fn law_every_grade_counts(
    s: Seq<Candidate>,
    scores: Seq<Option<Double>>,
    issues: Seq<Option<u32>>,
    n: nat,
    x: Candidate,
)
    ensures
        graded_candidates(s, scores, issues, n).contains(x) <==> exists|i: int|
            0 <= i < n && graded_candidate(#[trigger] s[i], scores[i], issues[i]) == Some(x),
    decreases n,
{
    if n > 0 {
        let m = (n - 1) as nat;
        law_every_grade_counts(s, scores, issues, m, x);
        let c = graded_candidate(s[m as int], scores[m as int], issues[m as int]);
        lemma_added(graded_candidates(s, scores, issues, m), c, x);
        if c == Some(x) {
            assert(s[m as int] == s[m as int]);
        }
    }
}

/// No pair that qualifies is left out of the list of Uniswap pools, and none is in it
/// that does not.
pub proof fn law_every_uniswap_candidate_counts(
    pairs: Seq<DexScreenerPair>,
    busy: Seq<usize>,
    now_ms: u64,
    n: nat,
    x: Candidate,
)
    ensures
        uniswap_candidates(pairs, busy, now_ms, n).contains(x) <==> exists|i: int|
            0 <= i < n && uniswap_candidate(
                #[trigger] busy[i],
                pairs[busy[i] as int],
                now_ms,
            ) == Some(x),
    decreases n,
{
    if n > 0 {
        let m = (n - 1) as nat;
        law_every_uniswap_candidate_counts(pairs, busy, now_ms, m, x);
        let c = uniswap_candidate(busy[m as int], pairs[busy[m as int] as int], now_ms);
        lemma_added(uniswap_candidates(pairs, busy, now_ms, m), c, x);
        if c == Some(x) {
            assert(busy[m as int] == busy[m as int]);
        }
    }
}

/// A list shows all of its pools, but no more than ten.
pub proof fn law_ten_at_most(n: nat)
    ensures
        top_ten(n) <= 10,
        top_ten(n) <= n,
        top_ten(n) == n || top_ten(n) == 10,
{
}

} // verus!
