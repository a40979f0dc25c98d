//! The two top-ten commands.
use vstd::prelude::*;
use vstd::string::*;

use crate::chain::dexscreener::DexScreenerPair;
use crate::chain::dextools::DextoolsRankedPool;
use crate::config::AppConfig;
use crate::decimal::{decimal, push_decimal};
use crate::double::{at_most, less, product_of, quotient_of, sum_of, Double};
use crate::fixed::{fixed, push_fixed};
use crate::numbers::{
    FIFTY, FOUR_TENTHS, HALF_MILLION, HUNDRED, HUNDRED_THOUSAND, MILLION, SEVENTY, SIX_TENTHS,
    TWENTY_THOUSAND, TWO_HUNDRED_THOUSAND,
};
use crate::order::{lemma_units_increase, smaller_of};
use crate::rounding::INFINITE;
use crate::telegram::lookup::{copy_button_data, copy_data, liquidity_of};
use crate::telegram::message::OutMessage;
use crate::telegram::sorting::{
    descending, descending_key, in_order, law_descending_key, law_sorting_is_stable,
    sort_candidates, Candidate,
};
use crate::telegram::units::{
    age_seconds, coarse, coarse_age, fmt_compact_nk, seconds_since, short_age,
};
use crate::text::{
    contains, contains_text, lowercase, same, texts, to_lowercase, trim, trimmed,
};

verus! {

/// What the `/dextools_top10` command comes to: the first message, and whether the
/// scan goes on after it.
pub fn handle_dextools_top10_command(cfg: &AppConfig) -> (r: (bool, OutMessage))
    ensures
        r.0 == (trimmed(cfg.dextools_api_key@).len() > 0),
        r.1.says(
            if r.0 {
                "🔍 Scanning DexTools top pools for Robinhood chain…"@
            } else {
                "❌ DexTools API key not configured.\nAdd `dextools_api_key = \"your-key\"` to config.toml and restart.\nGet a key at https://developer.dextools.io"@
            },
            false,
        ),
{
    if trim(cfg.dextools_api_key.as_str()).as_str().is_empty() {
        (
            false,
            OutMessage::plain(
                String::from_str(
                    "❌ DexTools API key not configured.\nAdd `dextools_api_key = \"your-key\"` to config.toml and restart.\nGet a key at https://developer.dextools.io",
                ),
            ),
        )
    } else {
        (
            true,
            OutMessage::plain(
                String::from_str("🔍 Scanning DexTools top pools for Robinhood chain…"),
            ),
        )
    }
}

/// What is said where the ranking cannot be had.
pub fn dextools_error(error: &str) -> (r: OutMessage)
    ensures
        r.says("❌ DexTools API error:\n`"@ + error@ + "`"@, true),
{
    let mut text = String::from_str("❌ DexTools API error:\n`");
    text.append(error);
    text.append("`");
    OutMessage::marked(text)
}

/// Whether a pool is one of Uniswap v3, by its exchange's name in lower case and its
/// fee.
pub fn is_uniswap_pool(lowered_exchange: &str, fee: Double) -> (r: bool)
    ensures
        r == (contains_text(lowered_exchange@, "uniswap"@) && less(Double { bits: 0 }, fee)),
{
    contains(lowered_exchange, "uniswap") && (Double { bits: 0 }).less_than(fee)
}

pub open spec fn uniswap_pool(pool: DextoolsRankedPool) -> bool {
    contains_text(lowercase(pool.exchange_name@), "uniswap"@) && less(Double { bits: 0 }, pool.fee)
}

/// The places of the Uniswap v3 pools among the first `n`.
pub open spec fn uniswap_places(pools: Seq<DextoolsRankedPool>, n: nat) -> Seq<usize>
    decreases n,
{
    if n == 0 {
        Seq::empty()
    } else if uniswap_pool(pools[n - 1]) {
        uniswap_places(pools, (n - 1) as nat).push((n - 1) as usize)
    } else {
        uniswap_places(pools, (n - 1) as nat)
    }
}

/// The places of the Uniswap v3 pools in a ranking, or what is said where there are
/// none.
pub fn hot_uniswap_pools(pools: &Vec<DextoolsRankedPool>) -> (r: Result<Vec<usize>, OutMessage>)
    ensures
        if pools@.len() == 0 {
            r matches Err(m) && m.says(
                "No hot pools found on DexTools for Robinhood chain."@,
                false,
            )
        } else if uniswap_places(pools@, pools@.len()).len() == 0 {
            r matches Err(m) && m.says(
                "No Uniswap v3 pools in the DexTools hot list for Robinhood chain."@,
                false,
            )
        } else {
            r matches Ok(places) && places@ == uniswap_places(pools@, pools@.len())
        },
        r matches Ok(places) ==> forall|i: int|
            0 <= i < places@.len() ==> (#[trigger] places@[i]) < pools@.len(),
{
    if pools.len() == 0 {
        return Err(
            OutMessage::plain(
                String::from_str("No hot pools found on DexTools for Robinhood chain."),
            ),
        );
    }
    let mut places: Vec<usize> = Vec::new();
    let mut i: usize = 0;
    while i < pools.len()
        invariant
            i <= pools@.len(),
            places@ == uniswap_places(pools@, i as nat),
            forall|j: int| 0 <= j < places@.len() ==> (#[trigger] places@[j]) < pools@.len(),
        decreases pools@.len() - i,
    {
        let lowered = to_lowercase(pools[i].exchange_name.as_str());
        if is_uniswap_pool(lowered.as_str(), pools[i].fee) {
            places.push(i);
        }
        i = i + 1;
    }
    if places.len() == 0 {
        Err(
            OutMessage::plain(
                String::from_str(
                    "No Uniswap v3 pools in the DexTools hot list for Robinhood chain.",
                ),
            ),
        )
    } else {
        Ok(places)
    }
}

/// A pair's market cap, or else its fully diluted value.
pub open spec fn cap_of(p: DexScreenerPair) -> Double {
    match p.market_cap {
        Some(v) => v,
        None => match p.fdv {
            Some(v) => v,
            None => Double { bits: 0 },
        },
    }
}

fn cap(p: &DexScreenerPair) -> (r: Double)
    ensures
        r == cap_of(*p),
{
    match p.market_cap {
        Some(v) => v,
        None => match p.fdv {
            Some(v) => v,
            None => Double { bits: 0 },
        },
    }
}

pub open spec fn depth_of(p: DexScreenerPair) -> Double {
    match liquidity_of(p) {
        Some(v) => v,
        None => Double { bits: 0 },
    }
}

fn depth(p: &DexScreenerPair) -> (r: Double)
    ensures
        r == depth_of(*p),
{
    match p.liquidity {
        Some(l) => l.usd,
        None => Double { bits: 0 },
    }
}

/// A ranked pool with enough volume in the last hour.
pub open spec fn ranked_candidate(
    place: usize,
    rank: u64,
    pair: Option<DexScreenerPair>,
    now_ms: u64,
) -> Option<Candidate> {
    match pair {
        Some(p) => if less(p.volume.h1, Double { bits: TWO_HUNDRED_THOUSAND }) {
            None
        } else {
            Some(
                Candidate {
                    place,
                    market_cap: cap_of(p),
                    liquidity: depth_of(p),
                    age_secs: seconds_since(p.pair_created_at, now_ms),
                    volume: p.volume.h1,
                    score: Double { bits: 0 },
                    audit_issues: 0,
                    key: rank,
                },
            )
        },
        None => None,
    }
}

/// A list with one more candidate, if there is one.
pub open spec fn with_candidate(s: Seq<Candidate>, c: Option<Candidate>) -> Seq<Candidate> {
    match c {
        Some(x) => s.push(x),
        None => s,
    }
}

/// The candidates among the first `n` places of a ranking.
pub open spec fn ranked_candidates(
    pools: Seq<DextoolsRankedPool>,
    places: Seq<usize>,
    pairs: Seq<Option<DexScreenerPair>>,
    now_ms: u64,
    n: nat,
) -> Seq<Candidate>
    decreases n,
{
    if n == 0 {
        Seq::empty()
    } else {
        with_candidate(
            ranked_candidates(pools, places, pairs, now_ms, (n - 1) as nat),
            ranked_candidate(
                places[n - 1],
                pools[places[n - 1] as int].rank,
                pairs[n - 1],
                now_ms,
            ),
        )
    }
}

/// The pools of a ranking with at least $200k volume in the last hour, given what
/// DexScreener knows of each, or what is said where there are none.
pub fn busy_pools(
    pools: &Vec<DextoolsRankedPool>,
    places: &Vec<usize>,
    pairs: &Vec<Option<DexScreenerPair>>,
    now_ms: u64,
) -> (r: Result<Vec<Candidate>, OutMessage>)
    requires
        places@.len() == pairs@.len(),
        forall|i: int| 0 <= i < places@.len() ==> (#[trigger] places@[i]) < pools@.len(),
    ensures
        ({
            let found = ranked_candidates(pools@, places@, pairs@, now_ms, places@.len());
            if found.len() == 0 {
                r matches Err(m) && m.says(
                    "No Uniswap v3 pools on Robinhood chain with >=$200k 1h volume found on DexScreener."@,
                    false,
                )
            } else {
                r matches Ok(c) && c@ == found
            }
        }),
        r matches Ok(c) ==> forall|i: int|
            0 <= i < c@.len() ==> (#[trigger] c@[i]).place < pools@.len(),
{
    let mut found: Vec<Candidate> = Vec::new();
    let mut i: usize = 0;
    while i < places.len()
        invariant
            i <= places@.len(),
            places@.len() == pairs@.len(),
            forall|j: int| 0 <= j < places@.len() ==> (#[trigger] places@[j]) < pools@.len(),
            found@ == ranked_candidates(pools@, places@, pairs@, now_ms, i as nat),
            forall|j: int| 0 <= j < found@.len() ==> (#[trigger] found@[j]).place < pools@.len(),
        decreases places@.len() - i,
    {
        let place: usize = places[i];
        assert(places@[i as int] < pools@.len());
        match &pairs[i] {
            Some(p) => {
                if !p.volume.h1.less_than(Double { bits: TWO_HUNDRED_THOUSAND }) {
                    found.push(
                        Candidate {
                            place,
                            market_cap: cap(p),
                            liquidity: depth(p),
                            age_secs: age_seconds(p.pair_created_at, now_ms),
                            volume: p.volume.h1,
                            score: Double { bits: 0 },
                            audit_issues: 0,
                            key: pools[place].rank,
                        },
                    );
                }
            },
            None => {},
        }
        i = i + 1;
    }
    if found.len() == 0 {
        Err(
            OutMessage::plain(
                String::from_str(
                    "No Uniswap v3 pools on Robinhood chain with >=$200k 1h volume found on DexScreener.",
                ),
            ),
        )
    } else {
        Ok(found)
    }
}

/// A candidate with its score and its audit, if it is good enough: a score of at
/// least 70 and at most three issues. What is not known counts against it.
pub open spec fn graded_candidate(
    c: Candidate,
    score: Option<Double>,
    issues: Option<u32>,
) -> Option<Candidate> {
    let total = match score {
        Some(s) => s,
        None => Double { bits: 0 },
    };
    let count = match issues {
        Some(k) => k,
        None => 99,
    };
    if less(total, Double { bits: SEVENTY }) || count > 3 {
        None
    } else {
        Some(Candidate { score: total, audit_issues: count, ..c })
    }
}

pub open spec fn graded_candidates(
    s: Seq<Candidate>,
    scores: Seq<Option<Double>>,
    issues: Seq<Option<u32>>,
    n: nat,
) -> Seq<Candidate>
    decreases n,
{
    if n == 0 {
        Seq::empty()
    } else {
        with_candidate(
            graded_candidates(s, scores, issues, (n - 1) as nat),
            graded_candidate(s[n - 1], scores[n - 1], issues[n - 1]),
        )
    }
}

/// What is shown before the age: the audit's outcome.
pub open spec fn shield(issues: u32) -> Seq<char> {
    if issues == 0 {
        "🛡️ A"@
    } else {
        "🛡️"@ + decimal(issues as nat) + " A"@
    }
}

/// The text on the pool in place `i` of a list.
pub open spec fn ranked_text(
    i: nat,
    symbol0: Seq<char>,
    symbol1: Seq<char>,
    c: Candidate,
    audited: bool,
    address: Seq<char>,
) -> Seq<char> {
    "📊 *#"@ + decimal(i + 1) + " "@ + symbol0 + " / "@ + symbol1 + "*\nM"@ + coarse(c.market_cap)
        + " V"@ + coarse(c.volume) + " L"@ + coarse(c.liquidity) + " S"@ + fixed(c.score, 0) + " "@
        + (if audited {
        shield(c.audit_issues)
    } else {
        "A"@
    }) + coarse_age(c.age_secs) + "\n"@ + address
}

/// The message on the pool in place `i` of a list, given its address in lower case.
pub fn ranked_message(
    i: usize,
    symbol0: &str,
    symbol1: &str,
    c: Candidate,
    audited: bool,
    address: &str,
) -> (r: OutMessage)
    requires
        i < usize::MAX,
    ensures
        r.offers(
            ranked_text(i as nat, symbol0@, symbol1@, c, audited, address@),
            "📋 Copy pool address"@,
            copy_data(address@),
        ),
{
    let mark = if !audited {
        String::from_str("A")
    } else if c.audit_issues == 0 {
        String::from_str("🛡️ A")
    } else {
        let mut issues = String::from_str("🛡️");
        push_decimal(&mut issues, c.audit_issues as u128);
        issues.append(" A");
        issues
    };
    let mut text = String::from_str("📊 *#");
    push_decimal(&mut text, (i + 1) as u128);
    text.append(" ");
    text.append(symbol0);
    text.append(" / ");
    text.append(symbol1);
    text.append("*\nM");
    text.append(fmt_compact_nk(c.market_cap).as_str());
    text.append(" V");
    text.append(fmt_compact_nk(c.volume).as_str());
    text.append(" L");
    text.append(fmt_compact_nk(c.liquidity).as_str());
    text.append(" S");
    push_fixed(&mut text, c.score, 0);
    text.append(" ");
    text.append(mark.as_str());
    text.append(short_age(c.age_secs).as_str());
    text.append("\n");
    text.append(address);
    OutMessage::with_button(text, "📋 Copy pool address", copy_button_data(address))
}

/// How many of a list are shown.
pub open spec fn top_ten(n: nat) -> nat {
    if n > 10 {
        10
    } else {
        n
    }
}

proof fn lemma_places_kept(s: Seq<Candidate>, bound: nat)
    requires
        forall|i: int| 0 <= i < s.len() ==> (#[trigger] s[i]).place < bound,
    ensures
        in_order(s).len() == s.len(),
        forall|i: int| 0 <= i < in_order(s).len() ==> (#[trigger] in_order(s)[i]).place < bound,
{
    broadcast use vstd::seq_lib::group_to_multiset_ensures;

    let t = in_order(s);
    law_sorting_is_stable(s, 0);
    assert forall|i: int| 0 <= i < t.len() implies (#[trigger] t[i]).place < bound by {
        assert(t.contains(t[i]));
        assert(t.to_multiset().count(t[i]) > 0);
        assert(s.to_multiset().count(t[i]) > 0);
        assert(s.contains(t[i]));
    }
}

/// Whether a message shows a ranked pool in place `i`.
pub open spec fn shows_ranked(m: OutMessage, i: nat, pool: DextoolsRankedPool, c: Candidate) -> bool {
    m.offers(
        ranked_text(
            i,
            pool.main_token.symbol@,
            pool.side_token.symbol@,
            c,
            true,
            lowercase(pool.address@),
        ),
        "📋 Copy pool address"@,
        copy_data(lowercase(pool.address@)),
    )
}

/// The top ten of a ranking, by rank: a message on each pool with a score of at least
/// 70 and at most three audit issues, or that there are none.
pub fn dextools_messages(
    pools: &Vec<DextoolsRankedPool>,
    candidates: &Vec<Candidate>,
    scores: &Vec<Option<Double>>,
    issues: &Vec<Option<u32>>,
) -> (r: Vec<OutMessage>)
    requires
        candidates@.len() == scores@.len(),
        candidates@.len() == issues@.len(),
        forall|i: int| 0 <= i < candidates@.len() ==> (#[trigger] candidates@[i]).place < pools@.len(),
    ensures
        ({
            let list = in_order(
                graded_candidates(candidates@, scores@, issues@, candidates@.len()),
            );
            if list.len() == 0 {
                r@.len() == 1 && r@[0].says(
                    "No pools passed all filters (Uniswap v3 + >=$200k 1h vol + score >=70 + audit issues <=3)."@,
                    false,
                )
            } else {
                r@.len() == top_ten(list.len()) && forall|i: int|
                    0 <= i < r@.len() ==> shows_ranked(
                        #[trigger] r@[i],
                        i as nat,
                        pools@[list[i].place as int],
                        list[i],
                    )
            }
        }),
{
    let mut graded: Vec<Candidate> = Vec::new();
    let mut i: usize = 0;
    while i < candidates.len()
        invariant
            i <= candidates@.len(),
            candidates@.len() == scores@.len(),
            candidates@.len() == issues@.len(),
            forall|j: int|
                0 <= j < candidates@.len() ==> (#[trigger] candidates@[j]).place < pools@.len(),
            graded@ == graded_candidates(candidates@, scores@, issues@, i as nat),
            forall|j: int| 0 <= j < graded@.len() ==> (#[trigger] graded@[j]).place < pools@.len(),
        decreases candidates@.len() - i,
    {
        let c = candidates[i];
        assert(candidates@[i as int].place < pools@.len());
        let score = match scores[i] {
            Some(s) => s,
            None => Double { bits: 0 },
        };
        let count: u32 = match issues[i] {
            Some(k) => k,
            None => 99,
        };
        if !score.less_than(Double { bits: SEVENTY }) && count <= 3 {
            graded.push(
                Candidate {
                    place: c.place,
                    market_cap: c.market_cap,
                    liquidity: c.liquidity,
                    age_secs: c.age_secs,
                    volume: c.volume,
                    score,
                    audit_issues: count,
                    key: c.key,
                },
            );
        }
        i = i + 1;
    }
    let list = sort_candidates(&graded);
    proof {
        lemma_places_kept(graded@, pools@.len());
    }
    let mut messages: Vec<OutMessage> = Vec::new();
    if list.len() == 0 {
        messages.push(
            OutMessage::plain(
                String::from_str(
                    "No pools passed all filters (Uniswap v3 + >=$200k 1h vol + score >=70 + audit issues <=3).",
                ),
            ),
        );
        return messages;
    }
    let mut k: usize = 0;
    while k < list.len() && k < 10
        invariant
            k <= list@.len(),
            k <= 10,
            messages@.len() == k,
            forall|j: int| 0 <= j < list@.len() ==> (#[trigger] list@[j]).place < pools@.len(),
            forall|j: int|
                0 <= j < k ==> shows_ranked(
                    #[trigger] messages@[j],
                    j as nat,
                    pools@[list@[j].place as int],
                    list@[j],
                ),
        decreases list@.len() - k,
    {
        let c = list[k];
        assert(list@[k as int].place < pools@.len());
        let pool = &pools[c.place];
        let address = to_lowercase(pool.address.as_str());
        messages.push(
            ranked_message(
                k,
                pool.main_token.symbol.as_str(),
                pool.side_token.symbol.as_str(),
                c,
                true,
                address.as_str(),
            ),
        );
        k = k + 1;
    }
    messages
}

/// The place from `from` on of the entry under `address`.
pub open spec fn place_under(
    kept: Seq<usize>,
    addresses: Seq<Seq<char>>,
    address: Seq<char>,
    from: nat,
) -> Option<nat>
    decreases kept.len() - from,
{
    if from >= kept.len() {
        None
    } else if addresses[kept[from as int] as int] == address {
        Some(from)
    } else {
        place_under(kept, addresses, address, from + 1)
    }
}

/// One pair for each address among the first `n`: the one with the most volume in the
/// last day, the first of those.
pub open spec fn busiest(pairs: Seq<DexScreenerPair>, addresses: Seq<Seq<char>>, n: nat) -> Seq<usize>
    decreases n,
{
    if n == 0 {
        Seq::empty()
    } else {
        let before = busiest(pairs, addresses, (n - 1) as nat);
        match place_under(before, addresses, addresses[n - 1], 0) {
            Some(j) => if less(
                pairs[before[j as int] as int].volume.h24,
                pairs[n - 1].volume.h24,
            ) {
                before.update(j as int, (n - 1) as usize)
            } else {
                before
            },
            None => before.push((n - 1) as usize),
        }
    }
}

proof fn lemma_place_under(
    kept: Seq<usize>,
    addresses: Seq<Seq<char>>,
    address: Seq<char>,
    from: nat,
)
    requires
        from <= kept.len(),
    ensures
        match place_under(kept, addresses, address, from) {
            Some(j) => from <= j < kept.len() && addresses[kept[j as int] as int] == address,
            None => forall|j: int|
                from <= j < kept.len() ==> addresses[(#[trigger] kept[j]) as int] != address,
        },
    decreases kept.len() - from,
{
    if from < kept.len() && addresses[kept[from as int] as int] != address {
        lemma_place_under(kept, addresses, address, from + 1);
    }
}

/// Only pairs among the first `n` are kept.
proof fn lemma_kept_are_seen(pairs: Seq<DexScreenerPair>, addresses: Seq<Seq<char>>, n: nat)
    requires
        n <= pairs.len() == addresses.len() <= usize::MAX,
    ensures
        forall|j: int| 0 <= j < busiest(pairs, addresses, n).len() ==> (#[trigger] busiest(
            pairs,
            addresses,
            n,
        )[j]) < n,
    decreases n,
{
    if n > 0 {
        let m = (n - 1) as nat;
        lemma_kept_are_seen(pairs, addresses, m);
        let before = busiest(pairs, addresses, m);
        let kept = busiest(pairs, addresses, n);
        lemma_place_under(before, addresses, addresses[m as int], 0);
        assert forall|j: int| 0 <= j < kept.len() implies (#[trigger] kept[j]) < n by {
            if j < before.len() {
                assert(before[j] < m);
            }
        }
    }
}

/// One more pair takes the place of one of its own address, or comes last.
proof fn lemma_kept_step(pairs: Seq<DexScreenerPair>, addresses: Seq<Seq<char>>, n: nat)
    requires
        0 < n <= pairs.len() == addresses.len() <= usize::MAX,
    ensures
        ({
            let before = busiest(pairs, addresses, (n - 1) as nat);
            let kept = busiest(pairs, addresses, n);
            match place_under(before, addresses, addresses[n - 1], 0) {
                Some(h) => {
                    &&& h < kept.len() == before.len()
                    &&& addresses[before[h as int] as int] == addresses[n - 1]
                    &&& addresses[kept[h as int] as int] == addresses[n - 1]
                    &&& forall|j: int| 0 <= j < kept.len() && j != h ==> kept[j] == before[j]
                    &&& kept[h as int] == n - 1 ==> less(
                        pairs[before[h as int] as int].volume.h24,
                        pairs[n - 1].volume.h24,
                    )
                    &&& kept[h as int] != n - 1 ==> kept[h as int] == before[h as int] && !less(
                        pairs[before[h as int] as int].volume.h24,
                        pairs[n - 1].volume.h24,
                    )
                },
                None => {
                    &&& kept.len() == before.len() + 1
                    &&& kept[before.len() as int] == n - 1
                    &&& forall|j: int| 0 <= j < before.len() ==> kept[j] == before[j]
                    &&& forall|j: int|
                        0 <= j < before.len() ==> addresses[(#[trigger] before[j]) as int]
                            != addresses[n - 1]
                },
            }
        }),
{
    let before = busiest(pairs, addresses, (n - 1) as nat);
    lemma_place_under(before, addresses, addresses[n - 1], 0);
    lemma_kept_are_seen(pairs, addresses, (n - 1) as nat);
    let hit = place_under(before, addresses, addresses[n - 1], 0);
    if hit is Some {
        assert(before[hit->0 as int] < n - 1);
    }
}

/// No address is kept twice.
proof fn lemma_kept_are_distinct(pairs: Seq<DexScreenerPair>, addresses: Seq<Seq<char>>, n: nat)
    requires
        n <= pairs.len() == addresses.len() <= usize::MAX,
    ensures
        forall|j: int, k: int|
            #![trigger busiest(pairs, addresses, n)[j], busiest(pairs, addresses, n)[k]]
            0 <= j < k < busiest(pairs, addresses, n).len() ==> addresses[busiest(
                pairs,
                addresses,
                n,
            )[j] as int] != addresses[busiest(pairs, addresses, n)[k] as int],
    decreases n,
{
    if n > 0 {
        let m = (n - 1) as nat;
        lemma_kept_are_distinct(pairs, addresses, m);
        lemma_kept_step(pairs, addresses, n);
        let before = busiest(pairs, addresses, m);
        let kept = busiest(pairs, addresses, n);
        assert forall|j: int, k: int|
            #![trigger kept[j], kept[k]]
            0 <= j < k < kept.len() implies addresses[kept[j] as int] != addresses[kept[k] as int] by {
            if k < before.len() {
                assert(addresses[before[j] as int] != addresses[before[k] as int]);
                assert(addresses[kept[j] as int] == addresses[before[j] as int]);
                assert(addresses[kept[k] as int] == addresses[before[k] as int]);
            } else {
                assert(addresses[before[j] as int] != addresses[m as int]);
            }
        }
    }
}

/// The address of a pair is kept, with a pair that it does not surpass in volume.
proof fn lemma_pair_is_covered(
    pairs: Seq<DexScreenerPair>,
    addresses: Seq<Seq<char>>,
    n: nat,
    i: int,
) -> (j: int)
    requires
        n <= pairs.len() == addresses.len() <= usize::MAX,
        0 <= i < n,
    ensures
        0 <= j < busiest(pairs, addresses, n).len(),
        addresses[busiest(pairs, addresses, n)[j] as int] == addresses[i],
        !less(pairs[busiest(pairs, addresses, n)[j] as int].volume.h24, pairs[i].volume.h24),
    decreases n,
{
    let m = (n - 1) as nat;
    let before = busiest(pairs, addresses, m);
    lemma_kept_step(pairs, addresses, n);
    match place_under(before, addresses, addresses[m as int], 0) {
        Some(h) => if i < m {
            let j = lemma_pair_is_covered(pairs, addresses, m, i);
            if j == h {
                assert(addresses[before[j] as int] == addresses[i]);
            }
            j
        } else {
            h as int
        },
        None => if i < m {
            lemma_pair_is_covered(pairs, addresses, m, i)
        } else {
            before.len() as int
        },
    }
}

/// Every address is kept once, with a pair that no other pair of that address
/// surpasses in volume.
pub proof fn law_busiest_pair_is_kept(
    pairs: Seq<DexScreenerPair>,
    addresses: Seq<Seq<char>>,
    n: nat,
)
    requires
        n <= pairs.len() == addresses.len() <= usize::MAX,
    ensures
        forall|j: int| 0 <= j < busiest(pairs, addresses, n).len() ==> (#[trigger] busiest(
            pairs,
            addresses,
            n,
        )[j]) < n,
        forall|j: int, k: int|
            #![trigger busiest(pairs, addresses, n)[j], busiest(pairs, addresses, n)[k]]
            0 <= j < k < busiest(pairs, addresses, n).len() ==> addresses[busiest(
                pairs,
                addresses,
                n,
            )[j] as int] != addresses[busiest(pairs, addresses, n)[k] as int],
        forall|i: int|
            0 <= i < n ==> exists|j: int|
                0 <= j < busiest(pairs, addresses, n).len() && addresses[(#[trigger] busiest(
                    pairs,
                    addresses,
                    n,
                )[j]) as int] == (#[trigger] addresses[i]) && !less(
                    pairs[busiest(pairs, addresses, n)[j] as int].volume.h24,
                    pairs[i].volume.h24,
                ),
{
    lemma_kept_are_seen(pairs, addresses, n);
    lemma_kept_are_distinct(pairs, addresses, n);
    let kept = busiest(pairs, addresses, n);
    assert forall|i: int| 0 <= i < n implies exists|j: int|
        0 <= j < kept.len() && addresses[(#[trigger] kept[j]) as int] == (
        #[trigger] addresses[i]) && !less(
            pairs[kept[j] as int].volume.h24,
            pairs[i].volume.h24,
        ) by {
        let j = lemma_pair_is_covered(pairs, addresses, n, i);
        assert(addresses[kept[j] as int] == addresses[i]);
    }
}

/// One pair for each address, given the pairs' addresses in lower case: the one with
/// the most volume in the last day.
pub fn keep_busiest(pairs: &Vec<DexScreenerPair>, addresses: &Vec<String>) -> (r: Vec<usize>)
    requires
        pairs@.len() == addresses@.len(),
    ensures
        r@ == busiest(pairs@, texts(addresses@), pairs@.len()),
        forall|j: int| 0 <= j < r@.len() ==> (#[trigger] r@[j]) < pairs@.len(),
{
    let mut kept: Vec<usize> = Vec::new();
    let mut i: usize = 0;
    while i < pairs.len()
        invariant
            i <= pairs@.len(),
            pairs@.len() == addresses@.len(),
            kept@ == busiest(pairs@, texts(addresses@), i as nat),
            forall|j: int| 0 <= j < kept@.len() ==> (#[trigger] kept@[j]) < i,
        decreases pairs@.len() - i,
    {
        let mut j: usize = 0;
        assert(texts(addresses@)[i as int] == addresses@[i as int]@);
        while j < kept.len() && !same(addresses[kept[j]].as_str(), addresses[i].as_str())
            invariant
                j <= kept@.len(),
                i < pairs@.len(),
                pairs@.len() == addresses@.len(),
                forall|k: int| 0 <= k < kept@.len() ==> (#[trigger] kept@[k]) < i,
                place_under(kept@, texts(addresses@), addresses@[i as int]@, 0) == place_under(
                    kept@,
                    texts(addresses@),
                    addresses@[i as int]@,
                    j as nat,
                ),
            decreases kept@.len() - j,
        {
            assert(kept@[j as int] < i);
            assert(texts(addresses@)[kept@[j as int] as int]
                == addresses@[kept@[j as int] as int]@);
            j = j + 1;
        }
        if j < kept.len() {
            assert(kept@[j as int] < i);
            assert(texts(addresses@)[kept@[j as int] as int]
                == addresses@[kept@[j as int] as int]@);
            if pairs[kept[j]].volume.h24.less_than(pairs[i].volume.h24) {
                kept.set(j, i);
            }
        } else {
            kept.push(i);
        }
        i = i + 1;
    }
    kept
}

/// Whether some label, in lower case, says `v3`.
pub open spec fn labelled_v3(labels: Option<Vec<String>>) -> bool {
    match labels {
        Some(list) => exists|i: int|
            0 <= i < list@.len() && contains_text(lowercase((#[trigger] list@[i])@), "v3"@),
        None => false,
    }
}

pub open spec fn uniswap_v3_pair(p: DexScreenerPair) -> bool {
    contains_text(lowercase(p.dex_id@), "uniswap"@) && labelled_v3(p.labels)
}

/// Whether some of the labels, in lower case, says `v3`.
pub fn any_v3(lowered: &Vec<String>) -> (r: bool)
    ensures
        r == exists|i: int|
            0 <= i < lowered@.len() && contains_text((#[trigger] lowered@[i])@, "v3"@),
{
    let mut i: usize = 0;
    while i < lowered.len()
        invariant
            i <= lowered@.len(),
            forall|j: int| 0 <= j < i ==> !contains_text((#[trigger] lowered@[j])@, "v3"@),
        decreases lowered@.len() - i,
    {
        if contains(lowered[i].as_str(), "v3") {
            return true;
        }
        i = i + 1;
    }
    false
}

/// Whether a pair is one of Uniswap v3, by its exchange and its labels.
pub fn is_uniswap_v3(p: &DexScreenerPair) -> (r: bool)
    ensures
        r == uniswap_v3_pair(*p),
{
    if !contains(to_lowercase(p.dex_id.as_str()).as_str(), "uniswap") {
        return false;
    }
    match &p.labels {
        Some(list) => {
            let mut lowered: Vec<String> = Vec::new();
            let mut i: usize = 0;
            while i < list.len()
                invariant
                    i <= list@.len(),
                    lowered@.len() == i,
                    forall|j: int|
                        0 <= j < i ==> (#[trigger] lowered@[j])@ == lowercase(list@[j]@),
                decreases list@.len() - i,
            {
                lowered.push(to_lowercase(list[i].as_str()));
                i = i + 1;
            }
            let r: bool = any_v3(&lowered);
            proof {
                if r {
                    let j = choose|j: int|
                        0 <= j < lowered@.len() && contains_text(
                            (#[trigger] lowered@[j])@,
                            "v3"@,
                        );
                    assert(contains_text(lowercase(list@[j]@), "v3"@));
                }
                if labelled_v3(p.labels) {
                    let j = choose|j: int|
                        0 <= j < list@.len() && contains_text(
                            lowercase((#[trigger] list@[j])@),
                            "v3"@,
                        );
                    assert(lowered@[j]@ == lowercase(list@[j]@));
                }
            }
            r
        },
        None => false,
    }
}

/// How much of a full measure an amount is, in percent, 100 at most.
pub open spec fn filled(amount: Double, measure: u64) -> Double {
    smaller_of(
        product_of(quotient_of(amount, Double { bits: measure }), Double { bits: HUNDRED }),
        Double { bits: HUNDRED },
    )
}

fn fill(amount: Double, measure: u64) -> (r: Double)
    ensures
        r == filled(amount, measure),
{
    let hundred = Double { bits: HUNDRED };
    amount.over(Double { bits: measure }).times(hundred).smaller(hundred)
}

/// A score from volume and liquidity: 60 points for a volume of $1M, 40 for a
/// liquidity of $500k, in proportion below, 100 at most.
pub open spec fn pool_score(volume: Double, liquidity: Double) -> Double {
    if less(Double { bits: 0 }, liquidity) {
        smaller_of(
            sum_of(
                product_of(filled(volume, MILLION), Double { bits: SIX_TENTHS }),
                product_of(filled(liquidity, HALF_MILLION), Double { bits: FOUR_TENTHS }),
            ),
            Double { bits: HUNDRED },
        )
    } else {
        Double { bits: 0 }
    }
}

/// A score from volume and liquidity: 60 points for a volume of $1M, 40 for a
/// liquidity of $500k, in proportion below, 100 at most.
pub fn liquidity_score(volume: Double, liquidity: Double) -> (r: Double)
    ensures
        r == pool_score(volume, liquidity),
{
    if (Double { bits: 0 }).less_than(liquidity) {
        fill(volume, MILLION).times(Double { bits: SIX_TENTHS }).plus(
            fill(liquidity, HALF_MILLION).times(Double { bits: FOUR_TENTHS }),
        ).smaller(Double { bits: HUNDRED })
    } else {
        Double { bits: 0 }
    }
}

/// A pair that makes it into the list of Uniswap pools: with a market cap of at least
/// $20k and a score of at least 50.
pub open spec fn uniswap_candidate(place: usize, p: DexScreenerPair, now_ms: u64) -> Option<Candidate> {
    let score = pool_score(p.volume.h24, depth_of(p));
    if less(cap_of(p), Double { bits: TWENTY_THOUSAND }) || less(score, Double { bits: FIFTY }) {
        None
    } else {
        Some(
            Candidate {
                place,
                market_cap: cap_of(p),
                liquidity: depth_of(p),
                age_secs: seconds_since(p.pair_created_at, now_ms),
                volume: p.volume.h24,
                score,
                audit_issues: 0,
                key: descending(p.volume.h24),
            },
        )
    }
}

/// The Uniswap v3 pairs among the first `n` that are kept.
pub open spec fn v3_places(pairs: Seq<DexScreenerPair>, kept: Seq<usize>, n: nat) -> Seq<usize>
    decreases n,
{
    if n == 0 {
        Seq::empty()
    } else if uniswap_v3_pair(pairs[kept[n - 1] as int]) {
        v3_places(pairs, kept, (n - 1) as nat).push(kept[n - 1])
    } else {
        v3_places(pairs, kept, (n - 1) as nat)
    }
}

/// Those with at least $100k volume in the last day, among the first `n`.
pub open spec fn busy_v3_places(pairs: Seq<DexScreenerPair>, v3: Seq<usize>, n: nat) -> Seq<usize>
    decreases n,
{
    if n == 0 {
        Seq::empty()
    } else if at_most(Double { bits: HUNDRED_THOUSAND }, pairs[v3[n - 1] as int].volume.h24) {
        busy_v3_places(pairs, v3, (n - 1) as nat).push(v3[n - 1])
    } else {
        busy_v3_places(pairs, v3, (n - 1) as nat)
    }
}

/// The candidates among the first `n` of them.
pub open spec fn uniswap_candidates(
    pairs: Seq<DexScreenerPair>,
    busy: Seq<usize>,
    now_ms: u64,
    n: nat,
) -> Seq<Candidate>
    decreases n,
{
    if n == 0 {
        Seq::empty()
    } else {
        with_candidate(
            uniswap_candidates(pairs, busy, now_ms, (n - 1) as nat),
            uniswap_candidate(busy[n - 1], pairs[busy[n - 1] as int], now_ms),
        )
    }
}

fn pick_v3(pairs: &Vec<DexScreenerPair>, kept: &Vec<usize>) -> (r: Vec<usize>)
    requires
        forall|j: int| 0 <= j < kept@.len() ==> (#[trigger] kept@[j]) < pairs@.len(),
    ensures
        r@ == v3_places(pairs@, kept@, kept@.len()),
        forall|j: int| 0 <= j < r@.len() ==> (#[trigger] r@[j]) < pairs@.len(),
{
    let mut r: Vec<usize> = Vec::new();
    let mut i: usize = 0;
    while i < kept.len()
        invariant
            i <= kept@.len(),
            forall|j: int| 0 <= j < kept@.len() ==> (#[trigger] kept@[j]) < pairs@.len(),
            r@ == v3_places(pairs@, kept@, i as nat),
            forall|j: int| 0 <= j < r@.len() ==> (#[trigger] r@[j]) < pairs@.len(),
        decreases kept@.len() - i,
    {
        let place: usize = kept[i];
        assert(kept@[i as int] < pairs@.len());
        if is_uniswap_v3(&pairs[place]) {
            r.push(place);
        }
        i = i + 1;
    }
    r
}

fn pick_busy(pairs: &Vec<DexScreenerPair>, v3: &Vec<usize>) -> (r: Vec<usize>)
    requires
        forall|j: int| 0 <= j < v3@.len() ==> (#[trigger] v3@[j]) < pairs@.len(),
    ensures
        r@ == busy_v3_places(pairs@, v3@, v3@.len()),
        forall|j: int| 0 <= j < r@.len() ==> (#[trigger] r@[j]) < pairs@.len(),
{
    let mut r: Vec<usize> = Vec::new();
    let mut i: usize = 0;
    while i < v3.len()
        invariant
            i <= v3@.len(),
            forall|j: int| 0 <= j < v3@.len() ==> (#[trigger] v3@[j]) < pairs@.len(),
            r@ == busy_v3_places(pairs@, v3@, i as nat),
            forall|j: int| 0 <= j < r@.len() ==> (#[trigger] r@[j]) < pairs@.len(),
        decreases v3@.len() - i,
    {
        let place: usize = v3[i];
        assert(v3@[i as int] < pairs@.len());
        if (Double { bits: HUNDRED_THOUSAND }).no_more_than(pairs[place].volume.h24) {
            r.push(place);
        }
        i = i + 1;
    }
    r
}

fn pick_candidates(pairs: &Vec<DexScreenerPair>, busy: &Vec<usize>, now_ms: u64) -> (r: Vec<Candidate>)
    requires
        forall|j: int| 0 <= j < busy@.len() ==> (#[trigger] busy@[j]) < pairs@.len(),
    ensures
        r@ == uniswap_candidates(pairs@, busy@, now_ms, busy@.len()),
        forall|j: int| 0 <= j < r@.len() ==> (#[trigger] r@[j]).place < pairs@.len(),
{
    let mut r: Vec<Candidate> = Vec::new();
    let mut i: usize = 0;
    while i < busy.len()
        invariant
            i <= busy@.len(),
            forall|j: int| 0 <= j < busy@.len() ==> (#[trigger] busy@[j]) < pairs@.len(),
            r@ == uniswap_candidates(pairs@, busy@, now_ms, i as nat),
            forall|j: int| 0 <= j < r@.len() ==> (#[trigger] r@[j]).place < pairs@.len(),
        decreases busy@.len() - i,
    {
        let place: usize = busy[i];
        assert(busy@[i as int] < pairs@.len());
        let p = &pairs[place];
        let market_cap = cap(p);
        let liquidity = depth(p);
        let score = liquidity_score(p.volume.h24, liquidity);
        if !market_cap.less_than(Double { bits: TWENTY_THOUSAND }) && !score.less_than(
            Double { bits: FIFTY },
        ) {
            r.push(
                Candidate {
                    place,
                    market_cap,
                    liquidity,
                    age_secs: age_seconds(p.pair_created_at, now_ms),
                    volume: p.volume.h24,
                    score,
                    audit_issues: 0,
                    key: descending_key(p.volume.h24),
                },
            );
        }
        i = i + 1;
    }
    r
}

/// Whether a message shows a Uniswap pair in place `i`.
pub open spec fn shows_uniswap(m: OutMessage, i: nat, p: DexScreenerPair, c: Candidate) -> bool {
    m.offers(
        ranked_text(
            i,
            p.base_token.symbol@,
            p.quote_token.symbol@,
            c,
            false,
            lowercase(p.pair_address@),
        ),
        "📋 Copy pool address"@,
        copy_data(lowercase(p.pair_address@)),
    )
}

/// The pairs' addresses in lower case.
pub open spec fn lowered_addresses(pairs: Seq<DexScreenerPair>) -> Seq<Seq<char>> {
    pairs.map_values(|p: DexScreenerPair| lowercase(p.pair_address@))
}

/// Whether the answer to `/uniswap_top10` is right.
pub open spec fn uniswap_answer(r: Seq<OutMessage>, pairs: Seq<DexScreenerPair>, now_ms: u64) -> bool {
    let kept = busiest(pairs, lowered_addresses(pairs), pairs.len());
    let v3 = v3_places(pairs, kept, kept.len());
    let busy = busy_v3_places(pairs, v3, v3.len());
    let list = in_order(uniswap_candidates(pairs, busy, now_ms, busy.len()));
    if v3.len() == 0 {
        r.len() == 1 && r[0].says(
            "No Uniswap v3 pools found on Robinhood chain via DexScreener."@,
            false,
        )
    } else if busy.len() == 0 {
        r.len() == 1 && r[0].says(
            "No Uniswap v3 pools on Robinhood chain with >=$100k 24h volume."@,
            false,
        )
    } else if list.len() == 0 {
        r.len() == 1 && r[0].says(
            "No pools passed all filters (Uniswap v3 + >=$100k 24h vol + mcap >=$20k + score >=50)."@,
            false,
        )
    } else {
        r.len() == top_ten(list.len()) && forall|i: int|
            0 <= i < r.len() ==> shows_uniswap(
                #[trigger] r[i],
                i as nat,
                pairs[list[i].place as int],
                list[i],
            )
    }
}

/// What is said before the Uniswap pools are looked up.
pub fn uniswap_scan_message() -> (r: OutMessage)
    ensures
        r.says("🔍 Scanning Uniswap v3 top pools on Robinhood chain…"@, false),
{
    OutMessage::plain(String::from_str("🔍 Scanning Uniswap v3 top pools on Robinhood chain…"))
}

fn single(text: &str) -> (r: Vec<OutMessage>)
    ensures
        r@.len() == 1,
        r@[0].says(text@, false),
{
    let mut r: Vec<OutMessage> = Vec::new();
    r.push(OutMessage::plain(String::from_str(text)));
    r
}

/// The top ten Uniswap v3 pools among the pairs of the reference assets, by volume: a
/// message on each pool that has enough of everything, or that there are none.
pub fn handle_uniswap_top10_command(pairs: &Vec<DexScreenerPair>, now_ms: u64) -> (r: Vec<OutMessage>)
    ensures
        uniswap_answer(r@, pairs@, now_ms),
{
    let mut addresses: Vec<String> = Vec::new();
    let mut i: usize = 0;
    while i < pairs.len()
        invariant
            i <= pairs@.len(),
            addresses@.len() == i,
            forall|j: int|
                0 <= j < i ==> (#[trigger] addresses@[j])@ == lowercase(pairs@[j].pair_address@),
        decreases pairs@.len() - i,
    {
        addresses.push(to_lowercase(pairs[i].pair_address.as_str()));
        i = i + 1;
    }
    assert(texts(addresses@) =~= lowered_addresses(pairs@));
    let kept = keep_busiest(pairs, &addresses);
    let v3 = pick_v3(pairs, &kept);
    if v3.len() == 0 {
        return single("No Uniswap v3 pools found on Robinhood chain via DexScreener.");
    }
    let busy = pick_busy(pairs, &v3);
    if busy.len() == 0 {
        return single("No Uniswap v3 pools on Robinhood chain with >=$100k 24h volume.");
    }
    let found = pick_candidates(pairs, &busy, now_ms);
    let list = sort_candidates(&found);
    proof {
        lemma_places_kept(found@, pairs@.len());
    }
    if list.len() == 0 {
        return single(
            "No pools passed all filters (Uniswap v3 + >=$100k 24h vol + mcap >=$20k + score >=50).",
        );
    }
    let mut messages: Vec<OutMessage> = Vec::new();
    let mut k: usize = 0;
    while k < list.len() && k < 10
        invariant
            k <= list@.len(),
            k <= 10,
            messages@.len() == k,
            forall|j: int| 0 <= j < list@.len() ==> (#[trigger] list@[j]).place < pairs@.len(),
            forall|j: int|
                0 <= j < k ==> shows_uniswap(
                    #[trigger] messages@[j],
                    j as nat,
                    pairs@[list@[j].place as int],
                    list@[j],
                ),
        decreases list@.len() - k,
    {
        let c = list[k];
        assert(list@[k as int].place < pairs@.len());
        let p = &pairs[c.place];
        let address = to_lowercase(p.pair_address.as_str());
        messages.push(
            ranked_message(
                k,
                p.base_token.symbol.as_str(),
                p.quote_token.symbol.as_str(),
                c,
                false,
                address.as_str(),
            ),
        );
        k = k + 1;
    }
    messages
}

/// Every pool of a graded list has a score of at least 70 and at most three issues.
pub proof fn law_graded_pools_meet_the_bar(
    s: Seq<Candidate>,
    scores: Seq<Option<Double>>,
    issues: Seq<Option<u32>>,
    n: nat,
)
    ensures
        forall|i: int|
            0 <= i < graded_candidates(s, scores, issues, n).len() ==> !less(
                (#[trigger] graded_candidates(s, scores, issues, n)[i]).score,
                Double { bits: SEVENTY },
            ) && graded_candidates(s, scores, issues, n)[i].audit_issues <= 3,
    decreases n,
{
    if n > 0 {
        law_graded_pools_meet_the_bar(s, scores, issues, (n - 1) as nat);
    }
}

/// Every pool of a list of Uniswap pools has a market cap of at least $20k and a score
/// of at least 50.
pub proof fn law_uniswap_pools_meet_the_bar(
    pairs: Seq<DexScreenerPair>,
    busy: Seq<usize>,
    now_ms: u64,
    n: nat,
)
    ensures
        forall|i: int|
            0 <= i < uniswap_candidates(pairs, busy, now_ms, n).len() ==> !less(
                (#[trigger] uniswap_candidates(pairs, busy, now_ms, n)[i]).market_cap,
                Double { bits: TWENTY_THOUSAND },
            ) && !less(
                uniswap_candidates(pairs, busy, now_ms, n)[i].score,
                Double { bits: FIFTY },
            ),
    decreases n,
{
    if n > 0 {
        law_uniswap_pools_meet_the_bar(pairs, busy, now_ms, (n - 1) as nat);
    }
}

/// Whether a candidate's key orders it by volume.
pub open spec fn keyed_by_volume(c: Candidate) -> bool {
    c.key == descending(c.volume) && c.volume.bits <= INFINITE
}

proof fn lemma_busy_places(pairs: Seq<DexScreenerPair>, v3: Seq<usize>, n: nat)
    ensures
        forall|i: int|
            0 <= i < busy_v3_places(pairs, v3, n).len() ==> at_most(
                Double { bits: HUNDRED_THOUSAND },
                pairs[(#[trigger] busy_v3_places(pairs, v3, n)[i]) as int].volume.h24,
            ),
    decreases n,
{
    if n > 0 {
        lemma_busy_places(pairs, v3, (n - 1) as nat);
    }
}

proof fn lemma_keys(pairs: Seq<DexScreenerPair>, busy: Seq<usize>, now_ms: u64, n: nat)
    requires
        n <= busy.len(),
        forall|i: int|
            0 <= i < busy.len() ==> at_most(
                Double { bits: HUNDRED_THOUSAND },
                pairs[(#[trigger] busy[i]) as int].volume.h24,
            ),
    ensures
        forall|i: int|
            0 <= i < uniswap_candidates(pairs, busy, now_ms, n).len() ==> keyed_by_volume(
                #[trigger] uniswap_candidates(pairs, busy, now_ms, n)[i],
            ),
    decreases n,
{
    if n > 0 {
        lemma_keys(pairs, busy, now_ms, (n - 1) as nat);
        let v = pairs[busy[n - 1] as int].volume.h24;
        let least = Double { bits: HUNDRED_THOUSAND };
        assert(at_most(least, v));
        assert(v.bits <= INFINITE) by {
            assert(least.magnitude() == HUNDRED_THOUSAND && !least.negative());
            lemma_units_increase(0, HUNDRED_THOUSAND as nat);
            if v.negative() {
                assert(v.units() <= 0);
            }
        }
        let before = uniswap_candidates(pairs, busy, now_ms, (n - 1) as nat);
        let all = uniswap_candidates(pairs, busy, now_ms, n);
        let c = uniswap_candidate(busy[n - 1], pairs[busy[n - 1] as int], now_ms);
        assert(all == with_candidate(before, c));
        assert forall|i: int| 0 <= i < all.len() implies keyed_by_volume(#[trigger] all[i]) by {
            if i < before.len() {
                assert(all[i] == before[i]);
            }
        }
    }
}

/// The list of Uniswap pools is by volume: no pool stands before one with more.
pub proof fn law_uniswap_list_is_by_volume(
    pairs: Seq<DexScreenerPair>,
    v3: Seq<usize>,
    now_ms: u64,
)
    ensures
        ({
            let busy = busy_v3_places(pairs, v3, v3.len());
            let list = in_order(uniswap_candidates(pairs, busy, now_ms, busy.len()));
            forall|i: int, j: int|
                #![trigger list[i], list[j]]
                0 <= i < j < list.len() ==> !less(list[i].volume, list[j].volume)
        }),
{
    broadcast use vstd::seq_lib::group_to_multiset_ensures;

    let busy = busy_v3_places(pairs, v3, v3.len());
    let s = uniswap_candidates(pairs, busy, now_ms, busy.len());
    let list = in_order(s);
    lemma_busy_places(pairs, v3, v3.len());
    lemma_keys(pairs, busy, now_ms, busy.len());
    law_sorting_is_stable(s, 0);
    assert forall|i: int| 0 <= i < list.len() implies keyed_by_volume(#[trigger] list[i]) by {
        assert(list.contains(list[i]));
        assert(list.to_multiset().count(list[i]) > 0);
        assert(s.to_multiset().count(list[i]) > 0);
        assert(s.contains(list[i]));
    }
    assert forall|i: int, j: int|
        #![trigger list[i], list[j]]
        0 <= i < j < list.len() implies !less(list[i].volume, list[j].volume) by {
        assert(keyed_by_volume(list[i]) && keyed_by_volume(list[j]));
        assert(list[i].key <= list[j].key);
        law_descending_key(list[j].volume, list[i].volume);
    }
}

} // verus!
