//! What scores are, in exact fractions, and which pools are listed.
use vstd::arithmetic::power2::{
    lemma2_to64, lemma2_to64_rest, lemma_pow2_adds, lemma_pow2_pos, pow2,
};
use vstd::prelude::*;

use crate::bounds::{
    lemma_magnitude_at_least, lemma_magnitude_at_most, lemma_one, lemma_small_units,
    lemma_units_grow,
};
use crate::chain::dexscreener::DexScreenerPair;
use crate::chain::value_laws::{lemma_near_hundred, usual};
use crate::closeness::{
    close, lemma_close, lemma_integer, lemma_near_integer, lemma_near_product, lemma_near_quotient,
    lemma_near_same, lemma_near_self, lemma_near_sum, near, GRAIN,
};
use crate::double::{
    exponent_of, less, mantissa_of, one_units, product_of, quotient_of, sum_of, units_of, Double,
};
use crate::monotone::lemma_plain_order;
use crate::numbers::{
    FIFTY, FOUR_TENTHS, HALF_MILLION, HUNDRED, MILLION, SEVENTY, SIX_TENTHS, TWENTY_THOUSAND,
    TWO_HUNDRED_THOUSAND,
};
use crate::order::ONE;
use crate::rounding::{lemma_pow2_127, nearest_magnitude, INFINITE};
use crate::telegram::ranking::{
    filled, graded_candidate, pool_score, ranked_candidate, uniswap_candidate,
};
use crate::telegram::sorting::Candidate;
use crate::telegram::units::seconds_since;

verus! {

/// The smaller of an amount and a measure.
pub open spec fn at_most_full(amount: nat, measure: nat) -> nat {
    if amount <= measure {
        amount
    } else {
        measure
    }
}

/// How much of a measure of `v` an amount is, in percent.
proof fn lemma_near_filled(amount: Double, measure: u64, v: nat)
    requires
        usual(amount),
        0 < v <= 0x10_0000,
        near(Double { bits: measure }, v, 1, 0, 20),
        (Double { bits: measure }).size() == v * one_units(),
    ensures
        near(
            filled(amount, measure),
            100 * at_most_full(amount.size(), v * one_units()),
            v * one_units(),
            4,
            155,
        ),
{
    let u = one_units();
    let a = amount.size();
    let full = Double { bits: measure };
    let hundred = Double { bits: HUNDRED };
    let w = v * u;
    let q = quotient_of(amount, full);
    let p = product_of(q, hundred);
    lemma_pow2_pos(1074);
    lemma_one();
    lemma_near_hundred();
    lemma2_to64();
    lemma2_to64_rest();
    lemma_integer(HUNDRED, 100, 46);
    assert(w > 0) by (nonlinear_arith)
        requires
            w == v * u,
            v > 0,
            u > 0,
    ;
    lemma_near_self(amount, 128);
    lemma_near_quotient(amount, a, u, 0, 128, full, v, 1, 0, 20);
    assert(a * 1 == a);
    assert(u * v == w) by (nonlinear_arith)
        requires
            w == v * u,
    ;
    lemma_near_product(q, a, w, 2, 148, hundred, 100, 1, 0, 7);
    assert(a * 100 == 100 * a && w * 1 == w);
    let mq = nearest_magnitude(a * u, w);
    assert(mq <= INFINITE);
    assert(q.magnitude() == mq);
    let mp = nearest_magnitude(q.size() * hundred.size(), u);
    assert(mp <= INFINITE);
    assert(p.magnitude() == mp);
    let h = hundred.size();
    if a <= w {
        assert(a * u <= u * w) by (nonlinear_arith)
            requires
                a <= w,
        ;
        lemma_magnitude_at_most(a * u, w, ONE as nat);
        lemma_units_grow(mq, ONE as nat);
        assert(q.size() * h <= h * u) by (nonlinear_arith)
            requires
                q.size() <= u,
        ;
        lemma_magnitude_at_most(q.size() * h, u, HUNDRED as nat);
        lemma_plain_order(hundred, p);
        assert(filled(amount, measure) == p);
    } else {
        assert(u * w <= a * u) by (nonlinear_arith)
            requires
                w <= a,
        ;
        lemma_magnitude_at_least(a * u, w, ONE as nat);
        lemma_units_grow(ONE as nat, mq);
        assert(h * u <= q.size() * h) by (nonlinear_arith)
            requires
                u <= q.size(),
        ;
        lemma_magnitude_at_least(q.size() * h, u, HUNDRED as nat);
        lemma_plain_order(hundred, p);
        lemma_plain_order(p, hundred);
        assert(filled(amount, measure) == hundred);
        assert(100 * w == (100 * w) * 1);
        lemma_near_same(hundred, 100, 1, 0, 7, 100 * w, w);
        crate::closeness::lemma_near_weaken(hundred, 100 * w, w, 0, 7, 4, 155);
    }
}

/// The two weights, next to 6/10 and 4/10.
proof fn lemma_near_weights()
    ensures
        near(Double { bits: SIX_TENTHS }, 6, 10, 1, 1),
        near(Double { bits: FOUR_TENTHS }, 4, 10, 1, 2),
{
    let u = one_units();
    let six = Double { bits: SIX_TENTHS };
    let four = Double { bits: FOUR_TENTHS };
    lemma_pow2_127();
    lemma2_to64();
    lemma2_to64_rest();
    lemma_pow2_pos(1020);
    lemma_pow2_adds(53, 1021);
    lemma_pow2_adds(1, 1020);
    assert(exponent_of(six.magnitude()) == 1021);
    assert(mantissa_of(six.magnitude()) == 0x13_3333_3333_3333nat);
    assert(exponent_of(four.magnitude()) == 1020);
    assert(mantissa_of(four.magnitude()) == 0x19_9999_9999_999Anat);
    let p = pow2(1020);
    assert(pow2(1021) == 2 * p);
    assert(u == 0x20_0000_0000_0000nat * (2 * p));
    assert(six.size() == 0x13_3333_3333_3333nat * (2 * p));
    assert(four.size() == 0x19_9999_9999_999Anat * p);
    assert(six.size() * 10 == 0x17F_FFFF_FFFF_FFFCnat * p);
    assert(6 * u == 0x180_0000_0000_0000nat * p);
    assert(four.size() * 10 == 0x100_0000_0000_0004nat * p);
    assert(4 * u == 0x100_0000_0000_0000nat * p);
}

/// A score counts a day's volume against $1M for up to 60 points and the liquidity
/// against $500k for up to 40, each in proportion; without liquidity there is none.
pub proof fn law_score_is_in_proportion(volume: Double, liquidity: Double)
    requires
        usual(volume),
        usual(liquidity),
    ensures
        liquidity.size() > 0 ==> close(
            pool_score(volume, liquidity),
            (60 * at_most_full(volume.size(), 1_000_000 * one_units())) * 500_000 + (40
                * at_most_full(liquidity.size(), 500_000 * one_units())) * 1_000_000,
            500_000_000_000 * one_units(),
        ),
        liquidity.size() == 0 ==> pool_score(volume, liquidity) == (Double { bits: 0 }),
{
    let u = one_units();
    lemma_small_units(0);
    if liquidity.size() > 0 {
        let v = at_most_full(volume.size(), 1_000_000 * u);
        let l = at_most_full(liquidity.size(), 500_000 * u);
        let six = Double { bits: SIX_TENTHS };
        let four = Double { bits: FOUR_TENTHS };
        let hundred = Double { bits: HUNDRED };
        lemma_pow2_pos(1074);
        lemma2_to64();
        lemma2_to64_rest();
        lemma_integer(MILLION, 1_000_000, 33);
        lemma_near_integer(Double { bits: MILLION }, 1_000_000, 20);
        lemma_integer(HALF_MILLION, 500_000, 34);
        lemma_near_integer(Double { bits: HALF_MILLION }, 500_000, 20);
        lemma_near_filled(volume, MILLION, 1_000_000);
        lemma_near_filled(liquidity, HALF_MILLION, 500_000);
        lemma_near_weights();
        let x = filled(volume, MILLION);
        let y = filled(liquidity, HALF_MILLION);
        let d1 = 1_000_000 * u;
        let d2 = 500_000 * u;
        lemma_near_product(x, 100 * v, d1, 4, 155, six, 6, 10, 1, 1);
        lemma_near_product(y, 100 * l, d2, 4, 155, four, 4, 10, 1, 2);
        let a = product_of(x, six);
        let b = product_of(y, four);
        crate::closeness::lemma_near_weaken(a, (100 * v) * 6, d1 * 10, 7, 156, 7, 157);
        lemma_near_sum(a, (100 * v) * 6, d1 * 10, b, (100 * l) * 4, d2 * 10, 7, 157);
        let s = sum_of(a, b);
        let n = (60 * v) * 500_000 + (40 * l) * 1_000_000;
        let d = 500_000_000_000 * u;
        let n2 = ((100 * v) * 6) * (d2 * 10) + ((100 * l) * 4) * (d1 * 10);
        let e2 = (d1 * 10) * (d2 * 10);
        assert(n2 == (100 * u) * n) by (nonlinear_arith)
            requires
                n2 == ((100 * v) * 6) * (d2 * 10) + ((100 * l) * 4) * (d1 * 10),
                d1 == 1_000_000 * u,
                d2 == 500_000 * u,
                n == (60 * v) * 500_000 + (40 * l) * 1_000_000,
        ;
        assert(e2 == (100 * u) * d) by (nonlinear_arith)
            requires
                e2 == (d1 * 10) * (d2 * 10),
                d1 == 1_000_000 * u,
                d2 == 500_000 * u,
                d == 500_000_000_000 * u,
        ;
        assert(((100 * u) * n) * d == n * ((100 * u) * d)) by (nonlinear_arith);
        lemma_near_same(s, n2, e2, 8, 158, n, d);
        lemma_near_hundred();
        lemma_integer(HUNDRED, 100, 46);
        lemma_plain_order(hundred, s);
        if less(hundred, s) {
            assert(n <= 100 * d);
            let h = hundred.size();
            let z = n * u;
            assert(h * d >= z) by (nonlinear_arith)
                requires
                    h == 100 * u,
                    z == n * u,
                    n <= 100 * d,
            ;
            assert(h * d <= s.size() * d) by (nonlinear_arith)
                requires
                    h <= s.size(),
            ;
            assert((h * d) * GRAIN <= z * (GRAIN + 8));
            assert(z * 8 >= 0);
            assert(z * GRAIN <= (h * d) * GRAIN + z * 8);
            assert(near(hundred, n, d, 8, 158));
        }
        lemma_close(pool_score(volume, liquidity), n, d, 8, 158);
    }
}

/// The bars, in exact numbers.
proof fn lemma_bars()
    ensures
        units_of(SEVENTY as nat) == 70 * one_units(),
        units_of(FIFTY as nat) == 50 * one_units(),
        units_of(TWENTY_THOUSAND as nat) == 20_000 * one_units(),
        units_of(TWO_HUNDRED_THOUSAND as nat) == 200_000 * one_units(),
{
    lemma2_to64();
    lemma2_to64_rest();
    lemma_integer(SEVENTY, 70, 46);
    lemma_integer(FIFTY, 50, 47);
    lemma_integer(TWENTY_THOUSAND, 20_000, 38);
    lemma_integer(TWO_HUNDRED_THOUSAND, 200_000, 35);
}

/// A hot pool stays in the running exactly if its pair is known and traded at least
/// $200k in the last hour, whatever else is known of it; it keeps its rank and shows its
/// own pair's numbers.
pub proof fn law_hot_pool_needs_volume(
    place: usize,
    rank: u64,
    pair: Option<DexScreenerPair>,
    now_ms: u64,
)
    requires
        pair matches Some(p) ==> !p.volume.h1.nan(),
    ensures
        ({
            let r = ranked_candidate(place, rank, pair, now_ms);
            &&& r is Some <==> pair is Some && pair->0.volume.h1.units() >= 200_000 * one_units()
            &&& r matches Some(c) ==> {
                &&& c.place == place
                &&& c.key == rank
                &&& c.volume == pair->0.volume.h1
                &&& pair->0.market_cap matches Some(cap) ==> c.market_cap == cap
                &&& pair->0.liquidity matches Some(l) ==> c.liquidity == l.usd
                &&& c.age_secs == seconds_since(pair->0.pair_created_at, now_ms)
            }
        }),
{
    lemma_bars();
}

/// A pool is listed exactly if its score is known to be at least 70 and its audit to
/// have at most three issues; it is listed with these and otherwise as it was.
pub proof fn law_grade_needs_both(c: Candidate, score: Option<Double>, issues: Option<u32>)
    requires
        score matches Some(s) ==> !s.nan(),
    ensures
        ({
            let r = graded_candidate(c, score, issues);
            &&& r is Some <==> score is Some && issues is Some && score->0.units() >= 70
                * one_units() && issues->0 <= 3
            &&& r matches Some(g) ==> Some(g.score) == score && Some(g.audit_issues) == issues && g
                == (Candidate { score: g.score, audit_issues: g.audit_issues, ..c })
        }),
{
    lemma_bars();
    lemma_small_units(0);
    lemma_pow2_pos(1074);
}

/// A pair makes the list of Uniswap pools exactly if its market cap, or else its fully
/// diluted value, is at least $20k and its day's volume and liquidity score at least 50;
/// it shows its own numbers.
pub proof fn law_uniswap_pool_needs_cap_and_score(place: usize, p: DexScreenerPair, now_ms: u64)
    requires
        p.market_cap matches Some(v) ==> !v.nan(),
        p.fdv matches Some(v) ==> !v.nan(),
        p.liquidity is Some,
        usual(p.volume.h24),
        usual(p.liquidity->0.usd),
    ensures
        ({
            let r = uniswap_candidate(place, p, now_ms);
            let score = pool_score(p.volume.h24, p.liquidity->0.usd);
            let cap = if p.market_cap is Some {
                p.market_cap->0
            } else if p.fdv is Some {
                p.fdv->0
            } else {
                Double { bits: 0 }
            };
            &&& r is Some <==> cap.units() >= 20_000 * one_units() && score.units() >= 50
                * one_units()
            &&& r matches Some(c) ==> {
                &&& c.place == place
                &&& c.market_cap == cap
                &&& c.volume == p.volume.h24
                &&& c.liquidity == p.liquidity->0.usd
                &&& c.score == score
                &&& c.age_secs == seconds_since(p.pair_created_at, now_ms)
            }
        }),
{
    lemma_bars();
    lemma_small_units(0);
    law_score_is_in_proportion(p.volume.h24, p.liquidity->0.usd);
}

} // verus!
