//! What a pool's metrics and the amounts put into it are, in exact fractions.
use vstd::arithmetic::div_mod::lemma_fundamental_div_mod;
use vstd::arithmetic::power2::{lemma2_to64, lemma2_to64_rest, lemma_pow2_pos, pow2};
use vstd::prelude::*;

use crate::address::Address;
use crate::bounds::lemma_small_units;
use crate::chain::lp::{sizable, wanted_of, PoolState};
use crate::chain::metrics::{
    age_of, apr_of, honeypot_test, market_cap, metrics_of, raw_amount, subject_in, PricedFacts,
    TokenFacts,
};
use crate::chain::price_laws::{lemma_price, MOST_DECIMALS};
use crate::chain::value_laws::{law_tvl_by_token, lemma_near_hundred, lemma_near_worth, usual};
use crate::closeness::{
    close, lemma_close, lemma_integer, lemma_near_integer, lemma_near_of_nat, lemma_near_product,
    lemma_near_quotient, lemma_near_same, lemma_near_self, lemma_near_ten, lemma_ten_bound, near,
    GRAIN,
};
use crate::config::AppConfig;
use crate::decimal::ten_power;
use crate::double::{clamped_part, of_nat, one_units, product_of, quotient_of, Double};
use crate::models::PoolInfo;
use crate::numbers::{DAYS_PER_YEAR, HUNDRED, MILLION, SECONDS_PER_HOUR, TWO};
use crate::order::ten_to;

verus! {

/// Whether a count is the integer part of the fraction `n / d`, up to rounding, or the
/// largest that it can be.
pub open spec fn part_up_to(a: nat, n: nat, d: nat, most: nat) -> bool {
    &&& 0x100_0000_0000 * (a * d - n) <= n
    &&& a == most || 0x100_0000_0000 * (n - (a + 1) * d) <= n
}

/// Whether an amount is the integer part of the fraction `n / d`, up to rounding, or the
/// largest there is.
pub open spec fn whole_part(a: u128, n: nat, d: nat) -> bool {
    part_up_to(a as nat, n, d, u128::MAX as nat)
}

pub proof fn lemma_whole_part(x: Double, n: nat, d: nat, k: nat, e: nat)
    requires
        near(x, n, d, k, e),
        k <= 0x400,
    ensures
        whole_part(clamped_part(x, u128::MAX as nat) as u128, n, d),
        clamped_part(x, u128::MAX as nat) <= u128::MAX,
{
    lemma_part_up_to(x, n, d, k, e, u128::MAX as nat);
}

pub proof fn lemma_part_up_to(x: Double, n: nat, d: nat, k: nat, e: nat, m: nat)
    requires
        near(x, n, d, k, e),
        k <= 0x400,
    ensures
        part_up_to(clamped_part(x, m), n, d, m),
        clamped_part(x, m) <= m,
{
    let u = one_units();
    let s = x.size();
    let a = clamped_part(x, m);
    lemma_pow2_pos(1074);
    lemma_fundamental_div_mod(s as int, u as int);
    let q = s / u;
    let r = s % u;
    assert(a <= q && a <= m);
    let z = (n * u) as int;
    let y = (s * d) as int;
    assert(y * GRAIN <= z * (GRAIN + k) && z * GRAIN <= y * GRAIN + z * k);
    assert(z >= 0) by (nonlinear_arith)
        requires
            z == n * u,
            n >= 0,
            u > 0,
    ;
    assert(GRAIN * (y - z) <= 0x400 * z && GRAIN * (z - y) <= 0x400 * z) by (nonlinear_arith)
        requires
            y * GRAIN <= z * (GRAIN + k),
            z * GRAIN <= y * GRAIN + z * k,
            k <= 0x400,
            z >= 0,
    ;
    assert(GRAIN == 0x400 * 0x100_0000_0000);
    assert(0x100_0000_0000 * (y - z) <= z && 0x100_0000_0000 * (z - y) <= z);
    let t: int = 0x100_0000_0000;
    assert((a * d) * u <= y) by (nonlinear_arith)
        requires
            a <= q,
            s == u * q + r,
            r >= 0,
            y == s * d,
            u > 0,
            d > 0,
    ;
    assert(t * (a * d - n) <= n) by {
        assert((t * (a * d - n)) * u == t * ((a * d) * u - n * u)) by (nonlinear_arith);
        assert(t * ((a * d) * u - z) <= t * (y - z)) by (nonlinear_arith)
            requires
                (a * d) * u <= y,
                t > 0,
        ;
        assert(t * (a * d - n) <= n) by (nonlinear_arith)
            requires
                (t * (a * d - n)) * u <= n * u,
                u > 0,
        ;
    }
    if a < m {
        assert(a == q);
        assert(y <= ((a + 1) * d) * u) by (nonlinear_arith)
            requires
                s == u * a + r,
                r < u,
                y == s * d,
                d > 0,
        ;
        assert(t * (n - (a + 1) * d) <= n) by {
            let b = (a + 1) * d;
            assert((t * (n - b)) * u == t * (n * u - b * u)) by (nonlinear_arith);
            assert(t * (z - b * u) <= t * (z - y)) by (nonlinear_arith)
                requires
                    y <= b * u,
                    t > 0,
            ;
            assert(t * (n - b) <= n) by (nonlinear_arith)
                requires
                    (t * (n - b)) * u <= n * u,
                    u > 0,
            ;
        }
    }
}

/// A pool's age is the seconds since its creation, in hours; none where its creation is
/// not known or lies ahead.
pub proof fn law_age_in_hours(created_timestamp: u64, now: u64)
    ensures
        0 < created_timestamp < now ==> close(
            age_of(created_timestamp, now),
            (now - created_timestamp) as nat,
            3_600,
        ),
        created_timestamp == 0 || now <= created_timestamp ==> age_of(created_timestamp, now) == (
        Double { bits: 0 }),
{
    if 0 < created_timestamp < now {
        let secs = (now - created_timestamp) as nat;
        let hour = Double { bits: SECONDS_PER_HOUR };
        lemma2_to64();
        lemma2_to64_rest();
        lemma_near_of_nat(secs, 64);
        lemma_integer(SECONDS_PER_HOUR, 3_600, 41);
        lemma_near_integer(hour, 3_600, 12);
        lemma_near_quotient(of_nat(secs), secs, 1, 1, 64, hour, 3_600, 1, 0, 12);
        lemma_close(age_of(created_timestamp, now), secs, 3_600, 3, 76);
    }
}

/// The yearly fees of a pool are its fee's millionths of a day's volume, on each of the
/// 365 days of a year, in percent of its TVL; a pool without TVL has none.
pub proof fn law_apr_from_volume(volume: Double, fee: u32, tvl: Double)
    requires
        usual(volume),
        usual(tvl),
    ensures
        tvl.size() > 0 ==> close(
            apr_of(volume, fee, tvl),
            (volume.size() * fee as nat) * 36_500,
            1_000_000 * tvl.size(),
        ),
        tvl.size() == 0 ==> apr_of(volume, fee, tvl) == (Double { bits: 0 }),
{
    lemma_small_units(0);
    if tvl.size() > 0 {
        let f = fee as nat;
        let v = volume.size();
        let t = tvl.size();
        let u = one_units();
        let million = Double { bits: MILLION };
        let days = Double { bits: DAYS_PER_YEAR };
        let hundred = Double { bits: HUNDRED };
        lemma_pow2_pos(1074);
        lemma2_to64();
        lemma2_to64_rest();
        lemma_near_of_nat(f, 32);
        lemma_integer(MILLION, 1_000_000, 33);
        lemma_near_integer(million, 1_000_000, 20);
        lemma_integer(DAYS_PER_YEAR, 365, 44);
        lemma_near_integer(days, 365, 9);
        lemma_near_hundred();
        lemma_near_quotient(of_nat(f), f, 1, 1, 32, million, 1_000_000, 1, 0, 20);
        let part = quotient_of(of_nat(f), million);
        assert(f * 1 == f);
        lemma_near_self(volume, 128);
        lemma_near_product(volume, v, u, 0, 128, part, f, 1_000_000, 3, 52);
        let fees = product_of(volume, part);
        lemma_near_self(tvl, 128);
        lemma_near_quotient(fees, v * f, u * 1_000_000, 5, 180, tvl, t, u, 0, 128);
        let rate = quotient_of(fees, tvl);
        let n = v * f;
        assert((n * u) * (1_000_000 * t) == n * ((u * 1_000_000) * t)) by (nonlinear_arith);
        assert(1_000_000 * t > 0);
        lemma_near_same(rate, n * u, (u * 1_000_000) * t, 7, 308, n, 1_000_000 * t);
        let d = 1_000_000 * t;
        lemma_near_product(rate, n, d, 7, 308, days, 365, 1, 0, 9);
        let yearly = product_of(rate, days);
        lemma_near_product(yearly, n * 365, d * 1, 9, 317, hundred, 100, 1, 0, 7);
        assert((n * 365) * 100 == n * 36_500);
        assert((d * 1) * 1 == d);
        lemma_close(apr_of(volume, fee, tvl), n * 36_500, d, 11, 324);
    }
}

/// The market cap of a pool's subject token is its whole supply, in whole tokens by the
/// subject's own decimals, at the subject's own price, on whichever side of the pool it
/// is; there is none without a subject, a supply or a price.
pub proof fn law_market_cap_of_subject(
    subject: Option<Address>,
    pool: PoolInfo,
    decimals0: u8,
    decimals1: u8,
    f: PricedFacts,
)
    requires
        decimals0 <= MOST_DECIMALS,
        decimals1 <= MOST_DECIMALS,
        usual(f.price0),
        usual(f.price1),
        subject matches Some(token) ==> token == pool.token0 || token == pool.token1,
        pool.token0 != pool.token1,
    ensures
        ({
            let cap = market_cap(subject, pool, decimals0, decimals1, f);
            let s = f.total_supply->0.lo as nat;
            &&& subject is None || f.total_supply is None ==> cap is None
            &&& subject == Some(pool.token0) && f.total_supply is Some ==> if f.price0.size() > 0 {
                cap is Some && close(
                    cap->0,
                    s * f.price0.size(),
                    ten_power(decimals0 as nat) * one_units(),
                )
            } else {
                cap is None
            }
            &&& subject == Some(pool.token1) && f.total_supply is Some ==> if f.price1.size() > 0 {
                cap is Some && close(
                    cap->0,
                    s * f.price1.size(),
                    ten_power(decimals1 as nat) * one_units(),
                )
            } else {
                cap is None
            }
        }),
{
    let s = f.total_supply->0.lo;
    lemma_small_units(0);
    lemma_near_worth(s, decimals0, f.price0);
    lemma_near_worth(s, decimals1, f.price1);
    let whole0 = quotient_of(of_nat(s as nat), ten_to(decimals0 as int));
    let whole1 = quotient_of(of_nat(s as nat), ten_to(decimals1 as int));
    lemma_close(
        product_of(whole0, f.price0),
        s as nat * f.price0.size(),
        ten_power(decimals0 as nat) * one_units(),
        159,
        564,
    );
    lemma_close(
        product_of(whole1, f.price1),
        s as nat * f.price1.size(),
        ten_power(decimals1 as nat) * one_units(),
        159,
        564,
    );
}

/// So many USD in smallest units of a token, at its price.
proof fn lemma_raw_amount(usd: Double, price: Double, decimals: u8)
    requires
        usual(usd),
        usual(price),
        price.size() > 0,
        decimals <= MOST_DECIMALS,
    ensures
        whole_part(
            raw_amount(usd, price, decimals),
            usd.size() * ten_power(decimals as nat),
            price.size(),
        ),
{
    let u = one_units();
    let m = decimals as nat;
    let t = ten_power(m);
    let n = usd.size();
    let p = price.size();
    lemma_pow2_pos(1074);
    lemma_near_self(usd, 128);
    lemma_near_self(price, 128);
    lemma_near_quotient(usd, n, u, 0, 128, price, p, u, 0, 128);
    let q = quotient_of(usd, price);
    assert((n * u) * p == n * (u * p)) by (nonlinear_arith);
    lemma_near_same(q, n * u, u * p, 2, 256, n, p);
    lemma_near_ten(decimals as int);
    lemma_near_product(q, n, p, 2, 256, ten_to(decimals as int), t, 1, 2 * m, 4 * m);
    assert(p * 1 == p);
    lemma_whole_part(
        product_of(q, ten_to(decimals as int)),
        n * t,
        p,
        2 + 2 * m + 2,
        256 + 4 * m,
    );
}

/// A pool is tested by buying its subject token with the reference asset on the other
/// side and selling it back at the pool's own fee, with as much of the reference asset,
/// by its own price and decimals, as is worth the amount to test with.
pub proof fn law_honeypot_test_spends_the_reference(
    cfg: AppConfig,
    pool: PoolInfo,
    decimals0: u8,
    decimals1: u8,
    price0: Double,
    price1: Double,
)
    requires
        decimals0 <= MOST_DECIMALS,
        decimals1 <= MOST_DECIMALS,
        usual(price0),
        usual(price1),
        usual(cfg.screening.honeypot_test_amount_usd),
        pool.token0 != pool.token1,
    ensures
        ({
            let r = honeypot_test(cfg, pool, decimals0, decimals1, price0, price1);
            let usd = cfg.screening.honeypot_test_amount_usd.size();
            &&& subject_in(cfg, pool) is None ==> r is None
            &&& subject_in(cfg, pool) == Some(pool.token0) && price1.size() == 0 ==> r is None
            &&& subject_in(cfg, pool) == Some(pool.token1) && price0.size() == 0 ==> r is None
            &&& r matches Some(test) ==> {
                &&& test.fee == pool.fee
                &&& test.amount_in.hi == 0
                &&& test.amount_in.lo > 0
                &&& subject_in(cfg, pool) == Some(test.token)
                &&& test.token == pool.token0 ==> test.reference == pool.token1 && whole_part(
                    test.amount_in.lo,
                    usd * ten_power(decimals1 as nat),
                    price1.size(),
                )
                &&& test.token == pool.token1 ==> test.reference == pool.token0 && whole_part(
                    test.amount_in.lo,
                    usd * ten_power(decimals0 as nat),
                    price0.size(),
                )
            }
        }),
{
    lemma_small_units(0);
    if price0.size() > 0 {
        lemma_raw_amount(cfg.screening.honeypot_test_amount_usd, price0, decimals0);
    }
    if price1.size() > 0 {
        lemma_raw_amount(cfg.screening.honeypot_test_amount_usd, price1, decimals1);
    }
}

/// So many USD, half of it, in smallest units of a token.
proof fn lemma_half_in_units(usd: Double, price: Double, decimals: u8)
    requires
        usual(usd),
        usual(price),
        price.size() > 0,
        decimals <= MOST_DECIMALS,
    ensures
        ({
            let half = quotient_of(usd, Double { bits: TWO });
            whole_part(
                crate::chain::lp::in_units(quotient_of(half, price), decimals),
                usd.size() * ten_power(decimals as nat),
                2 * price.size(),
            )
        }),
        near(quotient_of(usd, Double { bits: TWO }), usd.size(), 2 * one_units(), 2, 129),
{
    let u = one_units();
    let m = decimals as nat;
    let t = ten_power(m);
    let n = usd.size();
    let p = price.size();
    let two = Double { bits: TWO };
    let half = quotient_of(usd, two);
    lemma_pow2_pos(1074);
    lemma2_to64();
    lemma2_to64_rest();
    lemma_integer(TWO, 2, 51);
    lemma_near_integer(two, 2, 1);
    lemma_near_self(usd, 128);
    lemma_near_self(price, 128);
    lemma_near_quotient(usd, n, u, 0, 128, two, 2, 1, 0, 1);
    assert(n * 1 == n && u * 2 == 2 * u);
    lemma_near_quotient(half, n, 2 * u, 2, 129, price, p, u, 0, 128);
    let q = quotient_of(half, price);
    assert((n * u) * (2 * p) == n * ((2 * u) * p)) by (nonlinear_arith);
    lemma_near_same(q, n * u, (2 * u) * p, 4, 257, n, 2 * p);
    lemma_near_ten(decimals as int);
    lemma_near_product(q, n, 2 * p, 4, 257, ten_to(decimals as int), t, 1, 2 * m, 4 * m);
    assert((2 * p) * 1 == 2 * p);
    lemma_whole_part(
        product_of(q, ten_to(decimals as int)),
        n * t,
        2 * p,
        4 + 2 * m + 2,
        257 + 4 * m,
    );
}

/// A position takes half of its USD in each token, by that token's own price and
/// decimals.
pub proof fn law_position_is_halved(usd: Double, pool: PoolState, prices: (Double, Double))
    requires
        pool.decimals0 <= MOST_DECIMALS,
        pool.decimals1 <= MOST_DECIMALS,
        usual(usd),
        usual(prices.0),
        usual(prices.1),
        prices.0.size() > 0,
        prices.1.size() > 0,
    ensures
        whole_part(
            wanted_of(usd, pool, Some(prices)).0,
            usd.size() * ten_power(pool.decimals0 as nat),
            2 * prices.0.size(),
        ),
        whole_part(
            wanted_of(usd, pool, Some(prices)).1,
            usd.size() * ten_power(pool.decimals1 as nat),
            2 * prices.1.size(),
        ),
{
    lemma_small_units(0);
    lemma_half_in_units(usd, prices.0, pool.decimals0);
    lemma_half_in_units(usd, prices.1, pool.decimals1);
}

/// The decimals up to which a position is sized by a pool's own price.
pub const USUAL_DECIMALS: u8 = 28;

/// Where the tokens have no USD prices, a position takes half of its USD as whole tokens
/// of token0, and as much token1 as the pool's own price makes of those.
pub proof fn law_unpriced_position_follows_the_pool(
    usd: Double,
    pool: PoolState,
    prices: Option<(Double, Double)>,
)
    requires
        pool.decimals0 <= USUAL_DECIMALS,
        pool.decimals1 <= USUAL_DECIMALS,
        usual(usd),
        !sizable(prices),
    ensures
        ({
            let q = pool.sqrt_price_x96.lo as nat * pool.sqrt_price_x96.lo as nat;
            let t0 = ten_power(pool.decimals0 as nat);
            &&& whole_part(
                wanted_of(usd, pool, prices).0,
                usd.size() * t0,
                2 * one_units(),
            )
            &&& whole_part(
                wanted_of(usd, pool, prices).1,
                (usd.size() * t0) * q,
                (2 * one_units()) * pow2(192),
            )
        }),
{
    let u = one_units();
    let s = pool.sqrt_price_x96;
    let q = s.lo as nat * s.lo as nat;
    let m0 = pool.decimals0 as nat;
    let m1 = pool.decimals1 as nat;
    let t0 = ten_power(m0);
    let t1 = ten_power(m1);
    let n = usd.size();
    let half = quotient_of(usd, Double { bits: TWO });
    let two = Double { bits: TWO };
    lemma_pow2_pos(1074);
    lemma_pow2_pos(192);
    lemma2_to64();
    lemma2_to64_rest();
    lemma_integer(TWO, 2, 51);
    lemma_near_integer(two, 2, 1);
    lemma_near_self(usd, 128);
    lemma_near_quotient(usd, n, u, 0, 128, two, 2, 1, 0, 1);
    assert(n * 1 == n && u * 2 == 2 * u);
    let w = 2 * u;
    lemma_ten_bound(m0);
    lemma_ten_bound(m1);
    lemma_near_ten(pool.decimals0 as int);
    lemma_near_ten(pool.decimals1 as int);
    lemma_near_product(half, n, w, 2, 129, ten_to(pool.decimals0 as int), t0, 1, 2 * m0, 4 * m0);
    assert(w * 1 == w);
    lemma_whole_part(
        product_of(half, ten_to(pool.decimals0 as int)),
        n * t0,
        w,
        2 + 2 * m0 + 2,
        129 + 4 * m0,
    );
    lemma_price(s, pool.decimals0, pool.decimals1);
    let price = crate::chain::pricing::price_of_0_in_1(s, pool.decimals0, pool.decimals1);
    let h = pow2(192);
    lemma_near_product(half, n, w, 2, 129, price, q * t0, h * t1, 400, 756);
    let x = product_of(half, price);
    lemma_near_product(
        x,
        n * (q * t0),
        w * (h * t1),
        404,
        885,
        ten_to(pool.decimals1 as int),
        t1,
        1,
        2 * m1,
        4 * m1,
    );
    let y = product_of(x, ten_to(pool.decimals1 as int));
    let n2 = (n * (q * t0)) * t1;
    let d2 = (w * (h * t1)) * 1;
    let n3 = (n * t0) * q;
    let d3 = w * h;
    assert(n2 == n3 * t1) by (nonlinear_arith)
        requires
            n2 == (n * (q * t0)) * t1,
            n3 == (n * t0) * q,
    ;
    assert(d2 == d3 * t1) by (nonlinear_arith)
        requires
            d2 == (w * (h * t1)) * 1,
            d3 == w * h,
    ;
    assert((n3 * t1) * d3 == n3 * (d3 * t1)) by (nonlinear_arith);
    assert(d3 > 0) by (nonlinear_arith)
        requires
            d3 == w * h,
            w > 0,
            h > 0,
    ;
    lemma_near_same(y, n2, d2, 404 + 2 * m1 + 2, 885 + 4 * m1, n3, d3);
    lemma_whole_part(y, n3, d3, 404 + 2 * m1 + 2, 885 + 4 * m1);
}

/// A pool's metrics tell its tokens' symbols and verdicts side by side and, where its
/// tokens have prices, its TVL by each token's own balance, price and decimals, and its
/// window's volume and traders.
pub proof fn law_metrics_by_token(
    cfg: AppConfig,
    pool: PoolInfo,
    now: u64,
    token0: TokenFacts,
    token1: TokenFacts,
    f: PricedFacts,
)
    requires
        token0.decimals <= MOST_DECIMALS,
        token1.decimals <= MOST_DECIMALS,
        usual(f.price0),
        usual(f.price1),
    ensures
        ({
            let m = metrics_of(cfg, pool, now, token0, token1, Some(f));
            let t0 = ten_power(token0.decimals as nat);
            let t1 = ten_power(token1.decimals as nat);
            &&& m.token0_symbol == token0.symbol && m.token1_symbol == token1.symbol
            &&& m.token0_verified == token0.verified && m.token1_verified == token1.verified
            &&& m.honeypot_sellable == f.honeypot_sellable
            &&& m.honeypot_round_trip_loss_percent == f.honeypot_round_trip_loss_percent
            &&& m.tvl_usd is Some && close(
                m.tvl_usd->0,
                (f.balance0.lo as nat * f.price0.size()) * t1 + (f.balance1.lo as nat
                    * f.price1.size()) * t0,
                (t0 * t1) * one_units(),
            )
            &&& f.window matches Some(w) ==> m.volume_24h_usd == Some(w.volume_usd)
                && m.unique_traders_24h == Some(w.unique_traders)
            &&& f.window is None ==> m.volume_24h_usd == Some(Double { bits: 0 })
                && m.unique_traders_24h == Some(0u64)
            &&& m.apr_percent == Some(apr_of(m.volume_24h_usd->0, pool.fee, m.tvl_usd->0))
            &&& m.market_cap_usd == market_cap(
                subject_in(cfg, pool),
                pool,
                token0.decimals,
                token1.decimals,
                f,
            )
            &&& m.age_hours == age_of(pool.created_timestamp, now)
        }),
{
    law_tvl_by_token(token0.decimals, token1.decimals, f);
}

/// The subject of a pool is one of its tokens and no reference asset, token0 where both
/// would do; there is none where both are reference assets.
pub proof fn law_subject_is_no_reference(cfg: AppConfig, pool: PoolInfo)
    requires
        cfg.reference_assets() is Some,
    ensures
        ({
            let refs = cfg.reference_assets()->0;
            let reference = |t: Address| t == refs.weth || t == refs.usdg;
            let subject = subject_in(cfg, pool);
            &&& subject matches Some(t) ==> !reference(t) && (t == pool.token0 || t == pool.token1)
            &&& !reference(pool.token0) ==> subject == Some(pool.token0)
            &&& reference(pool.token0) && !reference(pool.token1) ==> subject == Some(pool.token1)
            &&& reference(pool.token0) && reference(pool.token1) ==> subject is None
        }),
{
}

} // verus!
