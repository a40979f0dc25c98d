//! What the numbers in messages say, in exact fractions.
use vstd::arithmetic::power2::{lemma2_to64, lemma2_to64_rest, lemma_pow2_pos};
use vstd::prelude::*;

use crate::bounds::{lemma_one, lemma_small_units, lemma_ten_thousand};
use crate::chain::lp::range_ratio_of;
use crate::chain::value_laws::{lemma_near_hundred, usual};
use crate::closeness::{
    close, lemma_close, lemma_integer, lemma_near_integer, lemma_near_of_nat, lemma_near_product,
    lemma_near_quotient, lemma_near_same, lemma_near_self, lemma_near_sum, lemma_near_weaken, near,
    GRAIN,
};
use crate::config::AppConfig;
use crate::decimal::{decimal, last_digits, ten_power, thousands};
use crate::double::{of_nat, one_units, product_of, quotient_of, Double};
use crate::fixed::{fixed, scaled};
use crate::numbers::{
    BILLION, HUNDRED, MILLION, SECONDS_PER_DAY, SECONDS_PER_HOUR, SECONDS_PER_MONTH, SIXTY,
    TEN_THOUSAND, THOUSAND,
};
use crate::order::ONE;
use crate::rounding::law_nearest_and_even;
use crate::telegram::alerts::fee_percent;
use crate::telegram::units::{
    age_text, average, coarse, coarse_age, compact, seconds_since, share_of_day,
};

verus! {

/// So many steps of `10^-d`, as text.
pub open spec fn steps(t: nat, d: nat) -> Seq<char> {
    if d == 0 {
        decimal(t)
    } else {
        decimal(t / ten_power(d)).push('.') + last_digits(t, d)
    }
}

/// Whether `t` steps of `10^-d` are the ones nearest to the fraction `n / m`, up to
/// rounding.
pub open spec fn nearest_steps(t: nat, d: nat, n: nat, m: nat) -> bool {
    &&& 2 * (t * m - n * ten_power(d)) * 0x100_0000_0000 <= m * 0x100_0000_0000 + n * ten_power(d)
    &&& 2 * (n * ten_power(d) - t * m) * 0x100_0000_0000 <= m * 0x100_0000_0000 + n * ten_power(d)
}

/// Whether a text is the fraction `n / m` with `d` decimals between two pieces of text.
pub open spec fn shows(
    text: Seq<char>,
    label: Seq<char>,
    n: nat,
    m: nat,
    d: nat,
    end: Seq<char>,
) -> bool {
    exists|t: nat|
        text == label + #[trigger] steps(t, d) + end && nearest_steps(t, d, n, m)
}

/// A number is shown as the nearest that has so many decimals.
proof fn lemma_shown(x: Double, n: nat, m: nat, k: nat, e: nat, d: nat)
    requires
        near(x, n, m, k, e),
        k <= 0x100,
    ensures
        fixed(x, d) == steps(scaled(x, d), d),
        nearest_steps(scaled(x, d), d, n, m),
{
    let u = one_units();
    let p = ten_power(d);
    let s = x.size();
    let t = scaled(x, d);
    let g: int = 0x100_0000_0000;
    lemma_pow2_pos(1074);
    law_nearest_and_even(s * p, u);
    let z = (n * u) as int;
    let y = (s * m) as int;
    assert(z >= 0) by (nonlinear_arith)
        requires
            z == n * u,
    ;
    assert(GRAIN * (y - z) <= 0x100 * z && GRAIN * (z - y) <= 0x100 * z) by (nonlinear_arith)
        requires
            y * GRAIN <= z * (GRAIN + k),
            z * GRAIN <= y * GRAIN + z * k,
            k <= 0x100,
            z >= 0,
    ;
    assert(GRAIN == 0x400 * g);
    assert(4 * (g * (y - z)) <= z && 4 * (g * (z - y)) <= z);
    let a = (t * u) as int;
    let b = (s * p) as int;
    assert(2 * (a - b) <= u && 2 * (b - a) <= u);
    let am = a * m;
    let bm = b * m;
    let um = (u * m) as int;
    assert(2 * (am - bm) <= um && 2 * (bm - am) <= um) by {
        assert((2 * (a - b)) * m <= u * m) by (nonlinear_arith)
            requires
                2 * (a - b) <= u,
        ;
        assert((2 * (b - a)) * m <= u * m) by (nonlinear_arith)
            requires
                2 * (b - a) <= u,
        ;
        assert((2 * (a - b)) * m == 2 * (am - bm)) by (nonlinear_arith)
            requires
                am == a * m,
                bm == b * m,
        ;
        assert((2 * (b - a)) * m == 2 * (bm - am)) by (nonlinear_arith)
            requires
                am == a * m,
                bm == b * m,
        ;
    }
    let yp = y * p;
    let zp = z * p;
    assert(bm == yp) by (nonlinear_arith)
        requires
            bm == b * m,
            b == s * p,
            yp == y * p,
            y == s * m,
    ;
    assert(4 * (g * (yp - zp)) <= zp && 4 * (g * (zp - yp)) <= zp) by {
        assert((4 * (g * (y - z))) * p <= z * p) by (nonlinear_arith)
            requires
                4 * (g * (y - z)) <= z,
        ;
        assert((4 * (g * (z - y))) * p <= z * p) by (nonlinear_arith)
            requires
                4 * (g * (z - y)) <= z,
        ;
        assert((4 * (g * (y - z))) * p == 4 * (g * (yp - zp))) by (nonlinear_arith)
            requires
                yp == y * p,
                zp == z * p,
        ;
        assert((4 * (g * (z - y))) * p == 4 * (g * (zp - yp))) by (nonlinear_arith)
            requires
                yp == y * p,
                zp == z * p,
        ;
    }
    let tm = (t * m) as int;
    let np = (n * p) as int;
    assert(am == tm * u && zp == np * u && um == m * u) by (nonlinear_arith)
        requires
            am == a * m,
            a == t * u,
            tm == t * m,
            zp == z * p,
            z == n * u,
            np == n * p,
            um == u * m,
    ;
    let v = tm - np;
    assert(v * u == am - zp) by (nonlinear_arith)
        requires
            v == tm - np,
            am == tm * u,
            zp == np * u,
    ;
    assert(2 * (am - zp) * g <= um * g + zp);
    assert(2 * (zp - am) * g <= um * g + zp);
    let r = m * g + np;
    assert(r * u == um * g + zp) by (nonlinear_arith)
        requires
            r == m * g + np,
            um == m * u,
            zp == np * u,
    ;
    let left = 2 * v * g;
    let right = 2 * (-v) * g;
    assert(left * u == 2 * (am - zp) * g && right * u == 2 * (zp - am) * g) by (nonlinear_arith)
        requires
            left == 2 * v * g,
            right == 2 * (-v) * g,
            v * u == am - zp,
    ;
    assert(left <= r && right <= r) by (nonlinear_arith)
        requires
            left * u <= r * u,
            right * u <= r * u,
            u > 0,
    ;
}

/// A number with `d` decimals is the nearest such number.
pub proof fn law_fixed_is_nearest(x: Double, d: nat)
    requires
        usual(x),
    ensures
        shows(fixed(x, d), Seq::empty(), x.size(), one_units(), d, Seq::empty()),
{
    lemma_near_self(x, 128);
    lemma_shown(x, x.size(), one_units(), 0, 128, d);
    let t = scaled(x, d);
    assert(fixed(x, d) =~= Seq::<char>::empty() + steps(t, d) + Seq::<char>::empty());
}

/// An amount in a unit of `v`.
proof fn lemma_in_unit(x: Double, unit: u64, v: nat, d: nat)
    requires
        usual(x),
        v > 0,
        near(Double { bits: unit }, v, 1, 0, 30),
    ensures
        ({
            let q = quotient_of(x, Double { bits: unit });
            &&& fixed(q, d) == steps(scaled(q, d), d)
            &&& nearest_steps(scaled(q, d), d, x.size(), v * one_units())
        }),
{
    let u = one_units();
    lemma_pow2_pos(1074);
    lemma_near_self(x, 128);
    lemma_near_quotient(x, x.size(), u, 0, 128, Double { bits: unit }, v, 1, 0, 30);
    assert(x.size() * 1 == x.size());
    assert(u * v == v * u) by (nonlinear_arith);
    lemma_shown(quotient_of(x, Double { bits: unit }), x.size(), v * u, 2, 158, d);
}

/// The units that amounts are shown in.
proof fn lemma_amount_units()
    ensures
        near(Double { bits: BILLION }, 1_000_000_000, 1, 0, 30),
        near(Double { bits: MILLION }, 1_000_000, 1, 0, 30),
        near(Double { bits: THOUSAND }, 1_000, 1, 0, 30),
        (Double { bits: BILLION }).units() == 1_000_000_000 * one_units(),
        (Double { bits: MILLION }).units() == 1_000_000 * one_units(),
        (Double { bits: TEN_THOUSAND }).units() == 10_000 * one_units(),
        (Double { bits: THOUSAND }).units() == 1_000 * one_units(),
        (Double { bits: ONE }).units() == one_units(),
{
    lemma2_to64();
    lemma2_to64_rest();
    lemma_one();
    lemma_ten_thousand();
    lemma_integer(BILLION, 1_000_000_000, 23);
    lemma_integer(MILLION, 1_000_000, 33);
    lemma_integer(THOUSAND, 1_000, 43);
    lemma_near_integer(Double { bits: BILLION }, 1_000_000_000, 30);
    lemma_near_integer(Double { bits: MILLION }, 1_000_000, 30);
    lemma_near_integer(Double { bits: THOUSAND }, 1_000, 30);
}

/// A coarse amount is in billions or millions with one decimal, in whole thousands or in
/// whole dollars, in the largest of these units that it reaches.
pub proof fn law_coarse_amount(v: Double)
    requires
        usual(v),
    ensures
        ({
            let n = v.size();
            let u = one_units();
            if n >= 1_000_000_000 * u {
                shows(coarse(v), "$"@, n, 1_000_000_000 * u, 1, "B"@)
            } else if n >= 1_000_000 * u {
                shows(coarse(v), "$"@, n, 1_000_000 * u, 1, "M"@)
            } else if n >= 1_000 * u {
                shows(coarse(v), "$"@, n, 1_000 * u, 0, "K"@)
            } else {
                shows(coarse(v), "$"@, n, u, 0, ""@)
            }
        }),
{
    lemma_amount_units();
    lemma_in_unit(v, BILLION, 1_000_000_000, 1);
    lemma_in_unit(v, MILLION, 1_000_000, 1);
    lemma_in_unit(v, THOUSAND, 1_000, 0);
    lemma_near_self(v, 128);
    lemma_shown(v, v.size(), one_units(), 0, 128, 0);
    let t = scaled(v, 0);
    assert(steps(t, 0) == fixed(v, 0));
}

/// A compact amount is in billions or millions with two decimals, in thousands with one
/// from ten of them on, else in whole dollars, and less than one is not told further.
pub proof fn law_compact_amount(v: Double)
    requires
        usual(v),
    ensures
        ({
            let n = v.size();
            let u = one_units();
            if n >= 1_000_000_000 * u {
                shows(compact(v), ""@, n, 1_000_000_000 * u, 2, "B"@)
            } else if n >= 1_000_000 * u {
                shows(compact(v), ""@, n, 1_000_000 * u, 2, "M"@)
            } else if n >= 10_000 * u {
                shows(compact(v), ""@, n, 1_000 * u, 1, "K"@)
            } else if n >= u {
                exists|t: nat|
                    compact(v) == #[trigger] thousands(t) && nearest_steps(t, 0, n, u)
            } else {
                compact(v) == "<1"@
            }
        }),
{
    lemma_amount_units();
    lemma_in_unit(v, BILLION, 1_000_000_000, 2);
    lemma_in_unit(v, MILLION, 1_000_000, 2);
    lemma_in_unit(v, THOUSAND, 1_000, 1);
    lemma_near_self(v, 128);
    lemma_shown(v, v.size(), one_units(), 0, 128, 0);
    let t = scaled(v, 0);
    assert(thousands(t) == thousands(scaled(v, 0)));
}

/// The average trade is the volume by the number of buys and sells together.
pub proof fn law_average_is_over_all_trades(vol: Double, buys: u64, sells: u64)
    requires
        usual(vol),
        buys + sells <= u64::MAX,
    ensures
        buys + sells > 0 ==> exists|q: Double|
            average(vol, buys, sells) == #[trigger] compact(q) && close(
                q,
                vol.size(),
                (buys + sells) as nat * one_units(),
            ),
        buys + sells == 0 ==> average(vol, buys, sells) == "—"@,
{
    if buys + sells > 0 {
        let u = one_units();
        let c = (buys + sells) as nat;
        lemma_pow2_pos(1074);
        lemma2_to64();
        lemma2_to64_rest();
        lemma_near_self(vol, 128);
        lemma_near_of_nat(c, 64);
        lemma_near_quotient(vol, vol.size(), u, 0, 128, of_nat(c), c, 1, 1, 64);
        let q = quotient_of(vol, of_nat(c));
        assert(vol.size() * 1 == vol.size());
        assert(u * c == c * u) by (nonlinear_arith);
        lemma_close(q, vol.size(), c * u, 3, 192);
        assert(average(vol, buys, sells) == compact(q));
    }
}

/// The share of a window is its volume in percent of the day's, with one decimal.
pub proof fn law_share_is_of_the_day(window_vol: Double, h24_vol: Double)
    requires
        usual(window_vol),
        usual(h24_vol),
    ensures
        h24_vol.size() > 0 ==> shows(
            share_of_day(window_vol, h24_vol),
            ""@,
            100 * window_vol.size(),
            h24_vol.size(),
            1,
            "%"@,
        ),
        h24_vol.size() == 0 ==> share_of_day(window_vol, h24_vol) == "—"@,
{
    lemma_small_units(0);
    if h24_vol.size() > 0 {
        let u = one_units();
        let n = window_vol.size();
        let h = h24_vol.size();
        lemma_pow2_pos(1074);
        lemma_near_self(window_vol, 128);
        lemma_near_self(h24_vol, 128);
        lemma_near_quotient(window_vol, n, u, 0, 128, h24_vol, h, u, 0, 128);
        let q = quotient_of(window_vol, h24_vol);
        assert((n * u) * h == n * (u * h)) by (nonlinear_arith);
        lemma_near_same(q, n * u, u * h, 2, 256, n, h);
        lemma_near_hundred();
        lemma_near_product(q, n, h, 2, 256, Double { bits: HUNDRED }, 100, 1, 0, 7);
        assert(n * 100 == 100 * n && h * 1 == h);
        let p = product_of(q, Double { bits: HUNDRED });
        lemma_shown(p, 100 * n, h, 4, 263, 1);
        let t = scaled(p, 1);
        assert(share_of_day(window_vol, h24_vol) == ""@ + steps(t, 1) + "%"@);
    }
}

/// A time in a unit of `v` seconds.
proof fn lemma_time(s: u64, unit: u64, v: nat, d: nat)
    requires
        v > 0,
        near(Double { bits: unit }, v, 1, 0, 30),
    ensures
        ({
            let q = quotient_of(of_nat(s as nat), Double { bits: unit });
            &&& fixed(q, d) == steps(scaled(q, d), d)
            &&& nearest_steps(scaled(q, d), d, s as nat, v)
        }),
{
    lemma2_to64();
    lemma2_to64_rest();
    lemma_near_of_nat(s as nat, 64);
    lemma_near_quotient(of_nat(s as nat), s as nat, 1, 1, 64, Double { bits: unit }, v, 1, 0, 30);
    assert(s as nat * 1 == s as nat && 1 * v == v);
    lemma_shown(quotient_of(of_nat(s as nat), Double { bits: unit }), s as nat, v, 3, 94, d);
}

/// The units that ages are shown in.
proof fn lemma_time_units()
    ensures
        near(Double { bits: SIXTY }, 60, 1, 0, 30),
        near(Double { bits: SECONDS_PER_HOUR }, 3_600, 1, 0, 30),
        near(Double { bits: SECONDS_PER_DAY }, 86_400, 1, 0, 30),
        near(Double { bits: SECONDS_PER_MONTH }, 2_592_000, 1, 0, 30),
{
    lemma2_to64();
    lemma2_to64_rest();
    lemma_integer(SIXTY, 60, 47);
    lemma_integer(SECONDS_PER_HOUR, 3_600, 41);
    lemma_integer(SECONDS_PER_DAY, 86_400, 36);
    lemma_integer(SECONDS_PER_MONTH, 2_592_000, 31);
    lemma_near_integer(Double { bits: SIXTY }, 60, 30);
    lemma_near_integer(Double { bits: SECONDS_PER_HOUR }, 3_600, 30);
    lemma_near_integer(Double { bits: SECONDS_PER_DAY }, 86_400, 30);
    lemma_near_integer(Double { bits: SECONDS_PER_MONTH }, 2_592_000, 30);
}

/// Ages are shown in the largest unit that they reach: minutes, hours, days and, where
/// there is room, months of thirty days.
pub proof fn law_ages_in_their_unit(s: u64)
    ensures
        s < 60 ==> coarse_age(Some(s)) == "<1m"@ && age_text(Some(s)) == "<1m"@,
        60 <= s < 3_600 ==> shows(coarse_age(Some(s)), ""@, s as nat, 60, 0, "m"@) && shows(
            age_text(Some(s)),
            ""@,
            s as nat,
            60,
            0,
            "m"@,
        ),
        3_600 <= s < 86_400 ==> shows(coarse_age(Some(s)), ""@, s as nat, 3_600, 0, "h"@) && shows(
            age_text(Some(s)),
            ""@,
            s as nat,
            3_600,
            1,
            "h"@,
        ),
        86_400 <= s ==> shows(coarse_age(Some(s)), ""@, s as nat, 86_400, 0, "d"@),
        86_400 <= s < 2_592_000 ==> shows(age_text(Some(s)), ""@, s as nat, 86_400, 0, "d"@),
        2_592_000 <= s ==> shows(age_text(Some(s)), ""@, s as nat, 2_592_000, 1, "mo"@),
{
    lemma_time_units();
    lemma_time(s, SIXTY, 60, 0);
    lemma_time(s, SECONDS_PER_HOUR, 3_600, 0);
    lemma_time(s, SECONDS_PER_HOUR, 3_600, 1);
    lemma_time(s, SECONDS_PER_DAY, 86_400, 0);
    lemma_time(s, SECONDS_PER_MONTH, 2_592_000, 1);
}

/// An age is whole seconds of the milliseconds that have passed, and none where the clock
/// is behind.
pub proof fn law_age_from_milliseconds(created_ms: u64, now_ms: u64)
    ensures
        seconds_since(None, now_ms) is None,
        ({
            let s = seconds_since(Some(created_ms), now_ms);
            &&& s is Some
            &&& created_ms <= now_ms ==> s->0 * 1000 <= now_ms - created_ms < (s->0 + 1) * 1000
            &&& now_ms < created_ms ==> s->0 == 0
        }),
{
}

/// A fee tier counts millionths: a ten-thousandth of it is its percentage.
pub proof fn law_fee_in_percent(fee: u32)
    ensures
        close(fee_percent(fee), fee as nat, 10_000),
{
    let f = fee as nat;
    lemma2_to64();
    lemma_ten_thousand();
    lemma_near_of_nat(f, 32);
    lemma_near_integer(Double { bits: TEN_THOUSAND }, 10_000, 14);
    lemma_near_quotient(of_nat(f), f, 1, 1, 32, Double { bits: TEN_THOUSAND }, 10_000, 1, 0, 14);
    assert(f * 1 == f);
    lemma_close(fee_percent(fee), f, 10_000, 3, 46);
}

/// The upper end of a position's range lies the configured percentage above the price.
pub proof fn law_range_ratio_in_numbers(cfg: AppConfig)
    requires
        usual(cfg.wallet.tick_range_percent),
    ensures
        close(
            range_ratio_of(cfg),
            100 * one_units() + cfg.wallet.tick_range_percent.size(),
            100 * one_units(),
        ),
{
    let u = one_units();
    let x = cfg.wallet.tick_range_percent;
    let p = x.size();
    let one = Double { bits: ONE };
    lemma_pow2_pos(1074);
    lemma2_to64();
    lemma_one();
    lemma_near_integer(one, 1, 0);
    lemma_near_self(x, 128);
    lemma_near_hundred();
    lemma_near_quotient(x, p, u, 0, 128, Double { bits: HUNDRED }, 100, 1, 0, 7);
    let q = quotient_of(x, Double { bits: HUNDRED });
    assert(p * 1 == p && u * 100 == 100 * u);
    lemma_near_weaken(one, 1, 1, 0, 0, 2, 135);
    lemma_near_sum(one, 1, 1, q, p, 100 * u, 2, 135);
    assert(1 * (100 * u) + p * 1 == 100 * u + p && 1 * (100 * u) == 100 * u);
    lemma_close(range_ratio_of(cfg), 100 * u + p, 100 * u, 3, 136);
}

} // verus!
