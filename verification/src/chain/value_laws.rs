//! What positions and pools are worth, in exact fractions.
use vstd::arithmetic::power2::{
    lemma2_to64, lemma2_to64_rest, lemma_pow2_adds, lemma_pow2_pos, pow2,
};
use vstd::prelude::*;

use crate::bounds::lemma_small_units;
use crate::chain::metrics::{tvl_of, whole_tokens, PricedFacts};
use crate::chain::position::{amounts_of, owed_tokens, pnl_of, Holdings};
use crate::chain::price_laws::MOST_DECIMALS;
use crate::chain::pricing::sqrt_ratio;
use crate::chain::volume::absolute_of;
use crate::closeness::{
    close, lemma_close, lemma_integer, lemma_near_difference, lemma_near_integer,
    lemma_near_of_nat, lemma_near_product, lemma_near_quotient, lemma_near_same, lemma_near_self,
    lemma_near_sum, lemma_near_ten, lemma_near_weaken, lemma_ten_bound, near, ordinary,
};
use crate::decimal::ten_power;
use crate::double::{
    difference_of, less, negation_of, of_nat, one_units, product_of, quotient_of, signed, sum_of,
    Double,
};
use crate::monotone::{lemma_difference, lemma_plain_order, plain};
use crate::numbers::HUNDRED;
use crate::order::ten_to;
use crate::rounding::{lemma_pow2_127, nearest_magnitude, INFINITE};

verus! {

/// Whether a number can stand for a price or an amount: not negative, and between
/// `2^-128` and `2^128` or zero.
pub open spec fn usual(x: Double) -> bool {
    plain(x) && x.finite() && ordinary(x, 128)
}

/// An amount in whole tokens.
pub proof fn lemma_near_whole(x: Double, n: nat, d: nat, k: nat, e: nat, decimals: u8)
    requires
        near(x, n, d, k, e),
        k <= 0x1000,
        e <= 600,
        decimals <= MOST_DECIMALS,
    ensures
        near(
            quotient_of(x, ten_to(decimals as int)),
            n,
            d * ten_power(decimals as nat),
            k + 156,
            e + 308,
        ),
{
    let m = decimals as nat;
    let t = ten_power(m);
    lemma_near_ten(decimals as int);
    lemma_ten_bound(m);
    lemma_near_quotient(x, n, d, k, e, ten_to(decimals as int), t, 1, 2 * m, 4 * m);
    assert(n * 1 == n);
    lemma_near_weaken(
        quotient_of(x, ten_to(decimals as int)),
        n,
        d * t,
        k + 2 * m + 2,
        e + 4 * m,
        k + 156,
        e + 308,
    );
}

pub proof fn lemma_near_count(v: u128)
    ensures
        near(of_nat(v as nat), v as nat, 1, 1, 128),
{
    lemma_pow2_127();
    lemma_pow2_adds(127, 1);
    lemma2_to64();
    lemma_near_of_nat(v as nat, 128);
}

/// So much of a token, at its price.
pub proof fn lemma_near_worth(v: u128, decimals: u8, price: Double)
    requires
        usual(price),
        decimals <= MOST_DECIMALS,
    ensures
        near(
            product_of(quotient_of(of_nat(v as nat), ten_to(decimals as int)), price),
            v as nat * price.size(),
            ten_power(decimals as nat) * one_units(),
            159,
            564,
        ),
{
    let t = ten_power(decimals as nat);
    lemma_near_count(v);
    lemma_near_whole(of_nat(v as nat), v as nat, 1, 1, 128, decimals);
    assert(1 * t == t);
    lemma_near_self(price, 128);
    lemma_near_product(
        quotient_of(of_nat(v as nat), ten_to(decimals as int)),
        v as nat,
        t,
        157,
        436,
        price,
        price.size(),
        one_units(),
        0,
        128,
    );
}

/// So much of two tokens, each at its price, in terms of both tokens' decimals.
pub proof fn lemma_close_worths(
    x: Double,
    n0: nat,
    t0: nat,
    y: Double,
    n1: nat,
    t1: nat,
    w: nat,
    k: nat,
    e: nat,
)
    requires
        near(x, n0, t0 * w, k, e),
        near(y, n1, t1 * w, k, e),
        k < 0x400,
        e < 1000,
        t0 > 0,
        t1 > 0,
        w > 0,
    ensures
        close(sum_of(x, y), n0 * t1 + n1 * t0, (t0 * t1) * w),
{
    let d0 = t0 * w;
    let d1 = t1 * w;
    lemma_near_sum(x, n0, d0, y, n1, d1, k, e);
    let d = (t0 * t1) * w;
    let n = n0 * t1 + n1 * t0;
    assert(d > 0) by (nonlinear_arith)
        requires
            d == (t0 * t1) * w,
            t0 > 0,
            t1 > 0,
            w > 0,
    ;
    assert(n0 * d1 + n1 * d0 == n * w) by (nonlinear_arith)
        requires
            d0 == t0 * w,
            d1 == t1 * w,
            n == n0 * t1 + n1 * t0,
    ;
    assert(d0 * d1 == d * w) by (nonlinear_arith)
        requires
            d0 == t0 * w,
            d1 == t1 * w,
            d == (t0 * t1) * w,
    ;
    assert((n * w) * d == n * (d * w)) by (nonlinear_arith);
    lemma_near_same(sum_of(x, y), n * w, d * w, k + 1, e + 1, n, d);
    lemma_close(sum_of(x, y), n, d, k + 1, e + 1);
}

/// Uncollected fees are worth what is owed of each token, in whole tokens by that token's
/// own decimals, at that token's own price.
pub proof fn law_fees_by_token(entry_cost: Double, h: Holdings, prices: (Double, Double))
    requires
        h.decimals0 <= MOST_DECIMALS,
        h.decimals1 <= MOST_DECIMALS,
        usual(prices.0),
        usual(prices.1),
    ensures
        ({
            let t0 = ten_power(h.decimals0 as nat);
            let t1 = ten_power(h.decimals1 as nat);
            close(
                pnl_of(entry_cost, h, prices).uncollected_fees_usd,
                (h.owed0 as nat * prices.0.size()) * t1 + (h.owed1 as nat * prices.1.size()) * t0,
                (t0 * t1) * one_units(),
            )
        }),
{
    let t0 = ten_power(h.decimals0 as nat);
    let t1 = ten_power(h.decimals1 as nat);
    lemma_pow2_pos(1074);
    lemma_ten_bound(h.decimals0 as nat);
    lemma_ten_bound(h.decimals1 as nat);
    lemma_near_worth(h.owed0, h.decimals0, prices.0);
    lemma_near_worth(h.owed1, h.decimals1, prices.1);
    lemma_close_worths(
        product_of(owed_tokens(h.owed0, h.decimals0), prices.0),
        h.owed0 as nat * prices.0.size(),
        t0,
        product_of(owed_tokens(h.owed1, h.decimals1), prices.1),
        h.owed1 as nat * prices.1.size(),
        t1,
        one_units(),
        159,
        564,
    );
}

/// A pool's TVL is what it holds of each token, in whole tokens by that token's own
/// decimals, at that token's own price.
pub proof fn law_tvl_by_token(decimals0: u8, decimals1: u8, f: PricedFacts)
    requires
        decimals0 <= MOST_DECIMALS,
        decimals1 <= MOST_DECIMALS,
        usual(f.price0),
        usual(f.price1),
    ensures
        ({
            let t0 = ten_power(decimals0 as nat);
            let t1 = ten_power(decimals1 as nat);
            close(
                tvl_of(decimals0, decimals1, f),
                (f.balance0.lo as nat * f.price0.size()) * t1 + (f.balance1.lo as nat
                    * f.price1.size()) * t0,
                (t0 * t1) * one_units(),
            )
        }),
{
    let t0 = ten_power(decimals0 as nat);
    let t1 = ten_power(decimals1 as nat);
    lemma_pow2_pos(1074);
    lemma_ten_bound(decimals0 as nat);
    lemma_ten_bound(decimals1 as nat);
    lemma_near_worth(f.balance0.lo, decimals0, f.price0);
    lemma_near_worth(f.balance1.lo, decimals1, f.price1);
    lemma_close_worths(
        product_of(whole_tokens(f.balance0, decimals0), f.price0),
        f.balance0.lo as nat * f.price0.size(),
        t0,
        product_of(whole_tokens(f.balance1, decimals1), f.price1),
        f.balance1.lo as nat * f.price1.size(),
        t1,
        one_units(),
        159,
        564,
    );
}

/// One side of a position: principal and fees, at the token's price.
proof fn lemma_near_side(amount: Double, owed: u128, decimals: u8, price: Double)
    requires
        usual(amount),
        usual(price),
        decimals <= MOST_DECIMALS,
    ensures
        near(
            product_of(
                sum_of(quotient_of(amount, ten_to(decimals as int)), owed_tokens(owed, decimals)),
                price,
            ),
            (amount.size() + owed as nat * one_units()) * price.size(),
            ten_power(decimals as nat) * (one_units() * one_units()),
            160,
            565,
        ),
{
    let t = ten_power(decimals as nat);
    let u = one_units();
    let a = amount.size();
    let o = owed as nat;
    lemma_pow2_pos(1074);
    lemma_ten_bound(decimals as nat);
    let x = quotient_of(amount, ten_to(decimals as int));
    let y = owed_tokens(owed, decimals);
    lemma_near_self(amount, 128);
    lemma_near_whole(amount, a, u, 0, 128, decimals);
    lemma_near_count(owed);
    lemma_near_whole(of_nat(o), o, 1, 1, 128, decimals);
    assert(1 * t == t);
    let d = u * t;
    assert(d > 0) by (nonlinear_arith)
        requires
            d == u * t,
            u > 0,
            t > 0,
    ;
    lemma_near_weaken(x, a, d, 156, 436, 157, 436);
    lemma_near_sum(x, a, d, y, o, t, 157, 436);
    let n = a + o * u;
    assert(d * t > 0) by (nonlinear_arith)
        requires
            d > 0,
            t > 0,
    ;
    assert((a * t + o * d) * d == n * (d * t)) by (nonlinear_arith)
        requires
            d == u * t,
            n == a + o * u,
    ;
    let s = sum_of(x, y);
    lemma_near_same(s, a * t + o * d, d * t, 158, 437, n, d);
    lemma_near_self(price, 128);
    lemma_near_product(s, n, d, 158, 437, price, price.size(), u, 0, 128);
    assert(d * u == t * (u * u)) by (nonlinear_arith)
        requires
            d == u * t,
    ;
}

/// A position is worth what it holds and is owed of each token, in whole tokens by that
/// token's own decimals, at that token's own price: scaling the amounts of one token and
/// its decimals together changes nothing, and exchanging the two tokens exchanges the two
/// terms of the sum.
pub proof fn law_value_by_token(entry_cost: Double, h: Holdings, prices: (Double, Double))
    requires
        h.decimals0 <= MOST_DECIMALS,
        h.decimals1 <= MOST_DECIMALS,
        usual(prices.0),
        usual(prices.1),
        ({
            let held = amounts_of(
                h.liquidity,
                sqrt_ratio(h.sqrt_price_x96),
                h.sqrt_lower,
                h.sqrt_upper,
            );
            usual(held.0) && usual(held.1)
        }),
    ensures
        ({
            let held = amounts_of(
                h.liquidity,
                sqrt_ratio(h.sqrt_price_x96),
                h.sqrt_lower,
                h.sqrt_upper,
            );
            let t0 = ten_power(h.decimals0 as nat);
            let t1 = ten_power(h.decimals1 as nat);
            close(
                pnl_of(entry_cost, h, prices).current_value_usd,
                ((held.0.size() + h.owed0 as nat * one_units()) * prices.0.size()) * t1 + ((
                held.1.size() + h.owed1 as nat * one_units()) * prices.1.size()) * t0,
                (t0 * t1) * (one_units() * one_units()),
            )
        }),
{
    let held = amounts_of(h.liquidity, sqrt_ratio(h.sqrt_price_x96), h.sqrt_lower, h.sqrt_upper);
    let t0 = ten_power(h.decimals0 as nat);
    let t1 = ten_power(h.decimals1 as nat);
    let u = one_units();
    lemma_pow2_pos(1074);
    lemma_ten_bound(h.decimals0 as nat);
    lemma_ten_bound(h.decimals1 as nat);
    lemma_near_side(held.0, h.owed0, h.decimals0, prices.0);
    lemma_near_side(held.1, h.owed1, h.decimals1, prices.1);
    assert(u * u > 0) by (nonlinear_arith)
        requires
            u > 0,
    ;
    lemma_close_worths(
        product_of(
            sum_of(
                quotient_of(held.0, ten_to(h.decimals0 as int)),
                owed_tokens(h.owed0, h.decimals0),
            ),
            prices.0,
        ),
        (held.0.size() + h.owed0 as nat * u) * prices.0.size(),
        t0,
        product_of(
            sum_of(
                quotient_of(held.1, ten_to(h.decimals1 as int)),
                owed_tokens(h.owed1, h.decimals1),
            ),
            prices.1,
        ),
        (held.1.size() + h.owed1 as nat * u) * prices.1.size(),
        t1,
        u * u,
        160,
        565,
    );
}

/// One hundred, as a fraction.
pub proof fn lemma_near_hundred()
    ensures
        near(Double { bits: HUNDRED }, 100, 1, 0, 7),
        !(Double { bits: HUNDRED }).negative(),
        (Double { bits: HUNDRED }).finite(),
{
    lemma2_to64();
    lemma2_to64_rest();
    lemma_integer(HUNDRED, 100, 46);
    lemma_near_integer(Double { bits: HUNDRED }, 100, 7);
}

/// A quotient and then a product keep the sign of what is divided.
pub proof fn lemma_sign_passes(m: nat, cost: Double)
    requires
        m < INFINITE,
        plain(cost),
        cost.finite(),
        cost.size() > 0,
        quotient_of(signed(false, m), cost).finite(),
    ensures
        ({
            let gain = product_of(quotient_of(signed(false, m), cost), Double { bits: HUNDRED });
            let loss = product_of(quotient_of(signed(true, m), cost), Double { bits: HUNDRED });
            loss.negative() && absolute_of(loss) == absolute_of(gain) && !gain.negative()
        }),
{
    let a = signed(false, m);
    let b = signed(true, m);
    let hundred = Double { bits: HUNDRED };
    lemma_near_hundred();
    assert(a.magnitude() == m && b.magnitude() == m);
    assert(!a.negative() && b.negative());
    let k = nearest_magnitude(a.size() * one_units(), cost.size());
    let qa = quotient_of(a, cost);
    let qb = quotient_of(b, cost);
    assert(k <= INFINITE);
    assert(qa == signed(false, k) && qb == signed(true, k));
    assert(qa.magnitude() == k && qb.magnitude() == k);
    assert(!qa.negative() && qb.negative());
    let j = nearest_magnitude(qa.size() * hundred.size(), one_units());
    assert(j <= INFINITE);
    assert(product_of(qa, hundred) == signed(false, j));
    assert(product_of(qb, hundred) == signed(true, j));
}

/// The difference of two numbers, and that difference in percent of a third.
pub proof fn lemma_close_percent(high: Double, low: Double, cost: Double)
    requires
        usual(high),
        usual(low),
        usual(cost),
        cost.size() > 0,
        low.size() <= high.size(),
        low.size() == high.size() || one_units() <= (high.size() - low.size()) * pow2(300),
    ensures
        close(difference_of(high, low), (high.size() - low.size()) as nat, one_units()),
        quotient_of(difference_of(high, low), cost).finite(),
        plain(difference_of(high, low)),
        difference_of(high, low).finite(),
        close(
            product_of(quotient_of(difference_of(high, low), cost), Double { bits: HUNDRED }),
            100 * (high.size() - low.size()) as nat,
            cost.size(),
        ),
{
    let u = one_units();
    let n = (high.size() - low.size()) as nat;
    let c = cost.size();
    lemma_pow2_pos(1074);
    lemma_pow2_adds(128, 172);
    lemma_pow2_pos(172);
    assert(high.size() <= u * pow2(300)) by {
        assert(u * pow2(128) <= u * pow2(300)) by (nonlinear_arith)
            requires
                pow2(300) == pow2(128) * pow2(172),
                pow2(172) > 0,
        ;
        assert(0 <= u * pow2(128)) by (nonlinear_arith);
    }
    lemma_near_difference(high, low, 300);
    let d = difference_of(high, low);
    lemma_close(d, n, u, 1, 300);
    lemma_near_self(cost, 128);
    lemma_near_quotient(d, n, u, 1, 300, cost, c, u, 0, 128);
    let q = quotient_of(d, cost);
    lemma_near_hundred();
    lemma_near_product(q, n * u, u * c, 3, 428, Double { bits: HUNDRED }, 100, 1, 0, 7);
    let p = product_of(q, Double { bits: HUNDRED });
    assert(((n * u) * 100) * c == (100 * n) * ((u * c) * 1)) by (nonlinear_arith);
    lemma_near_same(p, (n * u) * 100, (u * c) * 1, 5, 435, 100 * n, c);
    lemma_close(p, 100 * n, c, 5, 435);
}

/// What is taken from less than itself leaves the negative of the difference.
pub proof fn lemma_loss(value: Double, cost: Double)
    requires
        plain(value),
        value.finite(),
        plain(cost),
        cost.finite(),
        value.size() < cost.size(),
    ensures
        difference_of(cost, value) == signed(false, difference_of(cost, value).magnitude()),
        difference_of(value, cost) == signed(true, difference_of(cost, value).magnitude()),
        difference_of(cost, value).magnitude() < INFINITE,
{
    let n = (cost.size() - value.size()) as nat;
    let m = nearest_magnitude(n, 1);
    lemma_plain_order(value, cost);
    lemma_difference(cost, value);
    let z = negation_of(cost);
    assert(z.magnitude() == cost.magnitude());
    assert(z.negative());
    assert(value.units() + z.units() == -n);
    assert(difference_of(value, cost) == signed(true, m));
}

/// A position's profit is its value less what it cost, a loss where that is negative,
/// and its percentage is the profit against the cost, with the same sign.
pub proof fn law_pnl_against_cost(entry_cost: Double, h: Holdings, prices: (Double, Double))
    requires
        usual(entry_cost),
        entry_cost.size() > 0,
        usual(pnl_of(entry_cost, h, prices).current_value_usd),
        ({
            let value = pnl_of(entry_cost, h, prices).current_value_usd.size();
            let cost = entry_cost.size();
            value == cost || (one_units() <= (value - cost) * pow2(300)) || (one_units() <= (cost
                - value) * pow2(300))
        }),
    ensures
        ({
            let r = pnl_of(entry_cost, h, prices);
            let value = r.current_value_usd.size();
            let cost = entry_cost.size();
            &&& value >= cost ==> close(r.pnl_usd, (value - cost) as nat, one_units())
            &&& value >= cost ==> close(r.pnl_percent, 100 * (value - cost) as nat, cost)
            &&& value < cost ==> r.pnl_usd.negative() && close(
                absolute_of(r.pnl_usd),
                (cost - value) as nat,
                one_units(),
            )
            &&& value < cost ==> r.pnl_percent.negative() && close(
                absolute_of(r.pnl_percent),
                100 * (cost - value) as nat,
                cost,
            )
        }),
{
    let v = pnl_of(entry_cost, h, prices).current_value_usd;
    lemma_against_cost(v, entry_cost);
}

proof fn lemma_against_cost(v: Double, entry_cost: Double)
    requires
        usual(entry_cost),
        entry_cost.size() > 0,
        usual(v),
        v.size() == entry_cost.size() || (one_units() <= (v.size() - entry_cost.size()) * pow2(300))
            || (one_units() <= (entry_cost.size() - v.size()) * pow2(300)),
    ensures
        less(Double { bits: 0 }, entry_cost),
        ({
            let usd = difference_of(v, entry_cost);
            let percent = product_of(quotient_of(usd, entry_cost), Double { bits: HUNDRED });
            let value = v.size();
            let cost = entry_cost.size();
            &&& value >= cost ==> close(usd, (value - cost) as nat, one_units())
            &&& value >= cost ==> close(percent, 100 * (value - cost) as nat, cost)
            &&& value < cost ==> usd.negative() && close(
                absolute_of(usd),
                (cost - value) as nat,
                one_units(),
            )
            &&& value < cost ==> percent.negative() && close(
                absolute_of(percent),
                100 * (cost - value) as nat,
                cost,
            )
        }),
{
    let cost = entry_cost;
    let p300 = pow2(300);
    lemma_pow2_pos(1074);
    lemma_small_units(0);
    if v.size() >= cost.size() {
        assert((cost.size() - v.size()) * p300 <= 0) by (nonlinear_arith)
            requires
                v.size() >= cost.size(),
                p300 >= 0,
        ;
        lemma_close_percent(v, cost, cost);
    } else {
        assert((v.size() - cost.size()) * p300 <= 0) by (nonlinear_arith)
            requires
                v.size() < cost.size(),
                p300 >= 0,
        ;
        lemma_close_percent(cost, v, cost);
        lemma_loss(v, cost);
        let d = difference_of(cost, v);
        let m = d.magnitude();
        lemma_sign_passes(m, cost);
        let gain = product_of(quotient_of(d, cost), Double { bits: HUNDRED });
        assert(absolute_of(difference_of(v, cost)) == d);
        assert(absolute_of(gain) == gain);
    }
}

/// A position is in range from its lower tick on up to, not at, its upper one; its
/// percentage is nothing where it cost nothing.
pub proof fn law_range_and_free_positions(entry_cost: Double, h: Holdings, prices: (Double, Double))
    ensures
        h.current_tick < h.tick_lower ==> !pnl_of(entry_cost, h, prices).in_range,
        h.current_tick >= h.tick_upper ==> !pnl_of(entry_cost, h, prices).in_range,
        h.tick_lower <= h.current_tick < h.tick_upper ==> pnl_of(entry_cost, h, prices).in_range,
        !less(Double { bits: 0 }, entry_cost) ==> pnl_of(entry_cost, h, prices).pnl_percent == (
        Double { bits: 0 }),
{
}

} // verus!
