//! What swaps, tolerances and round trips amount to, in exact fractions.
use vstd::arithmetic::power2::{
    lemma2_to64, lemma2_to64_rest, lemma_pow2_adds, lemma_pow2_pos, lemma_pow2_strictly_increases,
    pow2,
};
use vstd::prelude::*;

use crate::address::two_128;
use crate::chain::price_laws::MOST_DECIMALS;
use crate::chain::pricing::{nearest_to, I256};
use crate::chain::value_laws::{lemma_near_whole, usual};
use crate::chain::volume::{absolute_of, leg_usd, swap_usd, total_usd, PoolUnits, SwapEvent};
use crate::closeness::{
    close, lemma_close, lemma_integer, lemma_near_integer, lemma_near_of_nat, lemma_near_product,
    lemma_near_quotient, lemma_near_same, lemma_near_self, lemma_near_sum, lemma_near_ten,
    lemma_near_weaken, lemma_near_zero, lemma_ten_bound, near,
};
use crate::decimal::ten_power;
use crate::double::{of_nat, one_units, quotient_of, signed, sum_of, Double};
use crate::numbers::TWO;
use crate::order::ten_to;
use crate::rounding::{lemma_pow2_127, nearest_magnitude, INFINITE};

verus! {

/// Whether the decimals and prices of a pool's tokens are ones that laws speak of.
pub open spec fn usual_units(units: PoolUnits) -> bool {
    &&& units.decimals0 <= MOST_DECIMALS
    &&& units.decimals1 <= MOST_DECIMALS
    &&& usual(units.price0)
    &&& usual(units.price1)
}

proof fn lemma_near_leg(amount: I256, decimals: u8, price: Double)
    requires
        usual(price),
        decimals <= MOST_DECIMALS,
    ensures
        near(
            leg_usd(amount, decimals, price),
            amount.size.value() * price.size(),
            ten_power(decimals as nat) * one_units(),
            159,
            692,
        ),
{
    let v = amount.size.value();
    let x = of_nat(v);
    let t = ten_power(decimals as nat);
    let ten = ten_to(decimals as int);
    lemma_pow2_pos(1074);
    lemma2_to64();
    lemma_pow2_127();
    lemma_pow2_adds(127, 1);
    lemma_pow2_adds(128, 128);
    assert(v <= pow2(256)) by (nonlinear_arith)
        requires
            v == amount.size.hi as nat * two_128() + amount.size.lo as nat,
            two_128() == pow2(128),
            amount.size.hi < pow2(128),
            amount.size.lo < pow2(128),
            pow2(256) == pow2(128) * pow2(128),
    ;
    lemma_near_of_nat(v, 256);
    lemma_near_whole(x, v, 1, 1, 256, decimals);
    assert(1 * t == t);
    lemma_near_ten(decimals as int);
    lemma_ten_bound(decimals as nat);
    let q = quotient_of(x, ten);
    let y = nearest_to(amount);
    assert(y.magnitude() == x.magnitude());
    assert(absolute_of(quotient_of(y, ten)) == q) by {
        let k = nearest_magnitude(x.size() * one_units(), ten.size());
        assert(k <= INFINITE);
        assert(ten.size() > 0) by {
            if ten.size() == 0 {
                assert(t * one_units() > 0) by (nonlinear_arith)
                    requires
                        t >= 1,
                        one_units() > 0,
                ;
                assert((0 * 1) == 0);
                assert(near(ten, t, 1, 2 * decimals as nat, 4 * decimals as nat));
                let z = t * one_units();
                assert(z * crate::closeness::GRAIN <= z * (2 * decimals as nat));
                assert(false) by (nonlinear_arith)
                    requires
                        z > 0,
                        z * 0x4_0000_0000_0000 <= z * (2 * decimals as nat),
                        decimals <= 77,
                ;
            }
        }
        assert(q == signed(false, k));
        assert(quotient_of(y, ten) == signed(y.negative(), k));
    }
    lemma_near_self(price, 128);
    lemma_near_product(q, v, t, 157, 564, price, price.size(), one_units(), 0, 128);
}

/// What the two legs of a swap are worth together, as the numerator of a fraction.
pub open spec fn legs(event: SwapEvent, units: PoolUnits) -> nat {
    (event.amount0.size.value() * units.price0.size()) * ten_power(units.decimals1 as nat) + (
    event.amount1.size.value() * units.price1.size()) * ten_power(units.decimals0 as nat)
}

/// The legs of swaps, added up.
pub open spec fn all_legs(events: Seq<SwapEvent>, units: PoolUnits) -> nat
    decreases events.len(),
{
    if events.len() == 0 {
        0
    } else {
        all_legs(events.drop_last(), units) + legs(events.last(), units)
    }
}

/// The denominator that goes with `legs`: the two legs are counted by half.
pub open spec fn twice_units(units: PoolUnits) -> nat {
    2 * ((ten_power(units.decimals0 as nat) * ten_power(units.decimals1 as nat)) * one_units())
}

proof fn lemma_near_swap(event: SwapEvent, units: PoolUnits)
    requires
        usual_units(units),
    ensures
        near(swap_usd(event, units), legs(event, units), twice_units(units), 162, 694),
{
    let u = one_units();
    let t0 = ten_power(units.decimals0 as nat);
    let t1 = ten_power(units.decimals1 as nat);
    let a = event.amount0.size.value() * units.price0.size();
    let b = event.amount1.size.value() * units.price1.size();
    let x = leg_usd(event.amount0, units.decimals0, units.price0);
    let y = leg_usd(event.amount1, units.decimals1, units.price1);
    lemma_pow2_pos(1074);
    lemma2_to64();
    lemma2_to64_rest();
    lemma_ten_bound(units.decimals0 as nat);
    lemma_ten_bound(units.decimals1 as nat);
    lemma_near_leg(event.amount0, units.decimals0, units.price0);
    lemma_near_leg(event.amount1, units.decimals1, units.price1);
    let d0 = t0 * u;
    let d1 = t1 * u;
    lemma_near_sum(x, a, d0, y, b, d1, 159, 692);
    let d = (t0 * t1) * u;
    let n = a * t1 + b * t0;
    assert(d > 0) by (nonlinear_arith)
        requires
            d == (t0 * t1) * u,
            t0 > 0,
            t1 > 0,
            u > 0,
    ;
    assert(a * d1 + b * d0 == n * u) by (nonlinear_arith)
        requires
            d0 == t0 * u,
            d1 == t1 * u,
            n == a * t1 + b * t0,
    ;
    assert(d0 * d1 == d * u) by (nonlinear_arith)
        requires
            d0 == t0 * u,
            d1 == t1 * u,
            d == (t0 * t1) * u,
    ;
    assert((n * u) * d == n * (d * u)) by (nonlinear_arith);
    let s = sum_of(x, y);
    lemma_near_same(s, n * u, d * u, 160, 693, n, d);
    let two = Double { bits: TWO };
    lemma_integer(TWO, 2, 51);
    lemma_near_integer(two, 2, 1);
    lemma_near_quotient(s, n, d, 160, 693, two, 2, 1, 0, 1);
    assert(n * 1 == n && d * 2 == 2 * d);
}

/// The volume of a swap is half of what its two legs are worth, each the amount that
/// moved, whichever way, in whole tokens by its token's own decimals, at that token's
/// own price.
pub proof fn law_swap_counts_both_legs(event: SwapEvent, units: PoolUnits)
    requires
        usual_units(units),
    ensures
        close(swap_usd(event, units), legs(event, units), twice_units(units)),
{
    lemma_near_swap(event, units);
    lemma_close(swap_usd(event, units), legs(event, units), twice_units(units), 162, 694);
}

/// One more term of a sum of fractions with a common denominator, where there are `c`
/// terms before it.
pub proof fn lemma_near_add(x: Double, n1: nat, k: nat, y: Double, n2: nat, k2: nat, d: nat, c: nat)
    requires
        near(x, n1, d, k, 760),
        near(y, n2, d, k2, 694),
        k2 <= k <= 0x10_0000,
        c < 0x1_0000_0000,
        n1 <= c * (d * pow2(694)),
    ensures
        near(sum_of(x, y), n1 + n2, d, k + 1, 760),
        n1 + n2 <= (c + 1) * (d * pow2(694)),
{
    let f = pow2(694);
    let b = d * f;
    let n = n1 + n2;
    let r = sum_of(x, y);
    lemma_pow2_strictly_increases(694, 760);
    lemma_near_weaken(y, n2, d, k2, 694, k, 760);
    lemma_near_sum(x, n1, d, y, n2, d, k, 760);
    assert((n1 * d + n2 * d) * d == n * (d * d)) by (nonlinear_arith)
        requires
            n == n1 + n2,
    ;
    lemma_near_same(r, n1 * d + n2 * d, d * d, k + 1, 761, n, d);
    assert(b >= 0) by (nonlinear_arith)
        requires
            b == d * f,
    ;
    assert(n2 <= b);
    assert(n <= (c + 1) * b) by (nonlinear_arith)
        requires
            n == n1 + n2,
            n1 <= c * b,
            n2 <= b,
    ;
    if n > 0 {
        let p = pow2(760);
        assert(d <= n * p) by {
            if n1 > 0 {
                assert(d <= n1 * p);
                assert(n1 * p <= n * p) by (nonlinear_arith)
                    requires
                        n1 <= n,
                        p >= 0,
                ;
            } else {
                assert(d <= n2 * f);
                assert(n2 * f <= n * p) by (nonlinear_arith)
                    requires
                        n2 == n,
                        f < p,
                ;
            }
        }
        lemma2_to64();
        lemma2_to64_rest();
        lemma_pow2_adds(694, 66);
        lemma_pow2_adds(64, 2);
        let q = pow2(66);
        assert(c + 1 <= q);
        assert((c + 1) * b <= q * b) by (nonlinear_arith)
            requires
                c + 1 <= q,
                b >= 0,
        ;
        assert(q * b == d * p) by (nonlinear_arith)
            requires
                b == d * f,
                p == f * q,
        ;
    }
}

proof fn lemma_near_total(events: Seq<SwapEvent>, units: PoolUnits)
    requires
        usual_units(units),
        events.len() <= 0x200,
    ensures
        near(
            total_usd(events, units),
            all_legs(events, units),
            twice_units(units),
            162 + events.len(),
            760,
        ),
        all_legs(events, units) <= events.len() * (twice_units(units) * pow2(694)),
    decreases events.len(),
{
    let d = twice_units(units);
    let t0 = ten_power(units.decimals0 as nat);
    let t1 = ten_power(units.decimals1 as nat);
    lemma_pow2_pos(1074);
    lemma_ten_bound(units.decimals0 as nat);
    lemma_ten_bound(units.decimals1 as nat);
    if events.len() == 0 {
        assert(d > 0) by (nonlinear_arith)
            requires
                d == 2 * ((t0 * t1) * one_units()),
                t0 > 0,
                t1 > 0,
                one_units() > 0,
        ;
        crate::bounds::lemma_small_units(0);
        lemma_near_zero(total_usd(events, units), 0, d, 162, 760);
        let b = d * pow2(694);
        assert(0 * b == 0);
    } else {
        let rest = events.drop_last();
        let x = total_usd(rest, units);
        let y = swap_usd(events.last(), units);
        let n1 = all_legs(rest, units);
        let n2 = legs(events.last(), units);
        let c = rest.len();
        assert(c + 1 == events.len());
        assert(total_usd(events, units) == sum_of(x, y));
        assert(all_legs(events, units) == n1 + n2);
        lemma_near_total(rest, units);
        lemma_near_swap(events.last(), units);
        lemma_near_add(x, n1, 162 + c, y, n2, 162, d, c);
        assert(162 + c + 1 == 162 + events.len());
    }
}

/// The volume of swaps is half of what all their legs are worth together: each swap
/// counts once, whatever its place.
pub proof fn law_volume_adds_up(events: Seq<SwapEvent>, units: PoolUnits)
    requires
        usual_units(units),
        events.len() <= 0x200,
    ensures
        close(total_usd(events, units), all_legs(events, units), twice_units(units)),
{
    lemma_near_total(events, units);
    lemma_close(
        total_usd(events, units),
        all_legs(events, units),
        twice_units(units),
        162 + events.len(),
        760,
    );
}

} // verus!
