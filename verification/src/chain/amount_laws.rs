//! What liquidity stands for, in exact fractions.
use vstd::arithmetic::power2::{lemma2_to64, lemma_pow2_adds, lemma_pow2_pos, pow2};
use vstd::prelude::*;

use crate::bounds::{lemma_one, lemma_small_units};
use crate::chain::position::{amounts_of, high_end, low_end, raised, reciprocal};
use crate::chain::value_laws::{lemma_near_count, usual};
use crate::closeness::{
    close, lemma_close, lemma_near_difference, lemma_near_integer, lemma_near_product,
    lemma_near_quotient, lemma_near_self, near, GRAIN,
};
use crate::double::{at_most, difference_of, less, of_nat, one_units, product_of, Double};
use crate::monotone::{lemma_plain_order, lemma_reciprocal_falls, plain};
use crate::order::ONE;

verus! {

/// Whether a number exceeds another by at least `2^-30` of itself.
pub open spec fn apart(x: Double, y: Double) -> bool {
    y.size() <= (y.size() - x.size()) * 0x4000_0000
}

/// The price nearest to `p` that is not above the range.
pub open spec fn lowered(p: Double, high: Double) -> Double {
    if at_most(high, p) {
        high
    } else {
        p
    }
}

proof fn lemma_near_reciprocal(x: Double)
    requires
        usual(x),
        x.size() > 0,
    ensures
        near(reciprocal(x), one_units(), x.size(), 2, 128),
{
    let u = one_units();
    lemma_pow2_pos(1074);
    lemma2_to64();
    lemma_one();
    lemma_near_integer(Double { bits: ONE }, 1, 0);
    lemma_near_self(x, 128);
    lemma_near_quotient(Double { bits: ONE }, 1, 1, 0, 0, x, x.size(), u, 0, 128);
    assert(1 * u == u && 1 * x.size() == x.size());
}

proof fn lemma_token1(liquidity: u128, c: Double, low: Double)
    requires
        usual(c),
        usual(low),
        apart(low, c),
        c.size() > 0,
    ensures
        close(
            product_of(of_nat(liquidity as nat), difference_of(c, low)),
            liquidity as nat * (c.size() - low.size()) as nat,
            one_units(),
        ),
{
    let u = one_units();
    let n = (c.size() - low.size()) as nat;
    let l = liquidity as nat;
    lemma_pow2_pos(1074);
    lemma_pow2_pos(128);
    lemma_pow2_adds(128, 30);
    lemma2_to64();
    vstd::arithmetic::power2::lemma2_to64_rest();
    let t = pow2(128);
    assert(low.size() < c.size());
    assert(u <= n * pow2(158)) by (nonlinear_arith)
        requires
            u <= c.size() * t,
            c.size() <= n * 0x4000_0000,
            pow2(158) == t * 0x4000_0000,
            t > 0,
    ;
    assert(n <= u * pow2(158)) by (nonlinear_arith)
        requires
            n <= c.size(),
            c.size() <= u * t,
            pow2(158) == t * 0x4000_0000,
            t > 0,
            u > 0,
    ;
    lemma_near_difference(c, low, 158);
    lemma_near_count(liquidity);
    let d = difference_of(c, low);
    lemma_near_product(of_nat(l), l, 1, 1, 128, d, n, u, 1, 158);
    assert(1 * u == u);
    lemma_close(product_of(of_nat(l), d), l * n, u, 4, 286);
}

/// Of token1 a position holds its liquidity times the distance of the square root of
/// the price, no higher than the upper end's, from that of the lower end.
pub proof fn law_amount_of_token1(liquidity: u128, p: Double, pa: Double, pb: Double)
    requires
        usual(p),
        usual(pa),
        usual(pb),
        p.size() > 0,
        pa.size() > 0,
        pb.size() > 0,
        less(low_end(pa, pb), p),
        apart(low_end(pa, pb), lowered(p, high_end(pa, pb))),
    ensures
        close(
            amounts_of(liquidity, p, pa, pb).1,
            liquidity as nat * (lowered(p, high_end(pa, pb)).size() - low_end(pa, pb).size()) as nat,
            one_units(),
        ),
{
    lemma_plain_order(p, low_end(pa, pb));
    lemma_token1(liquidity, lowered(p, high_end(pa, pb)), low_end(pa, pb));
}

/// The exact difference of two rounded reciprocals.
proof fn lemma_reciprocals(r1: nat, c: nat, r2: nat, h: nat, u: nat, w: nat)
    requires
        w == u * u,
        u > 0,
        c > 0,
        h > 0,
        c <= h,
        r2 <= r1,
        (r1 * c) * GRAIN <= w * (GRAIN + 2),
        w * GRAIN <= (r1 * c) * GRAIN + w * 2,
        (r2 * h) * GRAIN <= w * (GRAIN + 2),
        w * GRAIN <= (r2 * h) * GRAIN + w * 2,
    ensures
        ({
            let d = (r1 - r2) as int;
            let x = (d * c) * h;
            let y = w * (h - c);
            &&& GRAIN * (x - y) <= 4 * (w * h)
            &&& GRAIN * (y - x) <= 4 * (w * h)
        }),
{
    let d = (r1 - r2) as int;
    let x = (d * c) * h;
    let y = w * (h - c);
    let a = (r1 * c) as int;
    let b = (r2 * h) as int;
    let wi = w as int;
    assert(x == a * h - b * c) by (nonlinear_arith)
        requires
            x == (d * c) * h,
            d == r1 - r2,
            a == r1 * c,
            b == r2 * h,
    ;
    assert(y == wi * h - wi * c) by (nonlinear_arith)
        requires
            y == wi * (h - c),
    ;
    assert(GRAIN * (a - wi) <= 2 * wi && GRAIN * (wi - a) <= 2 * wi) by (nonlinear_arith)
        requires
            a * GRAIN <= wi * (GRAIN + 2),
            wi * GRAIN <= a * GRAIN + wi * 2,
    ;
    assert(GRAIN * (b - wi) <= 2 * wi && GRAIN * (wi - b) <= 2 * wi) by (nonlinear_arith)
        requires
            b * GRAIN <= wi * (GRAIN + 2),
            wi * GRAIN <= b * GRAIN + wi * 2,
    ;
    let ga = GRAIN * (a - wi);
    let gb = GRAIN * (b - wi);
    assert(GRAIN * (x - y) == ga * h - gb * c) by (nonlinear_arith)
        requires
            x == a * h - b * c,
            y == wi * h - wi * c,
            ga == GRAIN * (a - wi),
            gb == GRAIN * (b - wi),
    ;
    assert(-gb == GRAIN * (wi - b) && -ga == GRAIN * (wi - a)) by (nonlinear_arith)
        requires
            ga == GRAIN * (a - wi),
            gb == GRAIN * (b - wi),
    ;
    assert(ga * h <= (2 * wi) * h && -((2 * wi) * h) <= ga * h) by (nonlinear_arith)
        requires
            -(2 * wi) <= ga <= 2 * wi,
            h > 0,
    ;
    assert(gb * c <= (2 * wi) * h && -((2 * wi) * h) <= gb * c) by (nonlinear_arith)
        requires
            -(2 * wi) <= gb <= 2 * wi,
            0 < c <= h,
            wi >= 0,
    ;
    assert((2 * wi) * h == 2 * (w * h)) by (nonlinear_arith)
        requires
            wi == w,
    ;
    assert(GRAIN * (y - x) == -(GRAIN * (x - y))) by (nonlinear_arith);
}

/// The difference of the reciprocals of two numbers that are apart is ordinary.
proof fn lemma_reciprocals_apart(d: nat, c: nat, h: nat, u: nat, w: nat, t: nat)
    requires
        w == u * u,
        u > 0,
        0 < c < h,
        t > 0,
        h <= (h - c) * 0x4000_0000,
        u <= c * t,
        c <= u * t,
        GRAIN * ((d * c) * h - w * (h - c)) <= 4 * (w * h),
        GRAIN * (w * (h - c) - (d * c) * h) <= 4 * (w * h),
    ensures
        u <= d * (t * 0x1_0000_0000),
        d <= u * (t * 0x1_0000_0000),
{
    let x = ((d * c) * h) as int;
    let y = (w * (h - c)) as int;
    let wh = (w * h) as int;
    assert(wh <= y * 0x4000_0000) by (nonlinear_arith)
        requires
            wh == w * h,
            y == w * (h - c),
            h <= (h - c) * 0x4000_0000,
    ;
    assert(y <= wh) by (nonlinear_arith)
        requires
            wh == w * h,
            y == w * (h - c),
            c > 0,
    ;
    assert(wh >= 0) by (nonlinear_arith)
        requires
            wh == w * h,
    ;
    assert(GRAIN == 0x4_0000_0000_0000);
    assert(wh <= x * 0x1_0000_0000);
    assert(x <= 2 * wh);
    let e = (d * c) as int;
    assert(w <= e * 0x1_0000_0000) by (nonlinear_arith)
        requires
            wh == w * h,
            x == e * h,
            wh <= x * 0x1_0000_0000,
            h > 0,
    ;
    assert(e <= 2 * w) by (nonlinear_arith)
        requires
            wh == w * h,
            x == e * h,
            x <= 2 * wh,
            h > 0,
    ;
    assert(u <= d * (t * 0x1_0000_0000)) by {
        let z = d * (t * 0x1_0000_0000);
        assert(d * c <= d * (u * t)) by (nonlinear_arith)
            requires
                c <= u * t,
                d >= 0,
        ;
        assert((d * (u * t)) * 0x1_0000_0000 == u * z) by (nonlinear_arith)
            requires
                z == d * (t * 0x1_0000_0000),
        ;
        assert(u * u <= u * z);
        assert(u <= z) by (nonlinear_arith)
            requires
                u * u <= u * z,
                u > 0,
        ;
    }
    assert(d <= u * (t * 0x1_0000_0000)) by {
        let z = u * (t * 2);
        assert(d * u <= d * (c * t)) by (nonlinear_arith)
            requires
                u <= c * t,
                d >= 0,
        ;
        assert(d * (c * t) == e * t) by (nonlinear_arith)
            requires
                e == d * c,
        ;
        assert(e * t <= (2 * w) * t) by (nonlinear_arith)
            requires
                e <= 2 * w,
                t > 0,
        ;
        assert((2 * w) * t == u * z) by (nonlinear_arith)
            requires
                z == u * (t * 2),
                w == u * u,
        ;
        assert(d <= z) by (nonlinear_arith)
            requires
                d * u <= u * z,
                u > 0,
        ;
        assert(z <= u * (t * 0x1_0000_0000)) by (nonlinear_arith)
            requires
                z == u * (t * 2),
                t > 0,
                u > 0,
        ;
    }
}

/// Liquidity times a rounded difference, against the exact one.
proof fn lemma_scaled_reciprocals(a: nat, l: nat, d: nat, c: nat, h: nat, u: nat, w: nat)
    requires
        u > 0,
        0 < c < h,
        w == u * u,
        ((a * u) * GRAIN) <= ((l * d) * u) * (GRAIN + 4),
        ((l * d) * u) * GRAIN <= (a * u) * GRAIN + ((l * d) * u) * 4,
        GRAIN * ((d * c) * h - w * (h - c)) <= 4 * (w * h),
        GRAIN * (w * (h - c) - (d * c) * h) <= 4 * (w * h),
    ensures
        0x100_0000_0000 * ((a * c) * h - (l * w) * (h - c)) <= (l * w) * h,
        0x100_0000_0000 * ((l * w) * (h - c) - (a * c) * h) <= (l * w) * h,
{
    let x = ((d * c) * h) as int;
    let y = (w * (h - c)) as int;
    let wh = (w * h) as int;
    let ld = (l * d) as int;
    let ai = a as int;
    assert(GRAIN == 0x4_0000_0000_0000);
    assert(GRAIN * (ai - ld) <= 4 * ld && GRAIN * (ld - ai) <= 4 * ld) by (nonlinear_arith)
        requires
            u > 0,
            (ai * u) * GRAIN <= (ld * u) * (GRAIN + 4),
            (ld * u) * GRAIN <= (ai * u) * GRAIN + (ld * u) * 4,
    {
        let g = GRAIN as int;
        assert((g * (ai - ld)) * u <= (4 * ld) * u) by (nonlinear_arith)
            requires
                (ai * u) * g <= (ld * u) * (g + 4),
        ;
        assert((g * (ld - ai)) * u <= (4 * ld) * u) by (nonlinear_arith)
            requires
                (ld * u) * g <= (ai * u) * g + (ld * u) * 4,
        ;
        assert(g * (ai - ld) <= 4 * ld) by (nonlinear_arith)
            requires
                (g * (ai - ld)) * u <= (4 * ld) * u,
                u > 0,
        ;
        assert(g * (ld - ai) <= 4 * ld) by (nonlinear_arith)
            requires
                (g * (ld - ai)) * u <= (4 * ld) * u,
                u > 0,
        ;
    }
    assert(0 <= wh && 0 <= x && y <= wh) by (nonlinear_arith)
        requires
            wh == w * h,
            x == (d * c) * h,
            y == w * (h - c),
            c > 0,
            h > 0,
    ;
    let ch = (c * h) as int;
    assert(ch > 0) by (nonlinear_arith)
        requires
            ch == c * h,
            c > 0,
            h > 0,
    ;
    let ach = ((a * c) * h) as int;
    let lx = l * x;
    let ly = ((l * w) * (h - c)) as int;
    let lwh = ((l * w) * h) as int;
    assert(ach == ai * ch) by (nonlinear_arith)
        requires
            ach == (ai * c) * h,
            ch == c * h,
    ;
    assert(lx == ld * ch) by (nonlinear_arith)
        requires
            lx == l * x,
            x == (d * c) * h,
            ld == l * d,
            ch == c * h,
    ;
    assert(ly == l * y && lwh == l * wh) by (nonlinear_arith)
        requires
            ly == (l * w) * (h - c),
            y == w * (h - c),
            lwh == (l * w) * h,
            wh == w * h,
    ;
    assert(GRAIN * (ach - lx) <= 4 * lx && GRAIN * (lx - ach) <= 4 * lx) by (nonlinear_arith)
        requires
            ach == ai * ch,
            lx == ld * ch,
            ch > 0,
            GRAIN * (ai - ld) <= 4 * ld,
            GRAIN * (ld - ai) <= 4 * ld,
    {
        let g = GRAIN as int;
        assert((g * (ai - ld)) * ch <= (4 * ld) * ch) by (nonlinear_arith)
            requires
                g * (ai - ld) <= 4 * ld,
                ch > 0,
        ;
        assert((g * (ld - ai)) * ch <= (4 * ld) * ch) by (nonlinear_arith)
            requires
                g * (ld - ai) <= 4 * ld,
                ch > 0,
        ;
        assert((g * (ai - ld)) * ch == g * (ai * ch - ld * ch)) by (nonlinear_arith);
        assert((g * (ld - ai)) * ch == g * (ld * ch - ai * ch)) by (nonlinear_arith);
        assert((4 * ld) * ch == 4 * (ld * ch)) by (nonlinear_arith);
    }
    assert(x <= 2 * wh);
    assert(GRAIN * (lx - ly) <= 4 * lwh && GRAIN * (ly - lx) <= 4 * lwh && lx <= 2 * lwh && lwh
        >= 0) by (nonlinear_arith)
        requires
            lx == l * x,
            ly == l * y,
            lwh == l * wh,
            GRAIN * (x - y) <= 4 * wh,
            GRAIN * (y - x) <= 4 * wh,
            x <= 2 * wh,
            wh >= 0,
            l >= 0,
    {
        let g = GRAIN as int;
        assert(l * (g * (x - y)) <= l * (4 * wh)) by (nonlinear_arith)
            requires
                g * (x - y) <= 4 * wh,
                l >= 0,
        ;
        assert(l * (g * (y - x)) <= l * (4 * wh)) by (nonlinear_arith)
            requires
                g * (y - x) <= 4 * wh,
                l >= 0,
        ;
        assert(l * (g * (x - y)) == g * (l * x - l * y)) by (nonlinear_arith);
        assert(l * (g * (y - x)) == g * (l * y - l * x)) by (nonlinear_arith);
        assert(l * (4 * wh) == 4 * (l * wh)) by (nonlinear_arith);
        assert(l * x <= l * (2 * wh)) by (nonlinear_arith)
            requires
                x <= 2 * wh,
                l >= 0,
        ;
        assert(l * (2 * wh) == 2 * (l * wh)) by (nonlinear_arith);
        assert(l * wh >= 0) by (nonlinear_arith)
            requires
                l >= 0,
                wh >= 0,
        ;
    }
}

proof fn lemma_token0(liquidity: u128, c: Double, high: Double)
    requires
        usual(c),
        usual(high),
        apart(c, high),
        c.size() > 0,
        high.size() > 0,
    ensures
        ({
            let a = product_of(
                of_nat(liquidity as nat),
                difference_of(reciprocal(c), reciprocal(high)),
            );
            let w = liquidity as nat * (one_units() * one_units());
            &&& plain(a)
            &&& a.finite()
            &&& 0x100_0000_0000 * ((a.size() * c.size()) * high.size() - w * (high.size()
                - c.size())) <= w * high.size()
            &&& 0x100_0000_0000 * (w * (high.size() - c.size()) - (a.size() * c.size())
                * high.size()) <= w * high.size()
        }),
{
    let u = one_units();
    let l = liquidity as nat;
    let r1 = reciprocal(c);
    let r2 = reciprocal(high);
    let t = pow2(128);
    lemma_pow2_pos(1074);
    lemma_pow2_pos(128);
    lemma_pow2_adds(128, 32);
    lemma2_to64();
    assert(c.size() < high.size());
    lemma_near_reciprocal(c);
    lemma_near_reciprocal(high);
    lemma_plain_order(c, high);
    lemma_small_units(0);
    lemma_reciprocal_falls(c, high);
    lemma_plain_order(r2, r1);
    let w = u * u;
    lemma_reciprocals(r1.size(), c.size(), r2.size(), high.size(), u, w);
    let d = (r1.size() - r2.size()) as nat;
    lemma_reciprocals_apart(d, c.size(), high.size(), u, w, t);
    lemma_near_difference(r1, r2, 160);
    lemma_near_count(liquidity);
    let diff = difference_of(r1, r2);
    lemma_near_product(of_nat(l), l, 1, 1, 128, diff, d, u, 1, 160);
    assert(1 * u == u);
    let a = product_of(of_nat(l), diff);
    lemma_scaled_reciprocals(a.size(), l, d, c.size(), high.size(), u, w);
}

/// Of token0 a position holds its liquidity times the difference of the reciprocals of
/// the square roots of the price, no lower than the lower end's, and of the upper end.
pub proof fn law_amount_of_token0(liquidity: u128, p: Double, pa: Double, pb: Double)
    requires
        usual(p),
        usual(pa),
        usual(pb),
        p.size() > 0,
        pa.size() > 0,
        pb.size() > 0,
        apart(raised(p, low_end(pa, pb)), high_end(pa, pb)),
    ensures
        ({
            let a = amounts_of(liquidity, p, pa, pb).0;
            let c = raised(p, low_end(pa, pb)).size();
            let high = high_end(pa, pb).size();
            let w = liquidity as nat * (one_units() * one_units());
            &&& plain(a)
            &&& a.finite()
            &&& 0x100_0000_0000 * ((a.size() * c) * high - w * (high - c)) <= w * high
            &&& 0x100_0000_0000 * (w * (high - c) - (a.size() * c) * high) <= w * high
        }),
{
    let low = low_end(pa, pb);
    let high = high_end(pa, pb);
    lemma_plain_order(p, low);
    lemma_plain_order(high, p);
    lemma_token0(liquidity, raised(p, low), high);
}

} // verus!
