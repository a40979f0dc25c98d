//! What a slippage tolerance keeps and what a round trip loses, in exact fractions.
use vstd::arithmetic::power2::{
    lemma2_to64, lemma_pow2_adds, lemma_pow2_pos, lemma_pow2_strictly_increases, pow2,
};
use vstd::prelude::*;

use crate::bounds::{
    lemma_magnitude_at_least, lemma_one, lemma_small_units, lemma_ten_thousand, lemma_units_grow,
};
use crate::chain::honeypot::round_trip_loss;
use crate::chain::metric_laws::{lemma_whole_part, whole_part};
use crate::chain::slippage::{kept_fraction, least_of, least_out};
use crate::chain::value_laws::{
    lemma_close_percent, lemma_loss, lemma_near_count, lemma_sign_passes, usual,
};
use crate::closeness::{
    lemma_near_difference, lemma_near_integer, lemma_near_of_nat, lemma_near_product,
    lemma_near_quotient, lemma_near_self, near, GRAIN,
};
use crate::double::{
    difference_of, exponent_of, less, mantissa_of, of_nat, one_units, product_of, quotient_of,
    units_of, Double,
};
use crate::monotone::{lemma_count, lemma_ratio_grows, plain};
use crate::numbers::{HUNDRED, TEN_THOUSAND};
use crate::order::ONE;
use crate::rounding::{lemma_pow2_127, BINADE};

verus! {

/// What is kept of one, next to the exact part.
proof fn lemma_near_kept(bps: u64) -> (k: nat)
    requires
        bps < 10_000,
    ensures
        near(kept_fraction(bps), k, one_units(), 1, 14),
        k <= one_units(),
        GRAIN * (k * 10_000 - (10_000 - bps) * one_units()) <= 30_000 * one_units(),
        GRAIN * ((10_000 - bps) * one_units() - k * 10_000) <= 30_000 * one_units(),
{
    let u = one_units();
    let b = bps as nat;
    let one = Double { bits: ONE };
    let whole = Double { bits: TEN_THOUSAND };
    lemma_pow2_pos(1074);
    lemma2_to64();
    lemma_one();
    lemma_ten_thousand();
    lemma_near_of_nat(b, 14);
    lemma_near_integer(whole, 10_000, 14);
    lemma_near_quotient(of_nat(b), b, 1, 1, 14, whole, 10_000, 1, 0, 14);
    let q = quotient_of(of_nat(b), whole);
    let s = q.size();
    let g = GRAIN as int;
    let y = (s * 10_000) as int;
    let z = (b * u) as int;
    assert(b * 1 == b && 1 * 10_000 == 10_000);
    assert(z <= 9_999 * u) by (nonlinear_arith)
        requires
            z == b * u,
            b <= 9_999,
            u > 0,
    ;
    assert(z >= 0);
    assert(y * g <= z * (g + 3) && z * g <= y * g + z * 3);
    assert(g * (y - z) <= 3 * z && g * (z - y) <= 3 * z) by (nonlinear_arith)
        requires
            y * g <= z * (g + 3),
            z * g <= y * g + z * 3,
    ;
    assert(g == 0x4_0000_0000_0000);
    assert(y - z <= u);
    assert(s < u);
    let k = (u - s) as nat;
    assert((10_000 - bps) * u == 10_000 * u - z) by (nonlinear_arith)
        requires
            z == bps * u,
    ;
    assert(k * 10_000 == 10_000 * u - y);
    assert(u <= k * pow2(14));
    assert(u <= u * pow2(14)) by (nonlinear_arith)
        requires
            pow2(14) == 0x4000,
    ;
    lemma_near_difference(one, q, 14);
    k
}

/// The integer part of what is kept, next to the exact one.
proof fn lemma_kept_part(a: u128, n: nat, d: nat, k: nat, u: nat, bps: u64)
    requires
        whole_part(a, n * k, d * u),
        u > 0,
        bps < 10_000,
        k <= u,
        GRAIN * (k * 10_000 - (10_000 - bps) * u) <= 30_000 * u,
        GRAIN * ((10_000 - bps) * u - k * 10_000) <= 30_000 * u,
    ensures
        0x80_0000_0000 * ((a * d) * 10_000 - n * (10_000 - bps)) <= n * 10_000,
        a == u128::MAX || 0x80_0000_0000 * (n * (10_000 - bps) - ((a + 1) * d) * 10_000) <= n
            * 10_000,
{
    let t: int = 0x100_0000_0000;
    let g = GRAIN as int;
    let y = (n * k) as int;
    let nu = (n * u) as int;
    let rest = (10_000 - bps) as int;
    let e = k * 10_000 - rest * u;
    assert(g == 0x400 * t);
    assert(t * e <= 30 * u && t * -e <= 30 * u);
    assert(0 <= y <= nu) by (nonlinear_arith)
        requires
            y == n * k,
            nu == n * u,
            0 <= k <= u,
    ;
    let ne = n * e;
    assert(t * ne <= 30 * nu && t * -ne <= 30 * nu) by {
        assert(t * ne == n * (t * e)) by (nonlinear_arith)
            requires
                ne == n * e,
        ;
        assert(n * (t * e) <= n * (30 * u)) by (nonlinear_arith)
            requires
                t * e <= 30 * u,
        ;
        assert(t * -ne == n * (t * -e)) by (nonlinear_arith)
            requires
                ne == n * e,
        ;
        assert(n * (t * -e) <= n * (30 * u)) by (nonlinear_arith)
            requires
                t * -e <= 30 * u,
        ;
        assert(n * (30 * u) == 30 * nu) by (nonlinear_arith)
            requires
                nu == n * u,
        ;
    }
    let nr = n * rest;
    assert(ne == 10_000 * y - nr * u) by (nonlinear_arith)
        requires
            ne == n * e,
            e == k * 10_000 - rest * u,
            y == n * k,
            nr == n * rest,
    ;
    let ad = (a * d) as int;
    let x = (a * (d * u)) as int;
    assert(x == ad * u) by (nonlinear_arith)
        requires
            x == a * (d * u),
            ad == a * d,
    ;
    assert(t * (x - y) <= y);
    assert(t * (10_000 * x - nr * u) <= 20_000 * nu);
    let v = ad * 10_000 - nr;
    assert((0x80_0000_0000 * v) * u == 0x80_0000_0000 * (10_000 * x - nr * u)) by (nonlinear_arith)
        requires
            v == ad * 10_000 - nr,
            x == ad * u,
    ;
    assert(0x80_0000_0000 * v <= n * 10_000) by (nonlinear_arith)
        requires
            (0x80_0000_0000 * v) * u <= 10_000 * nu,
            nu == n * u,
            u > 0,
    ;
    if a < u128::MAX {
        let ad1 = ((a + 1) * d) as int;
        let x1 = ((a + 1) * (d * u)) as int;
        assert(x1 == ad1 * u) by (nonlinear_arith)
            requires
                x1 == (a + 1) * (d * u),
                ad1 == (a + 1) * d,
        ;
        assert(t * (y - x1) <= y);
        assert(t * (nr * u - 10_000 * x1) <= 20_000 * nu);
        let v1 = nr - ad1 * 10_000;
        assert((0x80_0000_0000 * v1) * u == 0x80_0000_0000 * (nr * u - 10_000 * x1))
            by (nonlinear_arith)
            requires
                v1 == nr - ad1 * 10_000,
                x1 == ad1 * u,
        ;
        assert(0x80_0000_0000 * v1 <= n * 10_000) by (nonlinear_arith)
            requires
                (0x80_0000_0000 * v1) * u <= 10_000 * nu,
                nu == n * u,
                u > 0,
        ;
    }
}

/// The least that is accepted is what is expected, less as many ten-thousandths of it as
/// the tolerance has, up to rounding.
pub proof fn law_minimum_keeps_its_part(amount: u128, bps: u64)
    requires
        bps < 10_000,
    ensures
        ({
            let a = least_out(amount, bps);
            &&& 0x80_0000_0000 * (a * 10_000 - amount * (10_000 - bps)) <= amount * 10_000
            &&& a == u128::MAX || 0x80_0000_0000 * (amount * (10_000 - bps) - (a + 1) * 10_000)
                <= amount * 10_000
        }),
{
    let u = one_units();
    let n = amount as nat;
    lemma_pow2_pos(1074);
    let k = lemma_near_kept(bps);
    lemma_near_count(amount);
    lemma_near_product(of_nat(n), n, 1, 1, 128, kept_fraction(bps), k, u, 1, 14);
    let x = product_of(of_nat(n), kept_fraction(bps));
    lemma_whole_part(x, n * k, 1 * u, 4, 142);
    let a = least_out(amount, bps);
    lemma_kept_part(a, n, 1, k, u, bps);
    assert(a * 1 == a && (a + 1) * 1 == a + 1);
}

/// The least that is accepted of an estimate is the estimate, less as many
/// ten-thousandths of it as the tolerance has, up to rounding.
pub proof fn law_estimated_minimum_keeps_its_part(amount: Double, bps: u64)
    requires
        usual(amount),
        bps < 10_000,
    ensures
        ({
            let a = least_of(amount, bps);
            let n = amount.size();
            let u = one_units();
            &&& 0x80_0000_0000 * ((a * u) * 10_000 - n * (10_000 - bps)) <= n * 10_000
            &&& a == u128::MAX || 0x80_0000_0000 * (n * (10_000 - bps) - ((a + 1) * u) * 10_000)
                <= n * 10_000
        }),
{
    let u = one_units();
    let n = amount.size();
    lemma_pow2_pos(1074);
    lemma_small_units(0);
    let k = lemma_near_kept(bps);
    lemma_near_self(amount, 128);
    lemma_near_product(amount, n, u, 0, 128, kept_fraction(bps), k, u, 1, 14);
    let x = product_of(amount, kept_fraction(bps));
    lemma_whole_part(x, n * k, u * u, 3, 142);
    lemma_kept_part(least_of(amount, bps), n, u, k, u, bps);
}

/// Numbers of at least one differ by at least `2^-52`.
proof fn lemma_step(a: nat, b: nat)
    requires
        ONE <= a < b,
    ensures
        units_of(a) + pow2(1022) <= units_of(b),
{
    let e = exponent_of(a);
    let m = mantissa_of(a);
    let c = a + 1;
    lemma_pow2_127();
    assert(e >= 1022);
    if e > 1022 {
        lemma_pow2_strictly_increases(1022, e);
    }
    let p = pow2(e);
    if c % (BINADE as nat) == 0 {
        lemma_pow2_adds(e, 1);
        lemma2_to64();
        assert(exponent_of(c) == e + 1);
        assert(mantissa_of(c) == BINADE);
        assert(m + 1 == 2 * BINADE);
        assert((m + 1) * p == BINADE * (p * 2)) by (nonlinear_arith)
            requires
                m + 1 == 2 * BINADE,
        ;
    } else {
        assert(exponent_of(c) == e);
        assert(mantissa_of(c) == m + 1);
    }
    assert((m + 1) * p == m * p + p) by (nonlinear_arith);
    lemma_units_grow(c, b);
}

/// Counts of at least one keep apart where they differ.
proof fn lemma_counts_apart(a: u128, b: u128)
    requires
        a > 0,
        b > 0,
    ensures
        ({
            let x = of_nat(a as nat);
            let y = of_nat(b as nat);
            &&& a <= b ==> x.size() <= y.size()
            &&& x.size() < y.size() ==> one_units() <= (y.size() - x.size()) * pow2(300)
            &&& usual(x) && x.size() > 0
            &&& usual(y) && y.size() > 0
        }),
{
    let u = one_units();
    let x = of_nat(a as nat);
    let y = of_nat(b as nat);
    lemma_pow2_pos(1074);
    lemma_count(a);
    lemma_count(b);
    lemma_at_least_one(a);
    lemma_at_least_one(b);
    if a <= b {
        let (n, m) = (a as nat * u, b as nat * u);
        assert(n * 1 <= m * 1) by (nonlinear_arith)
            requires
                n == a as nat * u,
                m == b as nat * u,
                a <= b,
        ;
        lemma_ratio_grows(n, 1, m, 1);
        lemma_units_grow(x.magnitude(), y.magnitude());
    }
    if x.size() < y.size() {
        if y.magnitude() <= x.magnitude() {
            lemma_units_grow(y.magnitude(), x.magnitude());
        }
        lemma_step(x.magnitude(), y.magnitude());
        lemma_pow2_adds(1022, 52);
        lemma_pow2_strictly_increases(52, 300);
        lemma_pow2_pos(1022);
        let d = (y.size() - x.size()) as int;
        let f = pow2(1022);
        assert(u <= d * pow2(300)) by (nonlinear_arith)
            requires
                u == f * pow2(52),
                f <= d,
                pow2(52) <= pow2(300),
                f > 0,
        ;
    }
}

proof fn lemma_at_least_one(a: u128)
    requires
        a > 0,
    ensures
        of_nat(a as nat).magnitude() >= ONE,
        usual(of_nat(a as nat)),
        of_nat(a as nat).size() > 0,
{
    let u = one_units();
    let n = a as nat * u;
    let x = of_nat(a as nat);
    lemma_pow2_pos(1074);
    lemma_count(a);
    lemma_one();
    assert(units_of(ONE as nat) * 1 <= n) by (nonlinear_arith)
        requires
            units_of(ONE as nat) == u,
            n == a as nat * u,
            a > 0,
    ;
    lemma_magnitude_at_least(n, 1, ONE as nat);
    lemma_units_grow(ONE as nat, x.magnitude());
    let t = pow2(128);
    lemma_pow2_127();
    lemma_pow2_adds(127, 1);
    lemma2_to64();
    assert(u <= x.size() * t) by (nonlinear_arith)
        requires
            u <= x.size(),
            t >= 1,
    ;
    let top: nat = 0x47F0_0000_0000_0000;
    lemma_pow2_adds(52, 1150);
    lemma_pow2_adds(128, 1074);
    assert(exponent_of(top) == 1150 && mantissa_of(top) == BINADE);
    assert(units_of(top) == t * u);
    assert(n <= units_of(top) * 1) by (nonlinear_arith)
        requires
            n == a as nat * u,
            a < t,
            units_of(top) == t * u,
    ;
    crate::bounds::lemma_magnitude_at_most(n, 1, top);
    lemma_units_grow(x.magnitude(), top);
    assert(t * u == u * t) by (nonlinear_arith);
}

/// What a round trip loses against what was given, from numbers next to the counts.
proof fn lemma_loss_of_counts(loss: nat, s: nat, b: nat, given: nat, back: nat, u: nat)
    requires
        u > 0,
        b <= s,
        s > 0,
        GRAIN * (s - given * u) <= given * u,
        GRAIN * (given * u - s) <= given * u,
        GRAIN * (b - back * u) <= given * u,
        GRAIN * (back * u - b) <= given * u,
        0x100_0000_0000 * (loss * s - (100 * (s - b)) * u) <= (100 * (s - b)) * u,
        0x100_0000_0000 * ((100 * (s - b)) * u - loss * s) <= (100 * (s - b)) * u,
    ensures
        0x80_0000_0000 * (loss * given - (100 * (given - back)) * u) <= (100 * given) * u,
        0x80_0000_0000 * ((100 * (given - back)) * u - loss * given) <= (100 * given) * u,
{
    let t: int = 0x100_0000_0000;
    let g = GRAIN as int;
    assert(g == 0x400 * t);
    let gu = (given * u) as int;
    let bu = (back * u) as int;
    let guu = gu * u;
    let ls = (loss * s) as int;
    let su = (s * u) as int;
    let z = (100 * (s - b)) * u;
    assert(z <= 100 * su) by (nonlinear_arith)
        requires
            z == (100 * (s - b)) * u,
            su == s * u,
            b >= 0,
    ;
    assert(z >= 0) by (nonlinear_arith)
        requires
            z == (100 * (s - b)) * u,
            b <= s,
    ;
    assert(loss <= 101 * u) by (nonlinear_arith)
        requires
            t * (loss * s - z) <= z,
            z <= 100 * (s * u),
            t == 0x100_0000_0000,
            s > 0,
            u > 0,
    ;
    assert(10 * s <= 11 * gu);
    assert(10 * su <= 11 * guu) by (nonlinear_arith)
        requires
            su == s * u,
            10 * s <= 11 * gu,
            guu == gu * u,
            u > 0,
    ;
    let d1 = s - gu;
    let d2 = b - bu;
    assert(g * d1 <= gu && g * -d1 <= gu && g * d2 <= gu && g * -d2 <= gu);
    let lgu = loss * gu;
    let ld = loss * d1;
    assert(ls == lgu + ld) by (nonlinear_arith)
        requires
            ls == loss * s,
            lgu == loss * gu,
            ld == loss * d1,
            d1 == s - gu,
    ;
    assert(g * ld <= 101 * guu && g * -ld <= 101 * guu) by {
        assert(g * ld == loss * (g * d1)) by (nonlinear_arith)
            requires
                ld == loss * d1,
        ;
        assert(g * -ld == loss * (g * -d1)) by (nonlinear_arith)
            requires
                ld == loss * d1,
        ;
        assert(loss * (g * d1) <= loss * gu) by (nonlinear_arith)
            requires
                g * d1 <= gu,
        ;
        assert(loss * (g * -d1) <= loss * gu) by (nonlinear_arith)
            requires
                g * -d1 <= gu,
        ;
        assert(loss * gu <= 101 * guu) by (nonlinear_arith)
            requires
                loss <= 101 * u,
                guu == gu * u,
                gu >= 0,
        ;
    }
    let diff = (given - back) as int;
    let exact = (100 * diff) * u;
    let eu = exact * u;
    let du = (d1 - d2) * u;
    assert(z == eu + 100 * du) by (nonlinear_arith)
        requires
            z == (100 * (s - b)) * u,
            d1 == s - gu,
            d2 == b - bu,
            gu == given * u,
            bu == back * u,
            diff == given - back,
            exact == (100 * diff) * u,
            eu == exact * u,
            du == (d1 - d2) * u,
    ;
    assert(g * du <= 2 * guu && g * -du <= 2 * guu) by {
        let d = d1 - d2;
        assert(g * d <= 2 * gu && g * -d <= 2 * gu) by (nonlinear_arith)
            requires
                d == d1 - d2,
                g * d1 <= gu,
                g * -d1 <= gu,
                g * d2 <= gu,
                g * -d2 <= gu,
        ;
        assert(g * du == (g * d) * u) by (nonlinear_arith)
            requires
                du == d * u,
        ;
        assert(g * -du == (g * -d) * u) by (nonlinear_arith)
            requires
                du == d * u,
        ;
        assert((g * d) * u <= (2 * gu) * u) by (nonlinear_arith)
            requires
                g * d <= 2 * gu,
                u > 0,
        ;
        assert((g * -d) * u <= (2 * gu) * u) by (nonlinear_arith)
            requires
                g * -d <= 2 * gu,
                u > 0,
        ;
        assert((2 * gu) * u == 2 * guu) by (nonlinear_arith)
            requires
                guu == gu * u,
        ;
    }
    assert(guu >= 0) by (nonlinear_arith)
        requires
            guu == gu * u,
            gu >= 0,
    ;
    assert(t * ls - t * z <= z) by (nonlinear_arith)
        requires
            t * (ls - z) <= z,
    ;
    assert(t * z - t * ls <= z) by (nonlinear_arith)
        requires
            t * (z - ls) <= z,
    ;
    assert(t * lgu - t * eu <= 200 * guu);
    assert(t * eu - t * lgu <= 200 * guu);
    let v = loss * given - exact;
    assert(lgu - eu == v * u) by (nonlinear_arith)
        requires
            lgu == loss * gu,
            gu == given * u,
            eu == exact * u,
            v == loss * given - exact,
    ;
    let w = (100 * given) * u;
    assert(200 * guu == (2 * w) * u) by (nonlinear_arith)
        requires
            guu == gu * u,
            gu == given * u,
            w == (100 * given) * u,
    ;
    assert((t * v) * u <= (2 * w) * u && (t * -v) * u <= (2 * w) * u) by {
        assert((t * v) * u == t * (v * u)) by (nonlinear_arith);
        assert((t * -v) * u == -(t * (v * u))) by (nonlinear_arith);
        assert(t * (lgu - eu) == t * lgu - t * eu) by (nonlinear_arith);
    }
    assert(t * v <= 2 * w && t * -v <= 2 * w) by (nonlinear_arith)
        requires
            (t * v) * u <= (2 * w) * u,
            (t * -v) * u <= (2 * w) * u,
            u > 0,
    ;
}

proof fn lemma_size_of_count(a: u128)
    ensures
        GRAIN * (of_nat(a as nat).size() - a as nat * one_units()) <= a as nat * one_units(),
        GRAIN * (a as nat * one_units() - of_nat(a as nat).size()) <= a as nat * one_units(),
{
    let s = of_nat(a as nat).size();
    let z = a as nat * one_units();
    lemma_near_count(a);
    assert(s * 1 == s);
    assert(GRAIN * (s - z) <= z && GRAIN * (z - s) <= z) by (nonlinear_arith)
        requires
            s * GRAIN <= z * (GRAIN + 1),
            z * GRAIN <= s * GRAIN + z * 1,
    ;
}

/// A round trip loses what did not come back, in percent of what was given, up to
/// rounding.
pub proof fn law_loss_is_what_did_not_come_back(amount_in: u128, amount_back: u128)
    requires
        amount_back < amount_in,
    ensures
        ({
            let loss = round_trip_loss(amount_in, amount_back);
            let n = amount_in as nat;
            let u = one_units();
            &&& plain(loss) && loss.finite()
            &&& 0x80_0000_0000 * (loss.size() * n - (100 * (n - amount_back)) * u) <= (100 * n) * u
            &&& 0x80_0000_0000 * ((100 * (n - amount_back)) * u - loss.size() * n) <= (100 * n) * u
        }),
{
    let u = one_units();
    let given = of_nat(amount_in as nat);
    let back = of_nat(amount_back as nat);
    lemma_pow2_pos(1074);
    lemma_small_units(0);
    if amount_back > 0 {
        lemma_counts_apart(amount_back, amount_in);
    } else {
        lemma_count(amount_back);
        lemma_at_least_one(amount_in);
        lemma_pow2_strictly_increases(128, 300);
        assert(u <= given.size() * pow2(300)) by (nonlinear_arith)
            requires
                u <= given.size() * pow2(128),
                pow2(128) < pow2(300),
                given.size() > 0,
        ;
    }
    lemma_close_percent(given, back, given);
    lemma_size_of_count(amount_in);
    lemma_size_of_count(amount_back);
    let loss = product_of(quotient_of(difference_of(given, back), given), Double { bits: HUNDRED });
    assert(round_trip_loss(amount_in, amount_back) == loss);
    assert(amount_back as nat * u <= amount_in as nat * u) by (nonlinear_arith)
        requires
            amount_back <= amount_in,
    ;
    lemma_loss_of_counts(
        loss.size(),
        given.size(),
        back.size(),
        amount_in as nat,
        amount_back as nat,
        u,
    );
}

/// A number without size that is not negative is zero.
proof fn lemma_nothing_left(x: Double)
    requires
        plain(x),
        x.size() == 0,
    ensures
        x == (Double { bits: 0 }),
{
    lemma_small_units(0);
    if x.magnitude() > 0 {
        crate::order::lemma_units_increase(0, x.magnitude());
    }
}

/// A round trip that brings back at least what was given, or is given nothing, loses
/// nothing.
pub proof fn law_gain_is_no_loss(amount_in: u128, amount_back: u128)
    requires
        amount_in <= amount_back || amount_in == 0,
    ensures
        round_trip_loss(amount_in, amount_back) == (Double { bits: 0 }),
{
    let given = of_nat(amount_in as nat);
    let back = of_nat(amount_back as nat);
    lemma_small_units(0);
    lemma_count(amount_in);
    if amount_in > 0 {
        lemma_pow2_pos(1074);
        lemma_counts_apart(amount_in, amount_back);
        lemma_close_percent(back, given, given);
        let gain = product_of(
            quotient_of(difference_of(back, given), given),
            Double { bits: HUNDRED },
        );
        let loss = product_of(
            quotient_of(difference_of(given, back), given),
            Double { bits: HUNDRED },
        );
        if given.size() < back.size() {
            lemma_loss(given, back);
            lemma_sign_passes(difference_of(back, given).magnitude(), given);
            let n = (100 * (back.size() - given.size())) as nat;
            assert(gain.size() > 0) by {
                if gain.size() == 0 {
                    assert(0 * given.size() == 0);
                    assert(n * one_units() > 0) by (nonlinear_arith)
                        requires
                            n > 0,
                            one_units() > 0,
                    ;
                }
            }
            assert(loss.magnitude() == gain.magnitude());
            assert(less(loss, Double { bits: 0 }));
        } else {
            lemma_close_percent(given, back, given);
            assert(loss.size() * given.size() <= 0);
            assert(loss.size() == 0) by (nonlinear_arith)
                requires
                    loss.size() * given.size() <= 0,
                    given.size() > 0,
            ;
            lemma_nothing_left(loss);
        }
    }
}

} // verus!
