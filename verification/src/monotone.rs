//! Rounded arithmetic keeps the order of its arguments.
use vstd::arithmetic::div_mod::lemma_fundamental_div_mod;
use vstd::arithmetic::power2::{lemma_pow2_adds, lemma_pow2_pos, lemma_pow2_unfold, pow2};
use vstd::prelude::*;

use crate::bounds::{
    lemma_magnitude_at_least, lemma_magnitude_at_most, lemma_nearest_at_least, lemma_one,
    lemma_small_units, lemma_units_grow,
};
use crate::double::{
    at_most, difference_of, exponent_of, less, mantissa_of, negation_of, of_nat, one_units,
    product_of, quotient_of, units_of, Double,
};
use crate::order::{lemma_units_increase, ONE};
use crate::rounding::{
    half_even, lemma_nearest_scale, lemma_pow2_127, nearest, nearest_magnitude, BINADE, MANTISSAS,
};

verus! {

proof fn lemma_half_even_grows(a: nat, b: nat, d: nat)
    requires
        d > 0,
        a <= b,
    ensures
        half_even(a, d) <= half_even(b, d),
{
    let (qa, ra) = (a / d, a % d);
    let (qb, rb) = (b / d, b % d);
    lemma_fundamental_div_mod(a as int, d as int);
    lemma_fundamental_div_mod(b as int, d as int);
    assert(qa < qb || (qa == qb && ra <= rb)) by (nonlinear_arith)
        requires
            d * qa + ra <= d * qb + rb,
            0 <= ra,
            rb < d,
            d > 0,
    ;
}

/// A larger numerator is not rounded to a smaller magnitude.
proof fn lemma_nearest_grows(a: nat, b: nat, d: nat)
    requires
        d > 0,
        a <= b,
    ensures
        nearest(a, d) <= nearest(b, d),
    decreases b - d,
{
    if b < MANTISSAS * d {
        lemma_half_even_grows(a, b, d);
    } else if a < MANTISSAS * d {
        let (q, r) = (a / d, a % d);
        lemma_fundamental_div_mod(a as int, d as int);
        assert(q < MANTISSAS) by (nonlinear_arith)
            requires
                d * q + r < MANTISSAS * d,
                r >= 0,
                d > 0,
        ;
        lemma_small_units(BINADE as nat);
        assert(BINADE * (2 * d) == MANTISSAS * d) by (nonlinear_arith)
            requires
                MANTISSAS == 2 * BINADE,
        ;
        lemma_nearest_at_least(b, 2 * d, BINADE as nat);
    } else {
        lemma_nearest_grows(a, b, 2 * d);
    }
}

/// A larger ratio is not rounded to a smaller magnitude.
pub proof fn lemma_ratio_grows(n1: nat, d1: nat, n2: nat, d2: nat)
    requires
        d1 > 0,
        d2 > 0,
        n1 * d2 <= n2 * d1,
    ensures
        nearest_magnitude(n1, d1) <= nearest_magnitude(n2, d2),
{
    lemma_nearest_scale(n1, d1, d2);
    lemma_nearest_scale(n2, d2, d1);
    assert(d1 * d2 == d2 * d1) by (nonlinear_arith);
    assert(d1 * d2 > 0) by (nonlinear_arith)
        requires
            d1 > 0,
            d2 > 0,
    ;
    lemma_nearest_grows(n1 * d2, n2 * d1, d1 * d2);
}

/// Nothing is rounded to nothing.
pub proof fn lemma_nothing(d: nat)
    requires
        d > 0,
    ensures
        nearest_magnitude(0, d) == 0,
{
    lemma_small_units(0);
    lemma_magnitude_at_most(0, d, 0);
}

/// Whether a number is zero or above, infinity included, and not the negative zero.
pub open spec fn plain(x: Double) -> bool {
    !x.nan() && !x.negative()
}

/// Whether a number is finite and above zero.
pub open spec fn proper(x: Double) -> bool {
    x.finite() && less(Double { bits: 0 }, x)
}

pub proof fn lemma_proper(x: Double)
    requires
        proper(x),
    ensures
        plain(x),
        x.size() > 0,
        x.magnitude() > 0,
{
    lemma_small_units(0);
}

/// Numbers that are not negative are ordered as their magnitudes are.
pub proof fn lemma_plain_order(x: Double, y: Double)
    requires
        plain(x),
        plain(y),
    ensures
        at_most(x, y) <==> x.magnitude() <= y.magnitude(),
        at_most(x, y) <==> x.size() <= y.size(),
        less(x, y) <==> x.magnitude() < y.magnitude(),
        x.magnitude() == y.magnitude() ==> x == y,
        at_most(Double { bits: 0 }, x),
{
    lemma_small_units(0);
    if x.magnitude() < y.magnitude() {
        lemma_units_increase(x.magnitude(), y.magnitude());
    } else if y.magnitude() < x.magnitude() {
        lemma_units_increase(y.magnitude(), x.magnitude());
    }
}

/// One over a positive number is not negative.
pub proof fn lemma_reciprocal(x: Double)
    requires
        proper(x),
    ensures
        plain(quotient_of(Double { bits: ONE }, x)),
        quotient_of(Double { bits: ONE }, x).magnitude() == nearest_magnitude(
            one_units() * one_units(),
            x.size(),
        ),
{
    lemma_proper(x);
    lemma_one();
    lemma_pow2_pos(1074);
}

/// One over a larger number is not larger.
pub proof fn lemma_reciprocal_falls(x: Double, y: Double)
    requires
        proper(x),
        proper(y),
        at_most(x, y),
    ensures
        at_most(quotient_of(Double { bits: ONE }, y), quotient_of(Double { bits: ONE }, x)),
{
    lemma_proper(x);
    lemma_proper(y);
    lemma_reciprocal(x);
    lemma_reciprocal(y);
    lemma_plain_order(x, y);
    let n = one_units() * one_units();
    assert(n * x.size() <= n * y.size()) by (nonlinear_arith)
        requires
            x.size() <= y.size(),
            n >= 0,
    ;
    lemma_ratio_grows(n, y.size(), n, x.size());
    lemma_plain_order(
        quotient_of(Double { bits: ONE }, y),
        quotient_of(Double { bits: ONE }, x),
    );
}

/// A number that is not negative, less one that is finite and not larger.
pub proof fn lemma_difference(x: Double, y: Double)
    requires
        plain(x),
        plain(y),
        y.finite(),
        at_most(y, x),
    ensures
        plain(difference_of(x, y)),
        x.finite() ==> difference_of(x, y).finite() && difference_of(x, y).magnitude()
            == nearest_magnitude((x.size() - y.size()) as nat, 1),
        x.infinite() ==> difference_of(x, y) == x,
{
    let z = negation_of(y);
    assert(z.negative() && z.magnitude() == y.magnitude());
    if x.finite() {
        let n = (x.size() - y.size()) as nat;
        lemma_magnitude_at_most(n, 1, x.magnitude());
        lemma_nothing(1);
    }
}

/// Two differences are ordered as their exact values are.
pub proof fn lemma_difference_grows(x1: Double, y1: Double, x2: Double, y2: Double)
    requires
        plain(x1) && x1.finite(),
        plain(y1) && y1.finite(),
        plain(x2) && x2.finite(),
        plain(y2) && y2.finite(),
        at_most(y1, x1),
        at_most(y2, x2),
        x1.size() - y1.size() <= x2.size() - y2.size(),
    ensures
        at_most(difference_of(x1, y1), difference_of(x2, y2)),
{
    lemma_difference(x1, y1);
    lemma_difference(x2, y2);
    lemma_plain_order(x1, y1);
    lemma_plain_order(x2, y2);
    lemma_ratio_grows((x1.size() - y1.size()) as nat, 1, (x2.size() - y2.size()) as nat, 1);
    lemma_plain_order(difference_of(x1, y1), difference_of(x2, y2));
}

/// A 128-bit count as a number: finite, and zero only for none.
pub proof fn lemma_count(n: u128)
    ensures
        plain(of_nat(n as nat)),
        of_nat(n as nat).finite(),
        of_nat(n as nat).size() == 0 <==> n == 0,
        n == 0 ==> of_nat(n as nat) == (Double { bits: 0 }),
{
    let g: nat = 0x47F0_0000_0000_0000;
    let u = one_units();
    lemma_pow2_pos(1074);
    lemma_pow2_127();
    lemma_pow2_unfold(128);
    lemma_pow2_adds(128, 1074);
    lemma_pow2_adds(52, 1150);
    assert(exponent_of(g) == 1150);
    assert(mantissa_of(g) == BINADE);
    assert(units_of(g) == pow2(1202));
    assert(n * u <= pow2(128) * u) by (nonlinear_arith)
        requires
            n <= pow2(128),
    ;
    lemma_magnitude_at_most(n as nat * u, 1, g);
    lemma_small_units(0);
    lemma_nothing(1);
    if n == 0 {
        assert(n as nat * u == 0) by (nonlinear_arith)
            requires
                n == 0,
        ;
    } else {
        lemma_small_units(1);
        assert(n as nat * u >= 1) by (nonlinear_arith)
            requires
                n >= 1,
                u >= 1,
        ;
        lemma_magnitude_at_least(n as nat * u, 1, 1);
        lemma_units_grow(1, of_nat(n as nat).magnitude());
    }
}

/// A finite number that is not negative, times another that is not negative: not
/// negative; nothing where one is nothing and the other finite.
pub proof fn lemma_product(l: Double, x: Double)
    requires
        plain(l),
        l.finite(),
        plain(x),
        x.finite() || l.size() > 0,
    ensures
        plain(product_of(l, x)),
        x.finite() ==> product_of(l, x).magnitude() == nearest_magnitude(
            l.size() * x.size(),
            one_units(),
        ),
        x.infinite() ==> product_of(l, x).infinite(),
        l.size() == 0 ==> product_of(l, x) == (Double { bits: 0 }),
{
    lemma_pow2_pos(1074);
    lemma_nothing(one_units());
    if l.size() == 0 {
        assert(l.size() * x.size() == 0) by (nonlinear_arith)
            requires
                l.size() == 0,
        ;
    }
}

/// A product does not fall as a factor grows.
pub proof fn lemma_product_grows(l: Double, x: Double, y: Double)
    requires
        plain(l),
        l.finite(),
        plain(x),
        plain(y),
        x.finite() || l.size() > 0,
        y.finite() || l.size() > 0,
        at_most(x, y),
    ensures
        at_most(product_of(l, x), product_of(l, y)),
{
    lemma_product(l, x);
    lemma_product(l, y);
    lemma_plain_order(x, y);
    lemma_plain_order(product_of(l, x), product_of(l, y));
    lemma_pow2_pos(1074);
    let u = one_units();
    if y.finite() {
        let a = l.size() * x.size();
        let b = l.size() * y.size();
        assert(a <= b) by (nonlinear_arith)
            requires
                x.size() <= y.size(),
                a == l.size() * x.size(),
                b == l.size() * y.size(),
                l.size() >= 0,
        ;
        assert(a * u <= b * u) by (nonlinear_arith)
            requires
                a <= b,
        ;
        lemma_ratio_grows(a, u, b, u);
    }
}

} // verus!
