//! Bounds on what rounding does.
use vstd::arithmetic::div_mod::lemma_fundamental_div_mod;
use vstd::arithmetic::power2::{
    lemma2_to64_rest, lemma_pow2_adds, lemma_pow2_pos, lemma_pow2_unfold, pow2,
};
use vstd::prelude::*;

use crate::double::{exponent_of, mantissa_of, one_units, units_of};
use crate::numbers::TEN_THOUSAND;
use crate::order::{lemma_units_increase, ONE};
use crate::rounding::{
    lemma_pow2_127, lemma_pow2_zero, nearest, nearest_magnitude, BINADE, INFINITE,
    MANTISSAS,
};

verus! {

/// Up to the second binade a magnitude is its own size.
pub proof fn lemma_small_units(g: nat)
    requires
        g < MANTISSAS,
    ensures
        units_of(g) == g,
{
    lemma_pow2_zero();
    let m = mantissa_of(g);
    assert(exponent_of(g) == 0);
    assert(m == g);
    assert(m * pow2(0) == m) by (nonlinear_arith)
        requires
            pow2(0) == 1,
    ;
}

/// One binade up, sizes are twice as large.
pub proof fn lemma_units_double(g: nat)
    requires
        g >= MANTISSAS,
    ensures
        units_of(g) == 2 * units_of((g - BINADE) as nat),
{
    let h = (g - BINADE) as nat;
    let m = mantissa_of(h);
    let e = exponent_of(h);
    assert(mantissa_of(g) == m);
    assert(exponent_of(g) == e + 1);
    lemma_pow2_unfold(e + 1);
    assert(m * (2 * pow2(e)) == 2 * (m * pow2(e))) by (nonlinear_arith);
}

/// What is no more than a magnitude is not rounded beyond it.
pub proof fn lemma_nearest_at_most(n: nat, d: nat, g: nat)
    requires
        d > 0,
        n <= units_of(g) * d,
    ensures
        nearest(n, d) <= g,
    decreases g,
{
    let q = n / d;
    let r = n % d;
    lemma_fundamental_div_mod(n as int, d as int);
    if n < MANTISSAS * d {
        assert(q < MANTISSAS) by (nonlinear_arith)
            requires
                n < MANTISSAS * d,
                n == d * q + r,
                r >= 0,
                d > 0,
        ;
        if g < MANTISSAS {
            lemma_small_units(g);
            assert(q < g || (q == g && r == 0)) by (nonlinear_arith)
                requires
                    n <= g * d,
                    n == d * q + r,
                    r >= 0,
                    d > 0,
            ;
        }
    } else {
        assert(units_of(g) >= MANTISSAS) by (nonlinear_arith)
            requires
                n >= MANTISSAS * d,
                n <= units_of(g) * d,
                d > 0,
        ;
        if g < MANTISSAS {
            lemma_small_units(g);
        }
        lemma_units_double(g);
        let h = (g - BINADE) as nat;
        let u = units_of(h);
        assert(u * (2 * d) == (2 * u) * d) by (nonlinear_arith);
        lemma_nearest_at_most(n, 2 * d, h);
    }
}

/// What is no less than a magnitude is not rounded below it.
pub proof fn lemma_nearest_at_least(n: nat, d: nat, g: nat)
    requires
        d > 0,
        units_of(g) * d <= n,
    ensures
        g <= nearest(n, d),
    decreases g,
{
    let q = n / d;
    let r = n % d;
    lemma_fundamental_div_mod(n as int, d as int);
    if g < MANTISSAS {
        lemma_small_units(g);
        if n < MANTISSAS * d {
            assert(q >= g) by (nonlinear_arith)
                requires
                    g * d <= n,
                    n == d * q + r,
                    r < d,
                    d > 0,
            ;
        } else if g > BINADE {
            lemma_small_units(BINADE as nat);
            assert(BINADE * (2 * d) == MANTISSAS * d) by (nonlinear_arith)
                requires
                    MANTISSAS == 2 * BINADE,
            ;
            lemma_nearest_at_least(n, 2 * d, BINADE as nat);
        }
    } else {
        lemma_units_double(g);
        let h = (g - BINADE) as nat;
        lemma_small_units(BINADE as nat);
        if h > BINADE {
            lemma_units_increase(BINADE as nat, h);
        }
        let u = units_of(h);
        assert(u * (2 * d) == (2 * u) * d) by (nonlinear_arith);
        assert(n >= MANTISSAS * d) by (nonlinear_arith)
            requires
                (2 * u) * d <= n,
                u >= BINADE,
                MANTISSAS == 2 * BINADE,
        ;
        lemma_nearest_at_least(n, 2 * d, h);
    }
}

pub proof fn lemma_magnitude_at_most(n: nat, d: nat, g: nat)
    requires
        d > 0,
        n <= units_of(g) * d,
    ensures
        nearest_magnitude(n, d) <= g,
{
    lemma_nearest_at_most(n, d, g);
}

pub proof fn lemma_magnitude_at_least(n: nat, d: nat, g: nat)
    requires
        d > 0,
        g <= INFINITE,
        units_of(g) * d <= n,
    ensures
        g <= nearest_magnitude(n, d),
{
    lemma_nearest_at_least(n, d, g);
}

/// Sizes do not decrease with magnitudes.
pub proof fn lemma_units_grow(a: nat, b: nat)
    requires
        a <= b,
    ensures
        units_of(a) <= units_of(b),
{
    if a < b {
        lemma_units_increase(a, b);
    }
}

/// The size of one.
pub proof fn lemma_one()
    ensures
        units_of(ONE as nat) == one_units(),
{
    lemma_pow2_127();
    assert(exponent_of(ONE as nat) == 1022);
    assert(mantissa_of(ONE as nat) == BINADE);
    lemma_pow2_adds(52, 1022);
}

/// The size of ten thousand.
pub proof fn lemma_ten_thousand()
    ensures
        units_of(TEN_THOUSAND as nat) == 10_000 * one_units(),
{
    lemma2_to64_rest();
    assert(exponent_of(TEN_THOUSAND as nat) == 1035);
    assert(mantissa_of(TEN_THOUSAND as nat) == 10_000 * pow2(39));
    lemma_pow2_adds(39, 1035);
    assert((10_000 * pow2(39)) * pow2(1035) == 10_000 * (pow2(39) * pow2(1035)))
        by (nonlinear_arith);
}

/// Above `2^14` units, the distance to the magnitude below is small against the size.
pub proof fn lemma_gap(g: nat)
    requires
        g >= 0x4000,
    ensures
        (units_of(g) - units_of((g - 1) as nat)) * 0x4000 <= units_of(g),
        units_of((g - 1) as nat) < units_of(g),
{
    let h = (g - 1) as nat;
    lemma_units_increase(h, g);
    if g < MANTISSAS {
        lemma_small_units(g);
        lemma_small_units(h);
    } else {
        let e = exponent_of(g);
        let m = mantissa_of(g);
        lemma_pow2_pos(e);
        lemma_pow2_unfold(e);
        let p = pow2(e);
        if g % BINADE as nat > 0 {
            assert(exponent_of(h) == e);
            assert(mantissa_of(h) == m - 1);
            assert(m * p - (m - 1) * p == p) by (nonlinear_arith);
            assert(p * 0x4000 <= m * p) by (nonlinear_arith)
                requires
                    m >= 0x4000,
                    p > 0,
            ;
        } else {
            let e1 = (e - 1) as nat;
            let p1 = pow2(e1);
            lemma_pow2_pos(e1);
            assert(exponent_of(h) == e1);
            assert(mantissa_of(h) == 2 * BINADE - 1);
            assert(m == BINADE);
            assert(m * p - (2 * BINADE - 1) * p1 == p1) by (nonlinear_arith)
                requires
                    p == 2 * p1,
                    m == BINADE,
            ;
            assert(p1 * 0x4000 <= m * p) by (nonlinear_arith)
                requires
                    m >= 0x4000,
                    p == 2 * p1,
                    p1 > 0,
            ;
        }
    }
}

} // verus!
