//! Minimum amounts under a slippage tolerance.
use vstd::arithmetic::power2::{lemma_pow2_adds, lemma_pow2_pos, pow2};
use vstd::prelude::*;

use crate::bounds::{
    lemma_gap, lemma_magnitude_at_least, lemma_magnitude_at_most, lemma_nearest_at_most, lemma_one,
    lemma_units_grow,
};
use crate::double::{
    clamped_part, difference_of, exponent_of, mantissa_of, negation_of, of_nat, one_units,
    product_of, quotient_of, units_of, Double,
};
use crate::numbers::TEN_THOUSAND;
use crate::order::{larger_of, ONE};
use crate::rounding::{lemma_pow2_127, nearest_magnitude, BINADE, INFINITE};

verus! {

/// What a tolerance of `bps` hundredths of a percent leaves of an amount.
pub open spec fn kept_fraction(bps: u64) -> Double {
    difference_of(
        Double { bits: ONE },
        quotient_of(of_nat(bps as nat), Double { bits: TEN_THOUSAND }),
    )
}

fn fraction_kept(bps: u64) -> (r: Double)
    ensures
        r == kept_fraction(bps),
{
    (Double { bits: ONE }).minus(Double::from_u64(bps).over(Double { bits: TEN_THOUSAND }))
}

/// The least that is accepted where `amount` is expected.
pub open spec fn least_out(amount: u128, bps: u64) -> u128 {
    clamped_part(product_of(of_nat(amount as nat), kept_fraction(bps)), u128::MAX as nat) as u128
}

/// The least that is accepted where `amount` is expected, under a tolerance of `bps`
/// hundredths of a percent.
pub fn minimum_out(amount: u128, bps: u64) -> (r: u128)
    ensures
        r == least_out(amount, bps),
{
    Double::from_u128(amount).times(fraction_kept(bps)).to_u128()
}

/// The least that is accepted where an estimate of `amount` is expected.
pub open spec fn least_of(amount: Double, bps: u64) -> u128 {
    clamped_part(
        larger_of(product_of(amount, kept_fraction(bps)), Double { bits: 0 }),
        u128::MAX as nat,
    ) as u128
}

/// The least that is accepted where an estimate of `amount` is expected, under a
/// tolerance of `bps` hundredths of a percent.
pub fn minimum_of(amount: Double, bps: u64) -> (r: u128)
    ensures
        r == least_of(amount, bps),
{
    amount.times(fraction_kept(bps)).larger(Double { bits: 0 }).to_u128()
}

/// The bits of `2^-14`, which is less than a ten-thousandth.
pub const TINY: u64 = 0x3F10_0000_0000_0000;

/// The bits of `1 - 2^-14`.
pub const BELOW_ONE: u64 = 0x3FEF_FF80_0000_0000;

/// The bits of `2^128`.
pub const TWO_128_BITS: u64 = 0x47F0_0000_0000_0000;

proof fn lemma_sizes()
    ensures
        one_units() == 0x4000 * pow2(1060),
        pow2(1060) > 0,
        units_of(ONE as nat) == one_units(),
        units_of(TEN_THOUSAND as nat) == 10_000 * one_units(),
        units_of(TINY as nat) == pow2(1060),
        units_of(BELOW_ONE as nat) == one_units() - pow2(1060),
        units_of(TWO_128_BITS as nat) == 0x1_0000_0000_0000_0000_0000_0000_0000_0000nat
            * one_units(),
{
    lemma_one();
    lemma_pow2_127();
    lemma_pow2_pos(1060);
    vstd::arithmetic::power2::lemma2_to64();
    vstd::arithmetic::power2::lemma2_to64_rest();
    lemma_pow2_adds(14, 1060);
    assert(exponent_of(TEN_THOUSAND as nat) == 1035);
    assert(mantissa_of(TEN_THOUSAND as nat) == 10_000 * 0x80_0000_0000nat);
    lemma_pow2_adds(39, 1035);
    let a = pow2(1035);
    assert((10_000 * 0x80_0000_0000nat) * a == 10_000 * (0x80_0000_0000nat * a))
        by (nonlinear_arith);
    assert(exponent_of(TINY as nat) == 1008);
    assert(mantissa_of(TINY as nat) == BINADE);
    lemma_pow2_adds(52, 1008);
    assert(exponent_of(BELOW_ONE as nat) == 1021);
    assert(mantissa_of(BELOW_ONE as nat) == 0x20_0000_0000_0000nat - 0x80_0000_0000nat);
    lemma_pow2_adds(53, 1021);
    lemma_pow2_adds(39, 1021);
    let b = pow2(1021);
    assert((0x20_0000_0000_0000nat - 0x80_0000_0000nat) * b == 0x20_0000_0000_0000nat * b
        - 0x80_0000_0000nat * b) by (nonlinear_arith);
    assert(exponent_of(TWO_128_BITS as nat) == 1150);
    assert(mantissa_of(TWO_128_BITS as nat) == BINADE);
    lemma_pow2_adds(52, 1150);
    lemma_pow2_adds(128, 1074);
    lemma_pow2_adds(64, 64);
}

/// A tolerance of at least one leaves at most `1 - 2^-14`.
proof fn lemma_kept_fraction(bps: u64)
    requires
        bps >= 1,
    ensures
        !kept_fraction(bps).nan(),
        kept_fraction(bps).negative() || (kept_fraction(bps).finite() && kept_fraction(bps).size()
            <= one_units() - pow2(1060)),
{
    lemma_sizes();
    let one = one_units();
    let t = pow2(1060);
    let x = of_nat(bps as nat);
    assert(units_of(ONE as nat) * 1 <= bps * one) by (nonlinear_arith)
        requires
            units_of(ONE as nat) == one,
            bps >= 1,
    ;
    lemma_magnitude_at_least(bps as nat * one, 1, ONE as nat);
    assert(x.magnitude() == nearest_magnitude(bps as nat * one, 1));
    lemma_units_grow(ONE as nat, x.magnitude());
    let y = Double { bits: TEN_THOUSAND };
    assert(y.magnitude() == TEN_THOUSAND);
    let q = quotient_of(x, y);
    if !x.infinite() {
        let s = x.size();
        assert(s >= one);
        assert(t * (10_000 * one) <= s * one) by (nonlinear_arith)
            requires
                s >= one,
                one == 0x4000 * t,
                t > 0,
        ;
        lemma_magnitude_at_least(s * one, y.size(), TINY as nat);
        let m = nearest_magnitude(s * one, y.size());
        assert(m <= INFINITE);
        assert(q.magnitude() == m && !q.negative());
        lemma_units_grow(TINY as nat, m);
        let minus = negation_of(q);
        assert(minus.magnitude() == m && minus.negative());
        let left = Double { bits: ONE };
        assert(left.magnitude() == ONE && !left.negative());
        if !q.infinite() {
            let rest = one - q.size();
            assert(left.units() + minus.units() == rest);
            if rest > 0 {
                lemma_magnitude_at_most(rest as nat, 1, BELOW_ONE as nat);
                let k = nearest_magnitude(rest as nat, 1);
                assert(kept_fraction(bps).magnitude() == k);
                lemma_units_grow(k, BELOW_ONE as nat);
            } else if rest < 0 {
                let k = nearest_magnitude((-rest) as nat, 1);
                assert(k <= INFINITE);
            } else {
                assert(kept_fraction(bps).magnitude() == 0);
                assert(units_of(0) == 0) by {
                    crate::bounds::lemma_small_units(0);
                }
            }
        }
    }
}

/// Under a tolerance of at least one hundredth of a percent, the least that is accepted
/// is never more than what is expected.
pub proof fn law_minimum_is_no_more_than_expected(amount: u128, bps: u64)
    requires
        bps >= 1,
    ensures
        least_out(amount, bps) <= amount,
{
    lemma_sizes();
    lemma_kept_fraction(bps);
    let one = one_units();
    let t = pow2(1060);
    let n = amount as nat * one;
    let a = of_nat(amount as nat);
    let k = kept_fraction(bps);
    let p = product_of(a, k);
    assert(n <= units_of(TWO_128_BITS as nat) * 1) by (nonlinear_arith)
        requires
            n == amount * one,
            units_of(TWO_128_BITS as nat) == 0x1_0000_0000_0000_0000_0000_0000_0000_0000nat * one,
            amount < 0x1_0000_0000_0000_0000_0000_0000_0000_0000nat,
    ;
    lemma_magnitude_at_most(n, 1, TWO_128_BITS as nat);
    let g = nearest_magnitude(n, 1);
    assert(a.magnitude() == g && !a.negative() && a.finite());
    if k.negative() {
        if !k.infinite() {
            let m = nearest_magnitude(a.size() * k.size(), one);
            assert(m <= INFINITE);
            assert(p.negative());
        } else if a.size() != 0 {
            assert(p.negative());
        }
    } else {
        let w = a.size() * k.size();
        let m = nearest_magnitude(w, one);
        assert(m <= INFINITE);
        assert(p.magnitude() == m && !p.negative());
        if a.size() <= n {
            assert(w <= a.size() * one) by (nonlinear_arith)
                requires
                    w == a.size() * k.size(),
                    k.size() <= one,
            ;
            lemma_magnitude_at_most(w, one, g);
            lemma_units_grow(m, g);
            assert(units_of(m) <= n);
        } else {
            if amount == 0 {
                crate::bounds::lemma_small_units(0);
                lemma_magnitude_at_most(n, 1, 0);
                assert(false);
            }
            assert(units_of(ONE as nat) * 1 <= n) by (nonlinear_arith)
                requires
                    units_of(ONE as nat) == one,
                    n == amount * one,
                    amount >= 1,
            ;
            lemma_magnitude_at_least(n, 1, ONE as nat);
            let h = (g - 1) as nat;
            lemma_gap(g);
            if n <= units_of(h) * 1 {
                lemma_nearest_at_most(n, 1, h);
                assert(false);
            }
            let u = units_of(g);
            let v = units_of(h);
            assert(w <= v * one) by (nonlinear_arith)
                requires
                    w == u * k.size(),
                    k.size() <= one - t,
                    one == 0x4000 * t,
                    (u - v) * 0x4000 <= u,
                    t > 0,
                    u >= 0,
            ;
            lemma_magnitude_at_most(w, one, h);
            lemma_units_grow(m, h);
            assert(units_of(m) <= n);
        }
        assert(units_of(m) / one <= amount) by (nonlinear_arith)
            requires
                units_of(m) <= amount * one,
                one > 0,
        ;
    }
}

/// Under a tolerance of at least one hundredth of a percent, the least that is accepted
/// is never more than what an estimate comes to.
pub proof fn law_minimum_is_no_more_than_estimated(amount: Double, bps: u64)
    requires
        bps >= 1,
        !amount.nan(),
        !amount.negative(),
    ensures
        least_of(amount, bps) <= clamped_part(amount, u128::MAX as nat),
{
    lemma_sizes();
    lemma_kept_fraction(bps);
    let one = one_units();
    let k = kept_fraction(bps);
    let p = product_of(amount, k);
    let g = amount.magnitude();
    crate::bounds::lemma_small_units(0);
    let zero = Double { bits: 0 };
    assert(zero.magnitude() == 0 && zero.size() == 0);
    assert(0nat / one == 0) by (nonlinear_arith)
        requires
            one > 0,
    ;
    assert(clamped_part(zero, u128::MAX as nat) == 0);
    if !k.negative() && !amount.infinite() {
        let w = amount.size() * k.size();
        assert(w <= amount.size() * one) by (nonlinear_arith)
            requires
                w == amount.size() * k.size(),
                k.size() <= one,
        ;
        lemma_magnitude_at_most(w, one, g);
        let m = nearest_magnitude(w, one);
        assert(p.magnitude() == m && !p.negative());
        lemma_units_grow(m, g);
        assert(units_of(m) / one <= units_of(g) / one) by (nonlinear_arith)
            requires
                units_of(m) <= units_of(g),
                one > 0,
        ;
    } else if k.negative() && !k.infinite() && !amount.infinite() {
        let m = nearest_magnitude(amount.size() * k.size(), one);
        assert(m <= INFINITE);
        assert(p.negative());
    }
}

} // verus!
