//! Order, conversions and powers of floating-point numbers.
use vstd::arithmetic::div_mod::lemma_fundamental_div_mod;
use vstd::arithmetic::div_mod::lemma_fundamental_div_mod_converse;
use vstd::arithmetic::power2::{
    lemma_pow2_adds, lemma_pow2_pos, lemma_pow2_strictly_increases, lemma_pow2_unfold, pow2,
};
use vstd::prelude::*;

use crate::double::{
    at_most, clamped_part, decode, exponent_of, less, mantissa_of, of_nat, one_units, product_of,
    quotient_of, round_exact, units_of, Double,
};
use crate::rounding::{
    lemma_pow2_127, lemma_pow2_zero, pinned, power_of_two, round_magnitude, BINADE,
};

verus! {

/// The bit pattern of one.
pub const ONE: u64 = 0x3FF0_0000_0000_0000;

/// The bit pattern of ten.
pub const TEN: u64 = 0x4024_0000_0000_0000;

proof fn lemma_units_step(magnitude: nat)
    ensures
        units_of(magnitude) < units_of(magnitude + 1),
{
    let b = BINADE as nat;
    let e = exponent_of(magnitude);
    let m = mantissa_of(magnitude);
    lemma_pow2_pos(e);
    lemma_pow2_zero();
    if magnitude < b {
        assert(m * pow2(0) == m) by (nonlinear_arith)
            requires
                pow2(0) == 1,
        ;
        let m1 = mantissa_of(magnitude + 1);
        assert(exponent_of(magnitude + 1) == 0);
        assert(m1 * pow2(0) == m1) by (nonlinear_arith)
            requires
                pow2(0) == 1,
        ;
    } else if magnitude % b + 1 < b {
        assert(exponent_of(magnitude + 1) == e);
        assert(mantissa_of(magnitude + 1) == m + 1);
        assert((m + 1) * pow2(e) > m * pow2(e)) by (nonlinear_arith)
            requires
                pow2(e) > 0,
        ;
    } else {
        assert(exponent_of(magnitude + 1) == e + 1);
        assert(mantissa_of(magnitude + 1) == b);
        lemma_pow2_unfold(e + 1);
        assert(b * (2 * pow2(e)) > m * pow2(e)) by (nonlinear_arith)
            requires
                pow2(e) > 0,
                m < 2 * b,
        ;
    }
}

/// A larger bit pattern is a larger size.
pub proof fn lemma_units_increase(a: nat, b: nat)
    requires
        a < b,
    ensures
        units_of(a) < units_of(b),
    decreases b - a,
{
    lemma_units_step(a);
    if a + 1 < b {
        lemma_units_increase(a + 1, b);
    }
}

proof fn lemma_units_zero()
    ensures
        units_of(0) == 0,
{
    assert(0 * pow2(0) == 0);
}

impl Double {
    /// Whether this number is below the other one.
    pub fn less_than(self, other: Double) -> (r: bool)
        ensures
            r == less(self, other),
    {
        let a: u64 = self.unsigned();
        let b: u64 = other.unsigned();
        proof {
            lemma_units_zero();
            if a < b {
                lemma_units_increase(a as nat, b as nat);
            }
            if b < a {
                lemma_units_increase(b as nat, a as nat);
            }
            if a > 0 {
                lemma_units_increase(0, a as nat);
            }
            if b > 0 {
                lemma_units_increase(0, b as nat);
            }
        }
        if self.is_nan() || other.is_nan() {
            false
        } else if self.is_negative() {
            if other.is_negative() {
                b < a
            } else {
                a != 0 || b != 0
            }
        } else if other.is_negative() {
            false
        } else {
            a < b
        }
    }

    /// Whether this number is not above the other one, both being numbers.
    pub fn no_more_than(self, other: Double) -> (r: bool)
        ensures
            r == at_most(self, other),
    {
        if self.is_nan() || other.is_nan() {
            false
        } else {
            !other.less_than(self)
        }
    }
}

/// The smaller of two numbers; the other one where one is not a number.
pub open spec fn smaller_of(x: Double, y: Double) -> Double {
    if x.nan() || less(y, x) {
        y
    } else {
        x
    }
}

/// The larger of two numbers; the other one where one is not a number.
pub open spec fn larger_of(x: Double, y: Double) -> Double {
    if x.nan() || less(x, y) {
        y
    } else {
        x
    }
}

impl Double {
    pub fn smaller(self, other: Double) -> (r: Double)
        ensures
            r == smaller_of(self, other),
    {
        if self.is_nan() || other.less_than(self) {
            other
        } else {
            self
        }
    }

    pub fn larger(self, other: Double) -> (r: Double)
        ensures
            r == larger_of(self, other),
    {
        if self.is_nan() || self.less_than(other) {
            other
        } else {
            self
        }
    }

    /// The number nearest to an integer.
    pub fn from_u128(v: u128) -> (r: Double)
        ensures
            r == of_nat(v as nat),
    {
        if v < 0x8000_0000_0000_0000_0000_0000_0000_0000 {
            Double::with_sign(false, round_exact(v, 1074))
        } else {
            let m: u128 = v / 2;
            let sticky: bool = v % 2 == 1;
            let ghost n = v as nat * one_units();
            proof {
                lemma_pow2_pos(1074);
                lemma_pow2_unfold(1075);
                let u = pow2(1074);
                assert(n == m * (pow2(1075) * 1) + (v % 2) * u) by (nonlinear_arith)
                    requires
                        n == v * u,
                        pow2(1075) == 2 * u,
                        v == 2 * m + v % 2,
                ;
                assert((m + 1) * (pow2(1075) * 1) == m * (pow2(1075) * 1) + pow2(1075))
                    by (nonlinear_arith);
                assert((v % 2) * u < 2 * u) by (nonlinear_arith)
                    requires
                        v % 2 <= 1,
                        u > 0,
                ;
                assert((v % 2) * u == 0 <==> v % 2 == 0) by (nonlinear_arith)
                    requires
                        u > 0,
                ;
                assert((v % 2) * u >= 0);
                assert(n * 1 == n);
                assert(pinned(n, 1, m as nat, 1075, sticky));
            }
            Double::with_sign(false, round_magnitude(m, 1075, sticky, Ghost(n), Ghost(1nat)))
        }
    }

    pub fn from_u64(v: u64) -> (r: Double)
        ensures
            r == of_nat(v as nat),
    {
        Double::from_u128(v as u128)
    }
}

/// What is left of `m * 2^e` units when whole ones are taken out.
proof fn lemma_part_of_units(m: nat, e: nat)
    ensures
        e <= 1074 ==> (m * pow2(e)) / one_units() == m / pow2((1074 - e) as nat),
        e >= 1074 ==> (m * pow2(e)) / one_units() == m * pow2((e - 1074) as nat),
{
    lemma_pow2_pos(1074);
    lemma_pow2_pos(e);
    if e <= 1074 {
        let k = (1074 - e) as nat;
        lemma_pow2_adds(k, e);
        lemma_pow2_pos(k);
        let q = (m / pow2(k)) as int;
        let r = (m % pow2(k)) as int;
        lemma_fundamental_div_mod(m as int, pow2(k) as int);
        assert(m * pow2(e) == q * one_units() + r * pow2(e)) by (nonlinear_arith)
            requires
                m == pow2(k) * q + r,
                one_units() == pow2(k) * pow2(e),
        ;
        assert(0 <= r * pow2(e) < one_units()) by (nonlinear_arith)
            requires
                0 <= r < pow2(k),
                pow2(e) > 0,
                one_units() == pow2(k) * pow2(e),
        ;
        lemma_fundamental_div_mod_converse(
            (m * pow2(e)) as int,
            one_units() as int,
            q,
            r * pow2(e),
        );
    }
    if e >= 1074 {
        let k = (e - 1074) as nat;
        lemma_pow2_adds(k, 1074);
        assert(m * pow2(e) == (m * pow2(k)) * one_units()) by (nonlinear_arith)
            requires
                pow2(e) == pow2(k) * one_units(),
        ;
        lemma_fundamental_div_mod_converse(
            (m * pow2(e)) as int,
            one_units() as int,
            (m * pow2(k)) as int,
            0,
        );
    }
}

impl Double {
    /// The integer part, held between zero and the largest `u128`.
    pub fn to_u128(self) -> (r: u128)
        ensures
            r == clamped_part(self, u128::MAX as nat),
    {
        if self.is_nan() || self.is_negative() {
            return 0;
        }
        if !self.is_finite() {
            return u128::MAX;
        }
        let (m, e) = decode(self.unsigned());
        proof {
            lemma_part_of_units(m as nat, e as nat);
            lemma_pow2_127();
            lemma_pow2_unfold(128);
        }
        if e >= 1074 {
            let k: i32 = e - 1074;
            if k > 75 {
                proof {
                    lemma_pow2_adds(52, 76);
                    if k > 76 {
                        lemma_pow2_strictly_increases(76, k as nat);
                    }
                    assert(m * pow2(k as nat) >= 0x1_0000_0000_0000_0000_0000_0000_0000_0000)
                        by (nonlinear_arith)
                        requires
                            m >= pow2(52),
                            pow2(k as nat) >= pow2(76),
                            pow2(52) * pow2(76) == 0x1_0000_0000_0000_0000_0000_0000_0000_0000,
                    ;
                }
                return u128::MAX;
            }
            let unit: u128 = power_of_two(k as u32);
            proof {
                lemma_pow2_pos(k as nat);
                lemma_pow2_adds(53, 75);
                if k < 75 {
                    lemma_pow2_strictly_increases(k as nat, 75);
                }
                assert(m * unit < 0x1_0000_0000_0000_0000_0000_0000_0000_0000) by (nonlinear_arith)
                    requires
                        m < pow2(53),
                        unit <= pow2(75),
                        unit > 0,
                        pow2(53) * pow2(75) == 0x1_0000_0000_0000_0000_0000_0000_0000_0000,
                ;
            }
            (m as u128) * unit
        } else {
            let k: i32 = 1074 - e;
            if k >= 64 {
                proof {
                    lemma_pow2_strictly_increases(53, k as nat);
                    assert(m as nat / pow2(k as nat) == 0) by (nonlinear_arith)
                        requires
                            m < pow2(k as nat),
                    ;
                }
                return 0;
            }
            let unit: u128 = power_of_two(k as u32);
            proof {
                lemma_pow2_pos(k as nat);
                assert(m as nat / unit as nat <= m) by (nonlinear_arith)
                    requires
                        unit > 0,
                ;
            }
            (m as u128) / unit
        }
    }

    /// The integer part, held between zero and the largest `u64`.
    pub fn to_u64(self) -> (r: u64)
        ensures
            r == clamped_part(self, u64::MAX as nat),
    {
        let v: u128 = self.to_u128();
        if v > u64::MAX as u128 {
            u64::MAX
        } else {
            v as u64
        }
    }
}

/// A power by repeated squaring: `r` times `a` to the power `b`.
pub open spec fn power_steps(a: Double, b: nat, r: Double) -> Double
    decreases b,
{
    if b == 0 {
        r
    } else {
        power_steps(
            product_of(a, a),
            b / 2,
            if b % 2 == 1 {
                product_of(r, a)
            } else {
                r
            },
        )
    }
}

/// Ten to an integer power; exact up to `10^22`.
pub open spec fn ten_to(n: int) -> Double {
    if n < 0 {
        quotient_of(
            Double { bits: ONE },
            power_steps(Double { bits: TEN }, (-n) as nat, Double { bits: ONE }),
        )
    } else {
        power_steps(Double { bits: TEN }, n as nat, Double { bits: ONE })
    }
}

/// Ten to an integer power.
pub fn power_of_ten(n: i32) -> (r: Double)
    requires
        -1000 <= n <= 1000,
    ensures
        r == ten_to(n as int),
{
    let mut a: Double = Double { bits: TEN };
    let mut b: i32 = if n < 0 { -n } else { n };
    let mut r: Double = Double { bits: ONE };
    let ghost total = power_steps(a, b as nat, r);
    while b > 0
        invariant
            0 <= b,
            power_steps(a, b as nat, r) == total,
        decreases b,
    {
        if b % 2 == 1 {
            r = r.times(a);
        }
        a = a.times(a);
        b = b / 2;
    }
    if n < 0 {
        Double { bits: ONE }.over(r)
    } else {
        r
    }
}

/// Of two numbers the larger and the smaller one are taken; where one is not a number, the
/// other is.
pub proof fn law_larger_and_smaller(x: Double, y: Double)
    ensures
        x.nan() ==> larger_of(x, y) == y && smaller_of(x, y) == y,
        y.nan() && !x.nan() ==> larger_of(x, y) == x && smaller_of(x, y) == x,
        !x.nan() && !y.nan() ==> {
            &&& larger_of(x, y) == x || larger_of(x, y) == y
            &&& smaller_of(x, y) == x || smaller_of(x, y) == y
            &&& larger_of(x, y).units() >= x.units() && larger_of(x, y).units() >= y.units()
            &&& smaller_of(x, y).units() <= x.units() && smaller_of(x, y).units() <= y.units()
        },
{
}

} // verus!
