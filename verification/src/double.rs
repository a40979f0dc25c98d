//! 64-bit binary floating-point numbers, held by their bit patterns.
//!
//! Every finite number is an integer multiple of `2^-1074`, so its exact value is
//! an integer count of such units. Arithmetic is stated as the exact result on
//! those integers, rounded once to the nearest number, ties to even.
use vstd::arithmetic::div_mod::lemma_fundamental_div_mod;
use vstd::arithmetic::power2::{
    lemma_pow2_adds, lemma_pow2_pos, lemma_pow2_strictly_increases, lemma_pow2_unfold, pow2,
};
use vstd::prelude::*;

use crate::rounding::{
    lemma_pow2_127, lemma_pow2_zero, nearest, nearest_magnitude, pinned, power_of_two,
    round_magnitude, BINADE, INFINITE, MANTISSAS,
};

verus! {

/// The sign bit, alone.
pub const SIGN: u64 = 0x8000_0000_0000_0000;

/// A 64-bit floating-point number, by its bit pattern.
#[derive(Clone, Copy, Debug, PartialEq, Eq, Structural)]
pub struct Double {
    pub bits: u64,
}

/// The mantissa of a finite magnitude, the leading bit included.
pub open spec fn mantissa_of(magnitude: nat) -> nat {
    if magnitude < BINADE {
        magnitude
    } else {
        magnitude % BINADE as nat + BINADE as nat
    }
}

/// The binade of a finite magnitude: how often one unit is doubled.
pub open spec fn exponent_of(magnitude: nat) -> nat {
    if magnitude < BINADE {
        0
    } else {
        (magnitude / BINADE as nat - 1) as nat
    }
}

/// The exact value of a magnitude, in units of `2^-1074`. Infinity gets the value
/// that would follow the largest finite one.
pub open spec fn units_of(magnitude: nat) -> nat {
    mantissa_of(magnitude) * pow2(exponent_of(magnitude))
}

impl Double {
    pub open spec fn negative(self) -> bool {
        self.bits >= SIGN
    }

    pub open spec fn magnitude(self) -> nat {
        self.bits as nat % SIGN as nat
    }

    pub open spec fn nan(self) -> bool {
        self.magnitude() > INFINITE
    }

    pub open spec fn infinite(self) -> bool {
        self.magnitude() == INFINITE
    }

    pub open spec fn finite(self) -> bool {
        self.magnitude() < INFINITE
    }

    /// The absolute value, in units of `2^-1074`.
    pub open spec fn size(self) -> nat {
        units_of(self.magnitude())
    }

    /// The exact value, in units of `2^-1074`.
    pub open spec fn units(self) -> int {
        if self.negative() {
            -self.size()
        } else {
            self.size() as int
        }
    }
}

/// The number with the given sign and magnitude.
pub open spec fn signed(negative: bool, magnitude: nat) -> Double {
    Double {
        bits: if negative {
            (SIGN + magnitude) as u64
        } else {
            magnitude as u64
        },
    }
}

/// Not a number.
pub open spec fn not_a_number() -> Double {
    Double { bits: 0x7FF8_0000_0000_0000 }
}

/// How many units make one.
pub open spec fn one_units() -> nat {
    pow2(1074)
}

/// The number nearest to the natural number `n`.
pub open spec fn of_nat(n: nat) -> Double {
    signed(false, nearest_magnitude(n * one_units(), 1))
}

pub open spec fn negation_of(x: Double) -> Double {
    signed(!x.negative(), x.magnitude())
}

pub open spec fn sum_of(x: Double, y: Double) -> Double {
    if x.nan() || y.nan() || (x.infinite() && y.infinite() && x.negative() != y.negative()) {
        not_a_number()
    } else if x.infinite() {
        x
    } else if y.infinite() {
        y
    } else if x.units() + y.units() == 0 {
        signed(x.negative() && y.negative(), 0)
    } else if x.units() + y.units() < 0 {
        signed(true, nearest_magnitude((-(x.units() + y.units())) as nat, 1))
    } else {
        signed(false, nearest_magnitude((x.units() + y.units()) as nat, 1))
    }
}

pub open spec fn difference_of(x: Double, y: Double) -> Double {
    sum_of(x, negation_of(y))
}

pub open spec fn product_of(x: Double, y: Double) -> Double {
    let negative = x.negative() != y.negative();
    if x.nan() || y.nan() || (x.infinite() && y.size() == 0) || (x.size() == 0 && y.infinite()) {
        not_a_number()
    } else if x.infinite() || y.infinite() {
        signed(negative, INFINITE as nat)
    } else {
        signed(negative, nearest_magnitude(x.size() * y.size(), one_units()))
    }
}

pub open spec fn quotient_of(x: Double, y: Double) -> Double {
    let negative = x.negative() != y.negative();
    if x.nan() || y.nan() || (x.infinite() && y.infinite()) || (x.size() == 0 && y.size() == 0) {
        not_a_number()
    } else if x.infinite() || y.size() == 0 {
        signed(negative, INFINITE as nat)
    } else if y.infinite() {
        signed(negative, 0)
    } else {
        signed(negative, nearest_magnitude(x.size() * one_units(), y.size()))
    }
}

/// `x < y`; false if either is not a number.
pub open spec fn less(x: Double, y: Double) -> bool {
    !x.nan() && !y.nan() && x.units() < y.units()
}

/// `x <= y`; false if either is not a number.
pub open spec fn at_most(x: Double, y: Double) -> bool {
    !x.nan() && !y.nan() && x.units() <= y.units()
}

/// The integer part of a number, not below zero and not above `limit`; zero if it
/// is not a number.
pub open spec fn clamped_part(x: Double, limit: nat) -> nat {
    if x.nan() || x.negative() {
        0
    } else if x.infinite() || x.size() / one_units() > limit {
        limit
    } else {
        x.size() / one_units()
    }
}

impl Double {
    /// The bit pattern without its sign.
    pub fn unsigned(self) -> (r: u64)
        ensures
            r == self.magnitude(),
    {
        self.bits % SIGN
    }

    pub fn is_negative(self) -> (r: bool)
        ensures
            r == self.negative(),
    {
        self.bits >= SIGN
    }

    pub fn is_nan(self) -> (r: bool)
        ensures
            r == self.nan(),
    {
        self.unsigned() > INFINITE
    }

    pub fn is_finite(self) -> (r: bool)
        ensures
            r == self.finite(),
    {
        self.unsigned() < INFINITE
    }

    pub(crate) fn with_sign(negative: bool, magnitude: u64) -> (r: Double)
        requires
            magnitude < SIGN,
        ensures
            r == signed(negative, magnitude as nat),
    {
        if negative {
            Double { bits: SIGN + magnitude }
        } else {
            Double { bits: magnitude }
        }
    }

    pub fn negated(self) -> (r: Double)
        ensures
            r == negation_of(self),
    {
        Double::with_sign(!self.is_negative(), self.unsigned())
    }

    /// The absolute value.
    pub fn absolute(self) -> (r: Double)
        ensures
            r == signed(false, self.magnitude()),
    {
        Double::with_sign(false, self.unsigned())
    }
}

/// Mantissa and binade of a finite magnitude.
pub(crate) fn decode(magnitude: u64) -> (r: (u64, i32))
    requires
        magnitude <= INFINITE,
    ensures
        r.0 == mantissa_of(magnitude as nat),
        r.1 == exponent_of(magnitude as nat),
        r.0 < MANTISSAS,
        0 <= r.1 <= 2046,
        r.1 > 0 ==> r.0 >= BINADE,
        units_of(magnitude as nat) == r.0 * pow2(r.1 as nat),
        r.0 == 0 <==> magnitude == 0,
        r.0 == 0 <==> units_of(magnitude as nat) == 0,
{
    proof {
        let e = exponent_of(magnitude as nat);
        let m = mantissa_of(magnitude as nat);
        lemma_pow2_pos(e);
        assert(m * pow2(e) == 0 <==> m == 0) by (nonlinear_arith)
            requires
                pow2(e) > 0,
        ;
    }
    if magnitude < BINADE {
        (magnitude, 0)
    } else {
        (magnitude % BINADE + BINADE, (magnitude / BINADE) as i32 - 1)
    }
}

proof fn lemma_grid(a: nat, t: nat, rem: nat, big: nat, w: nat, wp: nat)
    requires
        rem < big,
        w > 0,
        wp == w * big,
    ensures
        (a + t) * wp <= a * wp + (t * big + rem) * w < (a + t + 1) * wp,
        rem == 0 <==> a * wp + (t * big + rem) * w == (a + t) * wp,
        a >= t && rem == 0 ==> a * wp - (t * big + rem) * w == (a - t) * wp,
        a >= t + 1 && rem > 0 ==> (a - t - 1) * wp < a * wp - (t * big + rem) * w < (a - t) * wp,
{
    assert((t * big + rem) * w == t * wp + rem * w) by (nonlinear_arith)
        requires
            wp == w * big,
    ;
    assert((a + t) * wp == a * wp + t * wp) by (nonlinear_arith);
    assert((a + t + 1) * wp == a * wp + t * wp + wp) by (nonlinear_arith);
    assert((a - t) * wp == a * wp - t * wp) by (nonlinear_arith);
    assert((a - t - 1) * wp == a * wp - t * wp - wp) by (nonlinear_arith);
    assert(rem * w < wp) by (nonlinear_arith)
        requires
            rem < big,
            w > 0,
            wp == w * big,
    ;
    assert(rem * w == 0 <==> rem == 0) by (nonlinear_arith)
        requires
            w > 0,
    ;
    assert(rem * w >= 0);
}

/// The magnitude nearest to `(larger + smaller)` or `(larger - smaller)` units,
/// where the larger one lies more than 70 binades above.
fn round_far_apart(m1: u64, e1: i32, m2: u64, e2: i32, subtract: bool) -> (r: u64)
    requires
        BINADE <= m1 < MANTISSAS,
        m2 < MANTISSAS,
        0 <= e2,
        e2 + 70 < e1 <= 2046,
    ensures
        m1 * pow2(e1 as nat) > m2 * pow2(e2 as nat),
        r == nearest_magnitude(
            if subtract {
                (m1 * pow2(e1 as nat) - m2 * pow2(e2 as nat)) as nat
            } else {
                (m1 * pow2(e1 as nat) + m2 * pow2(e2 as nat)) as nat
            },
            1,
        ),
{
    let e: i32 = e1 - 66;
    let shift: i32 = e - e2;
    let a: u128 = (m1 as u128) * 0x4_0000_0000_0000_0000;
    let ghost big = pow2(shift as nat);
    let ghost w = pow2(e2 as nat);
    let ghost t = m2 as nat / big;
    let ghost rem = m2 as nat % big;
    let part: u64;
    let lost: bool;
    proof {
        lemma_pow2_127();
        lemma_pow2_pos(shift as nat);
    }
    if shift >= 64 {
        proof {
            lemma_pow2_strictly_increases(53, shift as nat);
            assert(m2 as nat / big == 0 && m2 as nat % big == m2) by (nonlinear_arith)
                requires
                    m2 < big,
            ;
        }
        part = 0;
        lost = m2 != 0;
    } else {
        let unit: u128 = power_of_two(shift as u32);
        part = (m2 as u128 / unit) as u64;
        lost = m2 as u128 % unit != 0;
        proof {
            assert(m2 as nat / big <= m2) by (nonlinear_arith)
                requires
                    big > 0,
            ;
        }
    }
    let m: u128 = if !subtract {
        a + part as u128
    } else if lost {
        a - part as u128 - 1
    } else {
        a - part as u128
    };
    let ghost n1 = m1 * pow2(e1 as nat);
    let ghost n2 = m2 * w;
    let ghost n = if subtract {
        (n1 - n2) as nat
    } else {
        (n1 + n2) as nat
    };
    proof {
        lemma_pow2_pos(e2 as nat);
        lemma_pow2_pos(e as nat);
        lemma_pow2_adds(e2 as nat, shift as nat);
        assert(e2 as nat + shift as nat == e as nat);
        lemma_pow2_adds(66, e as nat);
        vstd::arithmetic::power2::lemma2_to64();
        lemma_pow2_adds(64, 2);
        let wp = pow2(e as nat);
        assert(pow2(66) == 0x4_0000_0000_0000_0000);
        assert(n1 == a * wp) by (nonlinear_arith)
            requires
                n1 == m1 * pow2(e1 as nat),
                pow2(e1 as nat) == pow2(66) * wp,
                a == m1 * pow2(66),
        ;
        lemma_fundamental_div_mod(m2 as int, big as int);
        assert(m2 == t * big + rem) by (nonlinear_arith)
            requires
                m2 == big * t + rem,
        ;
        lemma_grid(a as nat, t, rem, big, w, wp);
        assert(n1 > n2) by {
            if rem > 0 {
                assert((a - t - 1) * wp >= 0) by (nonlinear_arith)
                    requires
                        a >= t + 1,
                        wp > 0,
                ;
            } else {
                assert((a - t) * wp > 0) by (nonlinear_arith)
                    requires
                        a >= t + 1,
                        wp > 0,
                ;
            }
        }
        assert(wp * 1 == wp);
        assert(n * 1 == n);
        if subtract && !lost {
            assert((m + 1) * wp > m * wp) by (nonlinear_arith)
                requires
                    wp > 0,
            ;
        }
        assert(pinned(n, 1, m as nat, e as int, lost));
    }
    round_magnitude(m, e, lost, Ghost(n), Ghost(1nat))
}

/// The magnitude nearest to `m * 2^e` units.
pub(crate) fn round_exact(m: u128, e: i32) -> (r: u64)
    requires
        m < 0x8000_0000_0000_0000_0000_0000_0000_0000,
        0 <= e <= 2400,
    ensures
        r == nearest_magnitude(m as nat * pow2(e as nat), 1),
{
    let ghost n = m as nat * pow2(e as nat);
    proof {
        lemma_pow2_pos(e as nat);
        let u = pow2(e as nat);
        assert(u * 1 == u);
        assert(n * 1 == n);
        assert((m + 1) * u > m * u) by (nonlinear_arith)
            requires
                u > 0,
        ;
    }
    round_magnitude(m, e, false, Ghost(n), Ghost(1nat))
}

/// The sum of two finite numbers, the first of which lies in no lower binade.
fn sum_finite(x: Double, y: Double) -> (r: Double)
    requires
        x.finite(),
        y.finite(),
        exponent_of(x.magnitude()) >= exponent_of(y.magnitude()),
    ensures
        r == sum_of(x, y),
{
    let (m1, e1) = decode(x.unsigned());
    let (m2, e2) = decode(y.unsigned());
    let same: bool = x.is_negative() == y.is_negative();
    let gap: i32 = e1 - e2;
    let ghost u1 = pow2(e1 as nat);
    let ghost u2 = pow2(e2 as nat);
    let ghost n1 = m1 * u1;
    let ghost n2 = m2 * u2;
    if gap > 70 {
        let magnitude: u64 = round_far_apart(m1, e1, m2, e2, !same);
        return Double::with_sign(x.is_negative(), magnitude);
    }
    let unit: u128 = power_of_two(gap as u32);
    proof {
        lemma_pow2_127();
        vstd::arithmetic::power2::lemma2_to64();
        lemma_pow2_adds(64, 6);
        if gap < 70 {
            lemma_pow2_strictly_increases(gap as nat, 70);
        }
        assert(m1 * unit < 0x800_0000_0000_0000_0000_0000_0000_0000) by (nonlinear_arith)
            requires
                m1 < 0x20_0000_0000_0000,
                unit <= 0x40_0000_0000_0000_0000,
        ;
    }
    let a: u128 = (m1 as u128) * unit;
    let b: u128 = m2 as u128;
    proof {
        lemma_pow2_adds(e2 as nat, gap as nat);
        assert(e2 as nat + gap as nat == e1 as nat);
        assert(n1 == a * u2) by (nonlinear_arith)
            requires
                n1 == m1 * u1,
                u1 == u2 * unit,
                a == m1 * unit,
        ;
        lemma_pow2_pos(e2 as nat);
        assert((a + b) * u2 == n1 + n2) by (nonlinear_arith)
            requires
                n1 == a * u2,
                n2 == b * u2,
        ;
        assert((a - b) * u2 == n1 - n2) by (nonlinear_arith)
            requires
                n1 == a * u2,
                n2 == b * u2,
        ;
        assert((b - a) * u2 == n2 - n1) by (nonlinear_arith)
            requires
                n1 == a * u2,
                n2 == b * u2,
        ;
        assert(a > b ==> (a - b) * u2 > 0) by (nonlinear_arith)
            requires
                u2 > 0,
        ;
        assert(b > a ==> (b - a) * u2 > 0) by (nonlinear_arith)
            requires
                u2 > 0,
        ;
        assert(a + b > 0 ==> (a + b) * u2 > 0) by (nonlinear_arith)
            requires
                u2 > 0,
        ;
    }
    if same {
        if a + b == 0 {
            return Double::with_sign(x.is_negative(), 0);
        }
        let magnitude: u64 = round_exact(a + b, e2);
        Double::with_sign(x.is_negative(), magnitude)
    } else if a == b {
        Double::with_sign(false, 0)
    } else if a > b {
        let magnitude: u64 = round_exact(a - b, e2);
        Double::with_sign(x.is_negative(), magnitude)
    } else {
        let magnitude: u64 = round_exact(b - a, e2);
        Double::with_sign(y.is_negative(), magnitude)
    }
}

/// The magnitude nearest to the product of two finite sizes.
fn round_product(m1: u64, e1: i32, m2: u64, e2: i32) -> (r: u64)
    requires
        m1 < MANTISSAS,
        m2 < MANTISSAS,
        0 <= e1 <= 2046,
        0 <= e2 <= 2046,
    ensures
        r == nearest_magnitude((m1 * pow2(e1 as nat)) as nat * (m2 * pow2(e2 as nat)) as nat, one_units()),
{
    proof {
        assert(m1 * m2 < 0x400_0000_0000_0000_0000_0000_0000) by (nonlinear_arith)
            requires
                m1 < 0x20_0000_0000_0000,
                m2 < 0x20_0000_0000_0000,
        ;
    }
    let m: u128 = (m1 as u128) * (m2 as u128);
    let e: i32 = e1 + e2 - 1074;
    let ghost n = (m1 * pow2(e1 as nat)) as nat * (m2 * pow2(e2 as nat)) as nat;
    let ghost d = one_units();
    proof {
        lemma_pow2_pos(1074);
        let s = pow2((e1 + e2) as nat);
        lemma_pow2_adds(e1 as nat, e2 as nat);
        assert(n == m * s) by (nonlinear_arith)
            requires
                n == (m1 * pow2(e1 as nat)) * (m2 * pow2(e2 as nat)),
                s == pow2(e1 as nat) * pow2(e2 as nat),
                m == m1 * m2,
        ;
        if e >= 0 {
            lemma_pow2_adds(e as nat, 1074);
            assert(e as nat + 1074 == (e1 + e2) as nat);
            let g = pow2(e as nat) * d;
            lemma_pow2_pos((e1 + e2) as nat);
            assert((m + 1) * g > m * g) by (nonlinear_arith)
                requires
                    g > 0,
            ;
            assert(n * 1 == n);
        } else {
            lemma_pow2_adds((-e) as nat, (e1 + e2) as nat);
            assert((-e) as nat + (e1 + e2) as nat == 1074);
            assert(n * pow2((-e) as nat) == m * d) by (nonlinear_arith)
                requires
                    n == m * s,
                    d == pow2((-e) as nat) * s,
            ;
            assert((m + 1) * d > m * d) by (nonlinear_arith)
                requires
                    d > 0,
            ;
            assert(1 * d == d);
        }
        assert(pinned(n, d, m as nat, e as int, false));
    }
    round_magnitude(m, e, false, Ghost(n), Ghost(d))
}

/// The magnitude nearest to the quotient of two finite sizes.
fn round_quotient(m1: u64, e1: i32, m2: u64, e2: i32) -> (r: u64)
    requires
        0 < m1 < MANTISSAS,
        0 < m2 < MANTISSAS,
        0 <= e1 <= 2046,
        0 <= e2 <= 2046,
    ensures
        r == nearest_magnitude((m1 * pow2(e1 as nat)) as nat * one_units(), (m2 * pow2(e2 as nat)) as nat),
{
    let mut top: u64 = m1;
    let mut up: i32 = 0;
    proof {
        lemma_pow2_127();
        lemma_pow2_zero();
        assert(m1 * pow2(0) == m1) by (nonlinear_arith)
            requires
                pow2(0) == 1,
        ;
    }
    while top < BINADE
        invariant
            0 < m1 < MANTISSAS,
            0 < top < MANTISSAS,
            0 <= up <= 52,
            top == m1 * pow2(up as nat),
            pow2(52) == BINADE,
        decreases 52 - up,
    {
        proof {
            lemma_pow2_unfold((up + 1) as nat);
            assert(top >= pow2(up as nat)) by (nonlinear_arith)
                requires
                    top == m1 * pow2(up as nat),
                    m1 >= 1,
            ;
            assert(2 * top == m1 * (2 * pow2(up as nat))) by (nonlinear_arith)
                requires
                    top == m1 * pow2(up as nat),
            ;
        }
        top = top * 2;
        up = up + 1;
    }
    let a: u128 = (top as u128) * 0x4_0000_0000_0000_0000;
    let m: u128 = a / m2 as u128;
    let sticky: bool = a % m2 as u128 != 0;
    let e: i32 = e1 - up + 1008 - e2;
    let ghost n = (m1 * pow2(e1 as nat)) as nat * one_units();
    let ghost d = (m2 * pow2(e2 as nat)) as nat;
    proof {
        vstd::arithmetic::power2::lemma2_to64();
        lemma_pow2_adds(64, 2);
        let c = (e1 - up + 1008) as nat;
        let s = pow2(c);
        lemma_pow2_pos(c);
        lemma_pow2_pos(e2 as nat);
        assert(d > 0) by (nonlinear_arith)
            requires
                d == m2 * pow2(e2 as nat),
                m2 > 0,
                pow2(e2 as nat) > 0,
        ;
        lemma_pow2_adds(e1 as nat, 1074);
        lemma_pow2_adds((up + 66) as nat, c);
        lemma_pow2_adds(up as nat, 66);
        assert((up + 66) as nat + c == e1 as nat + 1074);
        assert(n == a * s) by (nonlinear_arith)
            requires
                n == (m1 * pow2(e1 as nat)) * pow2(1074),
                pow2((e1 as nat + 1074) as nat) == pow2(e1 as nat) * pow2(1074),
                pow2((e1 as nat + 1074) as nat) == pow2((up + 66) as nat) * s,
                pow2((up + 66) as nat) == pow2(up as nat) * 0x4_0000_0000_0000_0000,
                a == top * 0x4_0000_0000_0000_0000,
                top == m1 * pow2(up as nat),
        ;
        lemma_fundamental_div_mod(a as int, m2 as int);
        let rem = a as int % m2 as int;
        assert(m * m2 + rem == a) by (nonlinear_arith)
            requires
                a == m2 * m + rem,
        ;
        assert(m >= 0x40_0000_0000_0000) by (nonlinear_arith)
            requires
                m * m2 + rem == a,
                rem < m2,
                m2 < 0x20_0000_0000_0000,
                a >= 0x10_0000_0000_0000 * 0x4_0000_0000_0000_0000,
        ;
        assert(m <= a) by (nonlinear_arith)
            requires
                m * m2 + rem == a,
                rem >= 0,
                m2 >= 1,
        ;
        if e >= 0 {
            lemma_pow2_adds(e as nat, e2 as nat);
            assert(e as nat + e2 as nat == c);
            let g = pow2(e as nat) * d;
            assert(g == m2 * s) by (nonlinear_arith)
                requires
                    g == pow2(e as nat) * (m2 * pow2(e2 as nat)),
                    s == pow2(e as nat) * pow2(e2 as nat),
            ;
            lemma_quotient_grid(a as nat, m as nat, m2 as nat, rem as nat, s);
            assert(n * 1 == n);
        } else {
            lemma_pow2_adds((-e) as nat, c);
            assert((-e) as nat + c == e2 as nat);
            assert(n * pow2((-e) as nat) == a * pow2(e2 as nat)) by (nonlinear_arith)
                requires
                    n == a * s,
                    pow2(e2 as nat) == pow2((-e) as nat) * s,
            ;
            lemma_quotient_grid(a as nat, m as nat, m2 as nat, rem as nat, pow2(e2 as nat));
            assert(1 * d == d);
        }
        assert(pinned(n, d, m as nat, e as int, sticky));
    }
    round_magnitude(m, e, sticky, Ghost(n), Ghost(d))
}

proof fn lemma_quotient_grid(a: nat, m: nat, m2: nat, rem: nat, s: nat)
    requires
        m * m2 + rem == a,
        rem < m2,
        s > 0,
    ensures
        m * (m2 * s) <= a * s < (m + 1) * (m2 * s),
        rem == 0 <==> a * s == m * (m2 * s),
{
    assert(a * s == m * (m2 * s) + rem * s) by (nonlinear_arith)
        requires
            m * m2 + rem == a,
    ;
    assert((m + 1) * (m2 * s) == m * (m2 * s) + m2 * s) by (nonlinear_arith);
    assert(0 <= rem * s < m2 * s) by (nonlinear_arith)
        requires
            rem < m2,
            s > 0,
    ;
    assert(rem * s == 0 <==> rem == 0) by (nonlinear_arith)
        requires
            s > 0,
    ;
}

impl Double {
    pub fn plus(self, other: Double) -> (r: Double)
        ensures
            r == sum_of(self, other),
    {
        if self.is_nan() || other.is_nan() {
            return Double { bits: 0x7FF8_0000_0000_0000 };
        }
        if !self.is_finite() {
            if !other.is_finite() && self.is_negative() != other.is_negative() {
                return Double { bits: 0x7FF8_0000_0000_0000 };
            }
            return self;
        }
        if !other.is_finite() {
            return other;
        }
        let (_m1, e1) = decode(self.unsigned());
        let (_m2, e2) = decode(other.unsigned());
        if e1 >= e2 {
            sum_finite(self, other)
        } else {
            sum_finite(other, self)
        }
    }

    pub fn minus(self, other: Double) -> (r: Double)
        ensures
            r == difference_of(self, other),
    {
        self.plus(other.negated())
    }

    pub fn times(self, other: Double) -> (r: Double)
        ensures
            r == product_of(self, other),
    {
        let negative: bool = self.is_negative() != other.is_negative();
        if self.is_nan() || other.is_nan() {
            return Double { bits: 0x7FF8_0000_0000_0000 };
        }
        let (m1, e1) = decode(self.unsigned());
        let (m2, e2) = decode(other.unsigned());
        if !self.is_finite() || !other.is_finite() {
            if m1 == 0 || m2 == 0 {
                return Double { bits: 0x7FF8_0000_0000_0000 };
            }
            return Double::with_sign(negative, INFINITE);
        }
        Double::with_sign(negative, round_product(m1, e1, m2, e2))
    }

    pub fn over(self, other: Double) -> (r: Double)
        ensures
            r == quotient_of(self, other),
    {
        let negative: bool = self.is_negative() != other.is_negative();
        if self.is_nan() || other.is_nan() {
            return Double { bits: 0x7FF8_0000_0000_0000 };
        }
        let (m1, e1) = decode(self.unsigned());
        let (m2, e2) = decode(other.unsigned());
        if !self.is_finite() {
            if !other.is_finite() {
                return Double { bits: 0x7FF8_0000_0000_0000 };
            }
            return Double::with_sign(negative, INFINITE);
        }
        if m2 == 0 {
            if m1 == 0 {
                return Double { bits: 0x7FF8_0000_0000_0000 };
            }
            return Double::with_sign(negative, INFINITE);
        }
        if !other.is_finite() {
            return Double::with_sign(negative, 0);
        }
        if m1 == 0 {
            proof {
                lemma_zero_quotient(other.size());
            }
            return Double::with_sign(negative, 0);
        }
        Double::with_sign(negative, round_quotient(m1, e1, m2, e2))
    }
}

proof fn lemma_zero_quotient(d: nat)
    requires
        d > 0,
    ensures
        nearest_magnitude(0 * one_units(), d) == 0,
{
    assert(0nat < MANTISSAS * d) by (nonlinear_arith)
        requires
            d > 0,
    ;
    assert(0nat / d == 0 && 0nat % d == 0) by (nonlinear_arith)
        requires
            d > 0,
    ;
    assert(nearest(0, d) == 0);
}

} // verus!
