//! How near rounded arithmetic stays to exact fractions.
use vstd::arithmetic::div_mod::lemma_fundamental_div_mod;
use vstd::arithmetic::power2::{lemma_pow2_adds, lemma_pow2_pos, lemma_pow2_strictly_increases, pow2};
use vstd::prelude::*;

use crate::bounds::{
    lemma_nearest_at_least, lemma_nearest_at_most, lemma_one, lemma_small_units,
    lemma_units_double,
};
use crate::decimal::ten_power;
use crate::double::{
    difference_of, exponent_of, mantissa_of, of_nat, one_units, product_of, quotient_of, sum_of, units_of, Double,
};
use crate::monotone::{lemma_difference, lemma_nothing, lemma_plain_order, plain};
use crate::order::{power_steps, ten_to, ONE, TEN};
use crate::rounding::{
    half_even, lemma_pow2_127, nearest, nearest_magnitude, BINADE, INFINITE, MANTISSAS,
};

verus! {

/// `2^50`, the grain in which errors are counted.
pub const GRAIN: u64 = 0x4_0000_0000_0000;

/// Whether a number is the fraction `n / d`, up to a relative error of less than one in a
/// million million.
pub open spec fn close(x: Double, n: nat, d: nat) -> bool {
    &&& !x.nan()
    &&& !x.negative()
    &&& x.finite()
    &&& d > 0
    &&& 0x100_0000_0000 * (x.size() * d - n * one_units()) <= n * one_units()
    &&& 0x100_0000_0000 * (n * one_units() - x.size() * d) <= n * one_units()
}

/// Whether a number is the fraction `n / d`, up to `k` grains, and the fraction lies
/// between `2^-e` and `2^e` or is zero.
pub open spec fn near(x: Double, n: nat, d: nat, k: nat, e: nat) -> bool {
    &&& plain(x)
    &&& x.finite()
    &&& d > 0
    &&& (x.size() * d) * GRAIN <= (n * one_units()) * (GRAIN + k)
    &&& (n * one_units()) * GRAIN <= (x.size() * d) * GRAIN + (n * one_units()) * k
    &&& n == 0 || (d <= n * pow2(e) && n <= d * pow2(e))
}

pub proof fn lemma_close(x: Double, n: nat, d: nat, k: nat, e: nat)
    requires
        near(x, n, d, k, e),
        k <= 0x400,
    ensures
        close(x, n, d),
{
    let a = x.size() * d;
    let b = n * one_units();
    assert(0x100_0000_0000 * (a - b) <= b && 0x100_0000_0000 * (b - a) <= b) by (nonlinear_arith)
        requires
            a * 0x4_0000_0000_0000 <= b * (0x4_0000_0000_0000 + k),
            b * 0x4_0000_0000_0000 <= a * 0x4_0000_0000_0000 + b * k,
            k <= 0x400,
            b >= 0,
    ;
}

pub proof fn lemma_near_weaken(x: Double, n: nat, d: nat, k: nat, e: nat, k2: nat, e2: nat)
    requires
        near(x, n, d, k, e),
        k <= k2,
        e <= e2,
    ensures
        near(x, n, d, k2, e2),
{
    let b = n * one_units();
    assert(b * (GRAIN + k) <= b * (GRAIN + k2) && b * k <= b * k2) by (nonlinear_arith)
        requires
            k <= k2,
            b >= 0,
    ;
    if e < e2 {
        lemma_pow2_strictly_increases(e, e2);
    }
    assert(n * pow2(e) <= n * pow2(e2) && d * pow2(e) <= d * pow2(e2)) by (nonlinear_arith)
        requires
            pow2(e) <= pow2(e2),
    ;
}

/// One rounding of a ratio in the normal range.
proof fn lemma_rounding(n: nat, d: nat)
    requires
        d > 0,
        BINADE * d <= n,
    ensures
        0x20_0000_0000_0000 * (units_of(nearest(n, d)) * d - n) <= n,
        0x20_0000_0000_0000 * (n - units_of(nearest(n, d)) * d) <= n,
        nearest(n, d) >= BINADE,
    decreases n - d,
{
    lemma_small_units(BINADE as nat);
    lemma_nearest_at_least(n, d, BINADE as nat);
    if n < MANTISSAS * d {
        let q = n / d;
        let r = n % d;
        lemma_fundamental_div_mod(n as int, d as int);
        let g = half_even(n, d);
        assert(q < MANTISSAS) by (nonlinear_arith)
            requires
                n < MANTISSAS * d,
                n == d * q + r,
                r >= 0,
                d > 0,
        ;
        if g < MANTISSAS {
            lemma_small_units(g);
        } else {
            lemma_units_double(g);
            assert(g - BINADE == BINADE);
        }
        assert(units_of(g) == g);
        assert(2 * (g * d - n) <= d && 2 * (n - g * d) <= d) by (nonlinear_arith)
            requires
                n == d * q + r,
                0 <= r < d,
                (g == q && 2 * r <= d) || (g == q + 1 && 2 * r >= d),
        ;
        assert(0x10_0000_0000_0000 * d <= n);
    } else {
        let h = nearest(n, 2 * d);
        assert(BINADE * (2 * d) <= n) by (nonlinear_arith)
            requires
                MANTISSAS * d <= n,
                MANTISSAS == 2 * BINADE,
        ;
        lemma_rounding(n, 2 * d);
        lemma_units_double(nearest(n, d));
        let u = units_of(h);
        assert(u * (2 * d) == (2 * u) * d) by (nonlinear_arith);
    }
}

proof fn lemma_finite(n: nat, d: nat)
    requires
        d > 0,
        n <= d * pow2(2097),
    ensures
        nearest(n, d) < INFINITE,
{
    let g: nat = 0x7FE0_0000_0000_0000;
    lemma_pow2_127();
    assert(exponent_of(g) == 2045);
    assert(mantissa_of(g) == BINADE);
    lemma_pow2_adds(52, 2045);
    assert(d * pow2(2097) == units_of(g) * d) by (nonlinear_arith)
        requires
            units_of(g) == pow2(2097),
    ;
    lemma_nearest_at_most(n, d, g);
}

/// One rounding adds at most one grain.
proof fn lemma_round_up(r: int, w: int, y: int, k: int)
    requires
        0x20_0000_0000_0000 * (r - w) <= w,
        w * GRAIN <= y * (GRAIN + k),
        0 <= k <= GRAIN,
        0 <= w,
        0 <= y,
    ensures
        r * GRAIN <= y * (GRAIN + k + 1),
{
    let b = GRAIN as int;
    assert(r * 0x20_0000_0000_0000 <= w * 0x20_0000_0000_0001);
    assert((r * b) * 0x20_0000_0000_0000 <= (w * b) * 0x20_0000_0000_0001) by (nonlinear_arith)
        requires
            r * 0x20_0000_0000_0000 <= w * 0x20_0000_0000_0001,
            b > 0,
    ;
    assert((w * b) * 0x20_0000_0000_0001 <= (y * (b + k)) * 0x20_0000_0000_0001);
    let z = y * (b + k);
    assert(y * (b + k + 1) == z + y) by (nonlinear_arith)
        requires
            z == y * (b + k),
    ;
    assert(z <= y * 0x20_0000_0000_0000) by (nonlinear_arith)
        requires
            z == y * (b + k),
            b + k <= 0x20_0000_0000_0000,
            y >= 0,
    ;
}

proof fn lemma_round_down(r: int, w: int, y: int, k: int)
    requires
        0x20_0000_0000_0000 * (w - r) <= w,
        y * GRAIN <= w * GRAIN + y * k,
        0 <= k <= GRAIN,
        0 <= w,
        0 <= y,
    ensures
        y * GRAIN <= r * GRAIN + y * (k + 1),
{
    let b = GRAIN as int;
    assert(y * (k + 1) == y * k + y) by (nonlinear_arith);
    assert(y * k >= 0) by (nonlinear_arith)
        requires
            y >= 0,
            k >= 0,
    ;
    if w <= y * 8 {
        assert(w * b - r * b <= y) by (nonlinear_arith)
            requires
                0x20_0000_0000_0000 * (w - r) <= w,
                w <= y * 8,
                b == 0x4_0000_0000_0000,
        ;
    } else {
        assert(r * b >= y * b) by (nonlinear_arith)
            requires
                0x20_0000_0000_0000 * (w - r) <= w,
                w > y * 8,
                y >= 0,
                b == 0x4_0000_0000_0000,
        ;
    }
}

proof fn lemma_mul_up(x1: int, y1: int, x2: int, y2: int, k1: int, k2: int)
    requires
        x1 * GRAIN <= y1 * (GRAIN + k1),
        x2 * GRAIN <= y2 * (GRAIN + k2),
        0 <= x1,
        0 <= x2,
        0 <= y1,
        0 <= y2,
        0 <= k1 <= 0x10_0000,
        0 <= k2 <= 0x10_0000,
    ensures
        (x1 * x2) * GRAIN <= (y1 * y2) * (GRAIN + k1 + k2 + 1),
{
    let b = GRAIN as int;
    let p = x1 * x2;
    let q = y1 * y2;
    assert((x1 * b) * (x2 * b) <= (y1 * (b + k1)) * (y2 * (b + k2))) by (nonlinear_arith)
        requires
            0 <= x1 * b <= y1 * (b + k1),
            0 <= x2 * b <= y2 * (b + k2),
    ;
    assert((x1 * b) * (x2 * b) == (p * b) * b) by (nonlinear_arith)
        requires
            p == x1 * x2,
    ;
    let t = (b + k1) * (b + k2);
    assert((y1 * (b + k1)) * (y2 * (b + k2)) == q * t) by (nonlinear_arith)
        requires
            q == y1 * y2,
            t == (b + k1) * (b + k2),
    ;
    assert(k1 * k2 <= b) by (nonlinear_arith)
        requires
            0 <= k1 <= 0x10_0000,
            0 <= k2 <= 0x10_0000,
            b == 0x4_0000_0000_0000,
    ;
    assert(t <= b * (b + k1 + k2 + 1)) by (nonlinear_arith)
        requires
            t == (b + k1) * (b + k2),
            k1 * k2 <= b,
    ;
    assert(q >= 0) by (nonlinear_arith)
        requires
            q == y1 * y2,
            y1 >= 0,
            y2 >= 0,
    ;
    let m = b + k1 + k2 + 1;
    assert(q * t <= (q * m) * b) by (nonlinear_arith)
        requires
            t <= b * m,
            q >= 0,
    ;
    assert(p * b <= q * m) by (nonlinear_arith)
        requires
            (p * b) * b <= (q * m) * b,
            b > 0,
    ;
}

proof fn lemma_mul_down(x1: int, y1: int, x2: int, y2: int, k1: int, k2: int)
    requires
        y1 * GRAIN <= x1 * GRAIN + y1 * k1,
        y2 * GRAIN <= x2 * GRAIN + y2 * k2,
        0 <= x1,
        0 <= x2,
        0 <= y1,
        0 <= y2,
        0 <= k1 <= 0x10_0000,
        0 <= k2 <= 0x10_0000,
    ensures
        (y1 * y2) * GRAIN <= (x1 * x2) * GRAIN + (y1 * y2) * (k1 + k2),
{
    let b = GRAIN as int;
    let p = x1 * x2;
    let q = y1 * y2;
    let a1 = y1 * (b - k1);
    let a2 = y2 * (b - k2);
    assert(a1 <= x1 * b && 0 <= a1) by (nonlinear_arith)
        requires
            a1 == y1 * (b - k1),
            y1 * b <= x1 * b + y1 * k1,
            y1 >= 0,
            b >= k1,
    ;
    assert(a2 <= x2 * b && 0 <= a2) by (nonlinear_arith)
        requires
            a2 == y2 * (b - k2),
            y2 * b <= x2 * b + y2 * k2,
            y2 >= 0,
            b >= k2,
    ;
    assert(a1 * a2 <= (x1 * b) * (x2 * b)) by (nonlinear_arith)
        requires
            0 <= a1 <= x1 * b,
            0 <= a2 <= x2 * b,
    ;
    assert((x1 * b) * (x2 * b) == (p * b) * b) by (nonlinear_arith)
        requires
            p == x1 * x2,
    ;
    let t = (b - k1) * (b - k2);
    assert(a1 * a2 == q * t) by (nonlinear_arith)
        requires
            a1 == y1 * (b - k1),
            a2 == y2 * (b - k2),
            q == y1 * y2,
            t == (b - k1) * (b - k2),
    ;
    assert(t >= b * (b - k1 - k2)) by (nonlinear_arith)
        requires
            t == (b - k1) * (b - k2),
            k1 >= 0,
            k2 >= 0,
    ;
    assert(q >= 0) by (nonlinear_arith)
        requires
            q == y1 * y2,
            y1 >= 0,
            y2 >= 0,
    ;
    let m = b - k1 - k2;
    assert((q * m) * b <= q * t) by (nonlinear_arith)
        requires
            t >= b * m,
            q >= 0,
    ;
    assert(q * m <= p * b) by (nonlinear_arith)
        requires
            (q * m) * b <= (p * b) * b,
            b > 0,
    ;
    assert(q * m == q * b - q * (k1 + k2)) by (nonlinear_arith)
        requires
            m == b - k1 - k2,
    ;
}

proof fn lemma_within_product(n1: nat, d1: nat, e1: nat, n2: nat, d2: nat, e2: nat)
    requires
        d1 <= n1 * pow2(e1),
        n1 <= d1 * pow2(e1),
        d2 <= n2 * pow2(e2),
        n2 <= d2 * pow2(e2),
    ensures
        d1 * d2 <= (n1 * n2) * pow2(e1 + e2),
        n1 * n2 <= (d1 * d2) * pow2(e1 + e2),
        d1 * n2 <= (n1 * d2) * pow2(e1 + e2),
        n1 * d2 <= (d1 * n2) * pow2(e1 + e2),
{
    let p = pow2(e1);
    let q = pow2(e2);
    lemma_pow2_adds(e1, e2);
    lemma_step(d1, n1, d2, n2, p, q);
    lemma_step(n1, d1, n2, d2, p, q);
    lemma_step(d1, n1, n2, d2, p, q);
    lemma_step(n1, d1, d2, n2, p, q);
}

proof fn lemma_step(a: nat, b: nat, c: nat, d: nat, p: nat, q: nat)
    requires
        a <= b * p,
        c <= d * q,
    ensures
        a * c <= (b * d) * (p * q),
{
    assert(a * c <= (b * p) * (d * q)) by (nonlinear_arith)
        requires
            a <= b * p,
            c <= d * q,
    ;
    assert((b * p) * (d * q) == (b * d) * (p * q)) by (nonlinear_arith);
}

proof fn lemma_zero_near(x: Double, d: nat, k: nat, e: nat)
    requires
        near(x, 0, d, k, e),
    ensures
        x.size() == 0,
{
    let s = x.size();
    assert((0nat * one_units()) == 0);
    assert(s == 0) by (nonlinear_arith)
        requires
            (s * d) * 0x4_0000_0000_0000 <= 0,
            d > 0,
    ;
}

/// Zero is near every fraction that is zero.
pub proof fn lemma_near_zero(x: Double, n: nat, d: nat, k: nat, e: nat)
    requires
        plain(x),
        x.finite(),
        x.size() == 0,
        n == 0,
        d > 0,
    ensures
        near(x, n, d, k, e),
{
    let s = x.size();
    assert(s * d == 0) by (nonlinear_arith)
        requires
            s == 0,
    ;
    assert((n * one_units()) == 0) by (nonlinear_arith)
        requires
            n == 0,
    ;
}

/// A ratio that was rounded once, in the range, of a fraction that is near.
proof fn lemma_rounded_near(a: nat, b: nat, n: nat, d: nat, k: nat, e: nat)
    requires
        b > 0,
        n > 0,
        d > 0,
        d <= n * pow2(e),
        n <= d * pow2(e),
        e <= 1000,
        k <= 0x20_0001,
        (a * d) * GRAIN <= (n * (one_units() * b)) * (GRAIN + k),
        (n * (one_units() * b)) * GRAIN <= (a * d) * GRAIN + (n * (one_units() * b)) * k,
    ensures
        near(
            Double { bits: nearest_magnitude(a, b) as u64 },
            n,
            d,
            k + 1,
            e,
        ),
        nearest_magnitude(a, b) < INFINITE,
{
    let u = one_units();
    let g = nearest(a, b);
    let y = n * (u * b);
    let w = a * d;
    lemma_pow2_pos(1074);
    assert(y <= 2 * w && w <= 2 * y) by (nonlinear_arith)
        requires
            w * 0x4_0000_0000_0000 <= y * (0x4_0000_0000_0000 + k),
            y * 0x4_0000_0000_0000 <= w * 0x4_0000_0000_0000 + y * k,
            k <= 0x20_0001,
            w >= 0,
            y >= 0,
    ;
    assert(y == (n * u) * b) by (nonlinear_arith)
        requires
            y == n * (u * b),
    ;
    lemma_ratio_range(a, b, n, d, e);
    lemma_rounding(a, b);
    lemma_finite(a, b);
    let r = units_of(g);
    let x = Double { bits: g as u64 };
    assert(x.magnitude() == g && !x.negative() && x.size() == r);
    assert(0x20_0000_0000_0000 * ((r * b) * d - w) <= w && 0x20_0000_0000_0000 * (w - (r * b) * d)
        <= w) by (nonlinear_arith)
        requires
            0x20_0000_0000_0000 * (r * b - a) <= a,
            0x20_0000_0000_0000 * (a - r * b) <= a,
            w == a * d,
            d > 0,
    ;
    lemma_round_up(((r * b) * d) as int, w as int, y as int, k as int);
    lemma_round_down(((r * b) * d) as int, w as int, y as int, k as int);
    let s = (r * d) as int;
    let z = (n * u) as int;
    assert((r * b) * d == s * b) by (nonlinear_arith)
        requires
            s == r * d,
    ;
    assert(s * GRAIN <= z * (GRAIN + k + 1)) by (nonlinear_arith)
        requires
            (s * b) * GRAIN <= (z * b) * (GRAIN + k + 1),
            b > 0,
    ;
    assert(z * GRAIN <= s * GRAIN + z * (k + 1)) by (nonlinear_arith)
        requires
            (z * b) * GRAIN <= (s * b) * GRAIN + (z * b) * (k + 1),
            b > 0,
    ;
}

proof fn lemma_ratio_range(a: nat, b: nat, n: nat, d: nat, e: nat)
    requires
        b > 0,
        n > 0,
        d > 0,
        d <= n * pow2(e),
        n <= d * pow2(e),
        e <= 1000,
        (n * one_units()) * b <= 2 * (a * d),
        a * d <= 2 * ((n * one_units()) * b),
    ensures
        BINADE * b <= a,
        a <= b * pow2(2097),
{
    let u = one_units();
    let p = pow2(e);
    lemma_pow2_pos(e);
    lemma_pow2_127();
    assert(n * (u * b) <= n * (2 * (a * p))) by (nonlinear_arith)
        requires
            (n * u) * b <= 2 * (a * d),
            d <= n * p,
            a >= 0,
    ;
    assert(u * b <= 2 * (a * p)) by (nonlinear_arith)
        requires
            n * (u * b) <= n * (2 * (a * p)),
            n > 0,
    ;
    lemma_pow2_adds((1074 - e) as nat, e);
    let v = pow2((1074 - e) as nat);
    assert(v * b <= 2 * a) by (nonlinear_arith)
        requires
            (v * p) * b <= 2 * (a * p),
            p > 0,
    ;
    lemma_pow2_strictly_increases(53, (1074 - e) as nat);
    assert(BINADE * b <= a) by (nonlinear_arith)
        requires
            v * b <= 2 * a,
            v >= MANTISSAS,
            MANTISSAS == 2 * BINADE,
            b > 0,
    ;
    assert(a * d <= (2 * (p * u) * b) * d) by (nonlinear_arith)
        requires
            a * d <= 2 * ((n * u) * b),
            n <= d * p,
            u >= 0,
            b >= 0,
    ;
    assert(a <= 2 * (p * u) * b) by (nonlinear_arith)
        requires
            a * d <= (2 * (p * u) * b) * d,
            d > 0,
    ;
    lemma_pow2_adds(e, 1074);
    vstd::arithmetic::power2::lemma_pow2_unfold(e + 1075);
    if e + 1075 < 2097 {
        lemma_pow2_strictly_increases(e + 1075, 2097);
    }
    let t = 2 * (p * u);
    assert(t * b <= b * pow2(2097)) by (nonlinear_arith)
        requires
            t <= pow2(2097),
    ;
}

/// The product of two numbers is near the product of what they are near to.
pub proof fn lemma_near_product(
    x: Double,
    n1: nat,
    d1: nat,
    k1: nat,
    e1: nat,
    y: Double,
    n2: nat,
    d2: nat,
    k2: nat,
    e2: nat,
)
    requires
        near(x, n1, d1, k1, e1),
        near(y, n2, d2, k2, e2),
        k1 <= 0x10_0000,
        k2 <= 0x10_0000,
        e1 + e2 <= 1000,
    ensures
        near(product_of(x, y), n1 * n2, d1 * d2, k1 + k2 + 2, e1 + e2),
{
    let u = one_units();
    lemma_pow2_pos(1074);
    let w = x.size() * y.size();
    let n = n1 * n2;
    let d = d1 * d2;
    assert(d > 0) by (nonlinear_arith)
        requires
            d == d1 * d2,
            d1 > 0,
            d2 > 0,
    ;
    if n1 == 0 || n2 == 0 {
        if n1 == 0 {
            lemma_zero_near(x, d1, k1, e1);
        } else {
            lemma_zero_near(y, d2, k2, e2);
        }
        assert(w == 0) by (nonlinear_arith)
            requires
                w == x.size() * y.size(),
                x.size() == 0 || y.size() == 0,
        ;
        assert(n == 0) by (nonlinear_arith)
            requires
                n == n1 * n2,
                n1 == 0 || n2 == 0,
        ;
        lemma_nothing(u);
        lemma_small_units(0);
        lemma_near_zero(product_of(x, y), n, d, k1 + k2 + 2, e1 + e2);
    } else {
        let x1 = x.size() * d1;
        let y1 = n1 * u;
        let x2 = y.size() * d2;
        let y2 = n2 * u;
        assert(y1 >= 0 && y2 >= 0 && n > 0) by (nonlinear_arith)
            requires
                y1 == n1 * u,
                y2 == n2 * u,
                n == n1 * n2,
                n1 > 0,
                n2 > 0,
                u > 0,
        ;
        lemma_mul_up(x1 as int, y1 as int, x2 as int, y2 as int, k1 as int, k2 as int);
        lemma_mul_down(x1 as int, y1 as int, x2 as int, y2 as int, k1 as int, k2 as int);
        assert(x1 * x2 == w * d) by (nonlinear_arith)
            requires
                x1 == x.size() * d1,
                x2 == y.size() * d2,
                w == x.size() * y.size(),
                d == d1 * d2,
        ;
        let z = n * (u * u);
        assert(y1 * y2 == z) by (nonlinear_arith)
            requires
                y1 == n1 * u,
                y2 == n2 * u,
                n == n1 * n2,
                z == n * (u * u),
        ;
        lemma_within_product(n1, d1, e1, n2, d2, e2);
        assert(z * (k1 + k2) <= z * (k1 + k2 + 1)) by (nonlinear_arith)
            requires
                z >= 0,
        ;
        lemma_rounded_near(w, u, n, d, (k1 + k2 + 1) as nat, e1 + e2);
    }
}

/// The quotient of two numbers is near the quotient of what they are near to.
pub proof fn lemma_near_quotient(
    x: Double,
    n1: nat,
    d1: nat,
    k1: nat,
    e1: nat,
    y: Double,
    n2: nat,
    d2: nat,
    k2: nat,
    e2: nat,
)
    requires
        near(x, n1, d1, k1, e1),
        near(y, n2, d2, k2, e2),
        n2 > 0,
        k1 <= 0x10_0000,
        k2 <= 0x10_0000,
        e1 + e2 <= 1000,
    ensures
        near(quotient_of(x, y), n1 * d2, d1 * n2, k1 + k2 + 2, e1 + e2),
{
    let u = one_units();
    lemma_pow2_pos(1074);
    let s1 = x.size();
    let s2 = y.size();
    let n = n1 * d2;
    let d = d1 * n2;
    assert(d > 0 && n2 * u > 0) by (nonlinear_arith)
        requires
            d == d1 * n2,
            d1 > 0,
            n2 > 0,
            u > 0,
    ;
    let y2 = n2 * u;
    assert(s2 * d2 > 0) by (nonlinear_arith)
        requires
            y2 * 0x4_0000_0000_0000 <= (s2 * d2) * 0x4_0000_0000_0000 + y2 * k2,
            k2 <= 0x10_0000,
            y2 > 0,
    ;
    assert(s2 > 0) by (nonlinear_arith)
        requires
            s2 * d2 > 0,
            s2 >= 0,
    ;
    if n1 == 0 {
        lemma_zero_near(x, d1, k1, e1);
        assert(n == 0) by (nonlinear_arith)
            requires
                n == n1 * d2,
                n1 == 0,
        ;
        assert(s1 * u == 0) by (nonlinear_arith)
            requires
                s1 == 0,
        ;
        lemma_nothing(s2);
        lemma_small_units(0);
        lemma_near_zero(quotient_of(x, y), n, d, k1 + k2 + 2, e1 + e2);
    } else {
        assert(n > 0) by (nonlinear_arith)
            requires
                n == n1 * d2,
                n1 > 0,
                d2 > 0,
        ;
        lemma_within_product(n1, d1, e1, n2, d2, e2);
        lemma_div_bounds(s1, n1, d1, k1, s2, n2, d2, k2, u);
        lemma_rounded_near(s1 * u, s2, n, d, k1 + k2 + 1, e1 + e2);
    }
}

proof fn lemma_div_bounds(
    s1: nat,
    n1: nat,
    d1: nat,
    k1: nat,
    s2: nat,
    n2: nat,
    d2: nat,
    k2: nat,
    u: nat,
)
    requires
        (s1 * d1) * GRAIN <= (n1 * u) * (GRAIN + k1),
        (n1 * u) * GRAIN <= (s1 * d1) * GRAIN + (n1 * u) * k1,
        (s2 * d2) * GRAIN <= (n2 * u) * (GRAIN + k2),
        (n2 * u) * GRAIN <= (s2 * d2) * GRAIN + (n2 * u) * k2,
        k1 <= 0x10_0000,
        k2 <= 0x10_0000,
        u > 0,
    ensures
        ((s1 * u) * (d1 * n2)) * GRAIN <= ((n1 * d2) * (u * s2)) * (GRAIN + (k1 + k2 + 1)),
        ((n1 * d2) * (u * s2)) * GRAIN <= ((s1 * u) * (d1 * n2)) * GRAIN + ((n1 * d2) * (u * s2))
            * (k1 + k2 + 1),
{
    let b = GRAIN as int;
    let a1 = (s1 * d1) as int;
    let c1 = (n1 * u) as int;
    let a2 = (s2 * d2) as int;
    let c2 = (n2 * u) as int;
    let l = ((s1 * u) * (d1 * n2)) as int;
    let m = ((n1 * d2) * (u * s2)) as int;
    assert(l == a1 * c2) by (nonlinear_arith)
        requires
            l == (s1 * u) * (d1 * n2),
            a1 == s1 * d1,
            c2 == n2 * u,
    ;
    assert(m == c1 * a2) by (nonlinear_arith)
        requires
            m == (n1 * d2) * (u * s2),
            c1 == n1 * u,
            a2 == s2 * d2,
    ;
    assert(l >= 0 && m >= 0);
    // a1 * b <= c1 * (b + k1) and c2 * (b - k2) <= a2 * b.
    let f = c2 * (b - k2);
    assert(0 <= f <= a2 * b) by (nonlinear_arith)
        requires
            f == c2 * (b - k2),
            c2 * b <= a2 * b + c2 * k2,
            c2 >= 0,
            b >= k2,
    ;
    let g = c1 * (b + k1);
    assert((a1 * b) * f <= g * (a2 * b)) by (nonlinear_arith)
        requires
            0 <= a1 * b <= g,
            0 <= f <= a2 * b,
    ;
    assert((a1 * b) * f == (l * (b - k2)) * b) by (nonlinear_arith)
        requires
            f == c2 * (b - k2),
            l == a1 * c2,
    ;
    assert(g * (a2 * b) == (m * (b + k1)) * b) by (nonlinear_arith)
        requires
            g == c1 * (b + k1),
            m == c1 * a2,
    ;
    assert(l * (b - k2) <= m * (b + k1)) by (nonlinear_arith)
        requires
            (l * (b - k2)) * b <= (m * (b + k1)) * b,
            b > 0,
    ;
    lemma_spread(l, m, k1 as int, k2 as int);
    // c1 * (b - k1) <= a1 * b and a2 * b <= c2 * (b + k2).
    let h = c1 * (b - k1);
    assert(0 <= h <= a1 * b) by (nonlinear_arith)
        requires
            h == c1 * (b - k1),
            c1 * b <= a1 * b + c1 * k1,
            c1 >= 0,
            b >= k1,
    ;
    let i = c2 * (b + k2);
    assert(h * (a2 * b) <= (a1 * b) * i) by (nonlinear_arith)
        requires
            0 <= h <= a1 * b,
            0 <= a2 * b <= i,
    ;
    assert(h * (a2 * b) == (m * (b - k1)) * b) by (nonlinear_arith)
        requires
            h == c1 * (b - k1),
            m == c1 * a2,
    ;
    assert((a1 * b) * i == (l * (b + k2)) * b) by (nonlinear_arith)
        requires
            i == c2 * (b + k2),
            l == a1 * c2,
    ;
    assert(m * (b - k1) <= l * (b + k2)) by (nonlinear_arith)
        requires
            (m * (b - k1)) * b <= (l * (b + k2)) * b,
            b > 0,
    ;
    lemma_spread_down(l, m, k1 as int, k2 as int);
}

proof fn lemma_spread(l: int, m: int, k1: int, k2: int)
    requires
        l * (GRAIN - k2) <= m * (GRAIN + k1),
        0 <= k1 <= 0x10_0000,
        0 <= k2 <= 0x10_0000,
        0 <= l,
        0 <= m,
    ensures
        l * GRAIN <= m * (GRAIN + (k1 + k2 + 1)),
{
    let b = GRAIN as int;
    let t = b - k2;
    let v = b + (k1 + k2 + 1);
    assert(k2 * (k1 + k2 + 1) <= b) by (nonlinear_arith)
        requires
            0 <= k1 <= 0x10_0000,
            0 <= k2 <= 0x10_0000,
            b == 0x4_0000_0000_0000,
    ;
    assert((b + k1) * b <= t * v) by (nonlinear_arith)
        requires
            t == b - k2,
            v == b + (k1 + k2 + 1),
            k2 * (k1 + k2 + 1) <= b,
    ;
    assert((l * b) * t <= (m * v) * t) by (nonlinear_arith)
        requires
            l * t <= m * (b + k1),
            (b + k1) * b <= t * v,
            m >= 0,
            b > 0,
    ;
    assert(l * b <= m * v) by (nonlinear_arith)
        requires
            (l * b) * t <= (m * v) * t,
            t > 0,
    ;
}

proof fn lemma_spread_down(l: int, m: int, k1: int, k2: int)
    requires
        m * (GRAIN - k1) <= l * (GRAIN + k2),
        0 <= k1 <= 0x10_0000,
        0 <= k2 <= 0x10_0000,
        0 <= l,
        0 <= m,
    ensures
        m * GRAIN <= l * GRAIN + m * (k1 + k2 + 1),
{
    let b = GRAIN as int;
    let t = b - (k1 + k2 + 1);
    assert(t * (b + k2) <= (b - k1) * b) by (nonlinear_arith)
        requires
            t == b - (k1 + k2 + 1),
            0 <= k1 <= 0x10_0000,
            0 <= k2 <= 0x10_0000,
            b == 0x4_0000_0000_0000,
    ;
    assert((m * t) * (b + k2) <= (l * b) * (b + k2)) by (nonlinear_arith)
        requires
            m * (b - k1) <= l * (b + k2),
            t * (b + k2) <= (b - k1) * b,
            m >= 0,
            b > 0,
    ;
    assert(m * t <= l * b) by (nonlinear_arith)
        requires
            (m * t) * (b + k2) <= (l * b) * (b + k2),
            b + k2 > 0,
    ;
    assert(m * t == m * b - m * (k1 + k2 + 1)) by (nonlinear_arith)
        requires
            t == b - (k1 + k2 + 1),
    ;
}

/// The sum of two numbers is near the sum of what they are near to.
pub proof fn lemma_near_sum(
    x: Double,
    n1: nat,
    d1: nat,
    y: Double,
    n2: nat,
    d2: nat,
    k: nat,
    e: nat,
)
    requires
        near(x, n1, d1, k, e),
        near(y, n2, d2, k, e),
        k <= 0x10_0000,
        e + 1 <= 1000,
    ensures
        near(sum_of(x, y), n1 * d2 + n2 * d1, d1 * d2, k + 1, e + 1),
{
    let u = one_units();
    lemma_pow2_pos(1074);
    let s1 = x.size();
    let s2 = y.size();
    let n = n1 * d2 + n2 * d1;
    let d = d1 * d2;
    assert(d > 0) by (nonlinear_arith)
        requires
            d == d1 * d2,
            d1 > 0,
            d2 > 0,
    ;
    assert(x.units() + y.units() == s1 + s2);
    if n1 == 0 && n2 == 0 {
        lemma_zero_near(x, d1, k, e);
        lemma_zero_near(y, d2, k, e);
        lemma_small_units(0);
        assert(n == 0) by (nonlinear_arith)
            requires
                n == n1 * d2 + n2 * d1,
                n1 == 0,
                n2 == 0,
        ;
        lemma_near_zero(sum_of(x, y), n, d, k + 1, e + 1);
    } else {
        let a1 = s1 * d1;
        let c1 = n1 * u;
        let a2 = s2 * d2;
        let c2 = n2 * u;
        let b = GRAIN as int;
        let w = (s1 + s2) * d;
        assert(w == a1 * d2 + a2 * d1) by (nonlinear_arith)
            requires
                w == (s1 + s2) * d,
                d == d1 * d2,
                a1 == s1 * d1,
                a2 == s2 * d2,
        ;
        let z = n * (u * 1);
        assert(z == c1 * d2 + c2 * d1) by (nonlinear_arith)
            requires
                z == n * (u * 1),
                n == n1 * d2 + n2 * d1,
                c1 == n1 * u,
                c2 == n2 * u,
        ;
        assert((a1 * d2) * b <= (c1 * d2) * (b + k)) by (nonlinear_arith)
            requires
                a1 * b <= c1 * (b + k),
                d2 > 0,
        ;
        assert((a2 * d1) * b <= (c2 * d1) * (b + k)) by (nonlinear_arith)
            requires
                a2 * b <= c2 * (b + k),
                d1 > 0,
        ;
        assert((c1 * d2) * b <= (a1 * d2) * b + (c1 * d2) * k) by (nonlinear_arith)
            requires
                c1 * b <= a1 * b + c1 * k,
                d2 > 0,
        ;
        assert((c2 * d1) * b <= (a2 * d1) * b + (c2 * d1) * k) by (nonlinear_arith)
            requires
                c2 * b <= a2 * b + c2 * k,
                d1 > 0,
        ;
        assert(w * b <= z * (b + k)) by (nonlinear_arith)
            requires
                w == a1 * d2 + a2 * d1,
                z == c1 * d2 + c2 * d1,
                (a1 * d2) * b <= (c1 * d2) * (b + k),
                (a2 * d1) * b <= (c2 * d1) * (b + k),
        ;
        assert(z * b <= w * b + z * k) by (nonlinear_arith)
            requires
                w == a1 * d2 + a2 * d1,
                z == c1 * d2 + c2 * d1,
                (c1 * d2) * b <= (a1 * d2) * b + (c1 * d2) * k,
                (c2 * d1) * b <= (a2 * d1) * b + (c2 * d1) * k,
        ;
        lemma_sum_range(n1, d1, n2, d2, e);
        lemma_rounded_near((s1 + s2) as nat, 1, n, d, k, e + 1);
        assert(s1 + s2 > 0) by (nonlinear_arith)
            requires
                z * b <= ((s1 + s2) * d) * b + z * k,
                z > 0,
                k < b,
                d > 0,
        {
            assert(z * (b - k) > 0) by (nonlinear_arith)
                requires
                    z > 0,
                    k < b,
            ;
        }
    }
}

proof fn lemma_sum_range(n1: nat, d1: nat, n2: nat, d2: nat, e: nat)
    requires
        n1 > 0 || n2 > 0,
        d1 > 0,
        d2 > 0,
        n1 == 0 || (d1 <= n1 * pow2(e) && n1 <= d1 * pow2(e)),
        n2 == 0 || (d2 <= n2 * pow2(e) && n2 <= d2 * pow2(e)),
    ensures
        n1 * d2 + n2 * d1 > 0,
        (n1 * d2 + n2 * d1) * (one_units() * 1) > 0,
        d1 * d2 <= (n1 * d2 + n2 * d1) * pow2(e + 1),
        n1 * d2 + n2 * d1 <= (d1 * d2) * pow2(e + 1),
{
    let p = pow2(e);
    let n = n1 * d2 + n2 * d1;
    lemma_pow2_pos(e);
    lemma_pow2_pos(1074);
    vstd::arithmetic::power2::lemma_pow2_unfold(e + 1);
    assert(n1 * d2 >= 0 && n2 * d1 >= 0);
    if n1 > 0 {
        assert(d1 * d2 <= (n1 * d2) * p && n1 * d2 > 0) by (nonlinear_arith)
            requires
                d1 <= n1 * p,
                n1 > 0,
                d2 > 0,
        ;
        assert((n1 * d2) * p <= n * p) by (nonlinear_arith)
            requires
                n1 * d2 <= n,
        ;
    } else {
        assert(d1 * d2 <= (n2 * d1) * p && n2 * d1 > 0) by (nonlinear_arith)
            requires
                d2 <= n2 * p,
                n2 > 0,
                d1 > 0,
        ;
        assert((n2 * d1) * p <= n * p) by (nonlinear_arith)
            requires
                n2 * d1 <= n,
        ;
    }
    assert(n * p <= n * (2 * p)) by (nonlinear_arith)
        requires
            n >= 0,
            p >= 0,
    ;
    assert(n1 <= d1 * p);
    assert(n2 <= d2 * p);
    assert(n1 * d2 <= (d1 * d2) * p) by (nonlinear_arith)
        requires
            n1 <= d1 * p,
    ;
    assert(n2 * d1 <= (d1 * d2) * p) by (nonlinear_arith)
        requires
            n2 <= d2 * p,
    ;
    assert((d1 * d2) * (2 * p) == (d1 * d2) * p + (d1 * d2) * p) by (nonlinear_arith);
    let u = one_units();
    assert(n * (u * 1) > 0) by (nonlinear_arith)
        requires
            n > 0,
            u > 0,
    ;
}

/// An integer as a number.
pub proof fn lemma_near_of_nat(v: nat, e: nat)
    requires
        v <= pow2(e),
        e <= 1000,
    ensures
        near(of_nat(v), v, 1, 1, e),
{
    let u = one_units();
    lemma_pow2_pos(1074);
    lemma_pow2_pos(e);
    if v == 0 {
        assert(v * u == 0) by (nonlinear_arith)
            requires
                v == 0,
        ;
        lemma_nothing(1);
        lemma_small_units(0);
        lemma_near_zero(of_nat(v), v, 1, 1, e);
    } else {
        let a = v * u;
        assert(1 <= v * pow2(e)) by (nonlinear_arith)
            requires
                v >= 1,
                pow2(e) >= 1,
        ;
        assert(a * 1 == v * (u * 1)) by (nonlinear_arith)
            requires
                a == v * u,
        ;
        assert((v * (u * 1)) * (GRAIN + 0) == (v * (u * 1)) * GRAIN);
        lemma_rounded_near(a, 1, v, 1, 0, e);
    }
}

/// A number that is an integer, exactly.
pub proof fn lemma_near_integer(x: Double, v: nat, e: nat)
    requires
        plain(x),
        x.finite(),
        x.size() == v * one_units(),
        0 < v <= pow2(e),
    ensures
        near(x, v, 1, 0, e),
{
    let a = x.size() * 1;
    lemma_pow2_pos(e);
    assert(1 <= v * pow2(e)) by (nonlinear_arith)
        requires
            v >= 1,
            pow2(e) >= 1,
    ;
    assert((v * one_units()) * 0 == 0);
    assert(a == x.size());
}

/// A number is its own value, exactly.
pub proof fn lemma_near_self(x: Double, e: nat)
    requires
        plain(x),
        x.finite(),
        ordinary(x, e),
    ensures
        near(x, x.size(), one_units(), 0, e),
{
    let a = x.size() * one_units();
    lemma_pow2_pos(1074);
    assert(a * 0 == 0);
    assert(a * (GRAIN + 0) == a * GRAIN);
}

/// Whether a number lies between `2^-e` and `2^e`, or is zero.
pub open spec fn ordinary(x: Double, e: nat) -> bool {
    x.size() == 0 || (one_units() <= x.size() * pow2(e) && x.size() <= one_units() * pow2(e))
}

/// The size of an integer with the given bit pattern.
pub proof fn lemma_integer(bits: u64, v: nat, shift: nat)
    requires
        exponent_of(bits as nat) + shift == 1074,
        mantissa_of(bits as nat) == v * pow2(shift),
    ensures
        units_of(bits as nat) == v * one_units(),
{
    let e = exponent_of(bits as nat);
    lemma_pow2_adds(shift, e);
    let a = pow2(shift);
    let b = pow2(e);
    assert((v * a) * b == v * (a * b)) by (nonlinear_arith);
}

pub proof fn lemma_ten_powers(a: nat, b: nat)
    ensures
        ten_power(a + b) == ten_power(a) * ten_power(b),
        ten_power(a) >= 1,
    decreases a,
{
    if a > 0 {
        lemma_ten_powers((a - 1) as nat, b);
        let x = ten_power((a - 1) as nat);
        let y = ten_power(b);
        assert((10 * x) * y == 10 * (x * y)) by (nonlinear_arith);
    } else {
        let y = ten_power(b);
        assert(1 * y == y);
    }
}

pub proof fn lemma_ten_bound(n: nat)
    ensures
        1 <= ten_power(n) <= pow2(4 * n),
    decreases n,
{
    if n == 0 {
        crate::rounding::lemma_pow2_zero();
    } else {
        lemma_ten_bound((n - 1) as nat);
        lemma_pow2_adds(4, (4 * (n - 1)) as nat);
        vstd::arithmetic::power2::lemma2_to64();
    }
}

proof fn lemma_near_power(a: Double, i: nat, b: nat, r: Double, j: nat)
    requires
        i >= 1,
        i * b + j <= 120,
        b > 0 ==> near(a, ten_power(i), 1, (2 * (i - 1)) as nat, 4 * i),
        near(r, ten_power(j), 1, 2 * j, 4 * j),
    ensures
        near(power_steps(a, b, r), ten_power(i * b + j), 1, 2 * (i * b + j), 4 * (i * b + j)),
    decreases b,
{
    if b == 0 {
        assert(i * b == 0) by (nonlinear_arith)
            requires
                b == 0,
        ;
    } else {
        let c = b / 2;
        assert(i <= i * b) by (nonlinear_arith)
            requires
                b >= 1,
                i >= 1,
        ;
        lemma_near_product(
            a,
            ten_power(i),
            1,
            (2 * (i - 1)) as nat,
            4 * i,
            a,
            ten_power(i),
            1,
            (2 * (i - 1)) as nat,
            4 * i,
        );
        lemma_ten_powers(i, i);
        assert(1nat * 1nat == 1);
        assert(near(product_of(a, a), ten_power(2 * i), 1, (2 * (2 * i - 1)) as nat, 4 * (2 * i)));
        if b % 2 == 1 {
            lemma_near_product(
                r,
                ten_power(j),
                1,
                2 * j,
                4 * j,
                a,
                ten_power(i),
                1,
                (2 * (i - 1)) as nat,
                4 * i,
            );
            lemma_ten_powers(j, i);
            assert(i * b + j == (2 * i) * c + (j + i)) by (nonlinear_arith)
                requires
                    b == 2 * c + 1,
            ;
            assert(near(product_of(r, a), ten_power(j + i), 1, 2 * (j + i), 4 * (j + i)));
            lemma_near_power(product_of(a, a), 2 * i, c, product_of(r, a), j + i);
        } else {
            assert(i * b + j == (2 * i) * c + j) by (nonlinear_arith)
                requires
                    b == 2 * c,
            ;
            lemma_near_power(product_of(a, a), 2 * i, c, r, j);
        }
    }
}

/// Ten to a power, up to rounding.
pub proof fn lemma_near_ten(n: int)
    requires
        -120 <= n <= 120,
    ensures
        n >= 0 ==> near(ten_to(n), ten_power(n as nat), 1, 2 * n as nat, 4 * n as nat),
        n < 0 ==> near(ten_to(n), 1, ten_power((-n) as nat), (2 * -n + 2) as nat, (4 * -n) as nat),
{
    lemma_one();
    lemma_pow2_127();
    crate::rounding::lemma_pow2_zero();
    vstd::arithmetic::power2::lemma2_to64();
    vstd::arithmetic::power2::lemma2_to64_rest();
    let one = Double { bits: ONE };
    let ten = Double { bits: TEN };
    assert(one.magnitude() == ONE && ten.magnitude() == TEN);
    assert(exponent_of(TEN as nat) == 1025);
    assert(mantissa_of(TEN as nat) == 10 * pow2(49));
    lemma_integer(TEN, 10, 49);
    reveal_with_fuel(ten_power, 2);
    assert(one.size() == 1 * one_units());
    lemma_near_integer(one, 1, 0);
    lemma_near_integer(ten, 10, 4);
    let m = if n < 0 {
        (-n) as nat
    } else {
        n as nat
    };
    assert(1nat * m == m);
    lemma_near_power(ten, 1, m, one, 0);
    if n < 0 {
        let p = power_steps(ten, m, one);
        lemma_ten_bound(m);
        lemma_near_quotient(one, 1, 1, 0, 0, p, ten_power(m), 1, 2 * m, 4 * m);
        assert(1nat * 1nat == 1);
        assert(1nat * ten_power(m) == ten_power(m));
    }
}

/// The same fraction in other terms.
pub proof fn lemma_near_same(x: Double, n: nat, d: nat, k: nat, e: nat, n2: nat, d2: nat)
    requires
        near(x, n, d, k, e),
        d2 > 0,
        n * d2 == n2 * d,
    ensures
        near(x, n2, d2, k, e),
{
    let u = one_units();
    let s = x.size();
    let a = (s * d) as int;
    let c = (n * u) as int;
    let a2 = (s * d2) as int;
    let c2 = (n2 * u) as int;
    assert(a * d2 == a2 * d) by (nonlinear_arith)
        requires
            a == s * d,
            a2 == s * d2,
    ;
    assert(c * d2 == c2 * d) by (nonlinear_arith)
        requires
            c == n * u,
            c2 == n2 * u,
            n * d2 == n2 * d,
    ;
    let b = GRAIN as int;
    assert((a2 * b) * d <= (c2 * (b + k)) * d) by (nonlinear_arith)
        requires
            a * b <= c * (b + k),
            a * d2 == a2 * d,
            c * d2 == c2 * d,
            d2 > 0,
    ;
    assert(a2 * b <= c2 * (b + k)) by (nonlinear_arith)
        requires
            (a2 * b) * d <= (c2 * (b + k)) * d,
            d > 0,
    ;
    let lhs = c * b;
    let rhs = a * b + c * k;
    assert(lhs * d2 <= rhs * d2) by (nonlinear_arith)
        requires
            lhs <= rhs,
            d2 > 0,
    ;
    assert(lhs * d2 == (c * d2) * b) by (nonlinear_arith)
        requires
            lhs == c * b,
    ;
    assert(rhs * d2 == (a * d2) * b + (c * d2) * k) by (nonlinear_arith)
        requires
            rhs == a * b + c * k,
    ;
    assert((c2 * b) * d == (c2 * d) * b) by (nonlinear_arith);
    assert((a2 * b + c2 * k) * d == (a2 * d) * b + (c2 * d) * k) by (nonlinear_arith);
    assert(c2 * b <= a2 * b + c2 * k) by (nonlinear_arith)
        requires
            (c2 * b) * d <= (a2 * b + c2 * k) * d,
            d > 0,
    ;
    let p = pow2(e);
    if n == 0 {
        assert(n2 == 0) by (nonlinear_arith)
            requires
                n * d2 == n2 * d,
                n == 0,
                d > 0,
        ;
    } else {
        assert(n2 > 0) by (nonlinear_arith)
            requires
                n * d2 == n2 * d,
                n > 0,
                d2 > 0,
                d > 0,
                n2 >= 0,
        ;
        assert(d2 * n <= (n2 * p) * n) by (nonlinear_arith)
            requires
                d <= n * p,
                n * d2 == n2 * d,
                n2 >= 0,
        ;
        assert(d2 <= n2 * p) by (nonlinear_arith)
            requires
                d2 * n <= (n2 * p) * n,
                n > 0,
        ;
        assert(n2 * d <= (d2 * p) * d) by (nonlinear_arith)
            requires
                n <= d * p,
                n * d2 == n2 * d,
                d2 >= 0,
        ;
        assert(n2 <= d2 * p) by (nonlinear_arith)
            requires
                n2 * d <= (d2 * p) * d,
                d > 0,
        ;
    }
}

/// The difference of two numbers, the second no larger, up to one rounding.
pub proof fn lemma_near_difference(x: Double, y: Double, e: nat)
    requires
        plain(x),
        x.finite(),
        plain(y),
        y.finite(),
        y.size() <= x.size(),
        x.size() == y.size() || (one_units() <= (x.size() - y.size()) * pow2(e)),
        x.size() - y.size() <= one_units() * pow2(e),
        e <= 1000,
    ensures
        near(difference_of(x, y), (x.size() - y.size()) as nat, one_units(), 1, e),
{
    let u = one_units();
    let n = (x.size() - y.size()) as nat;
    lemma_pow2_pos(1074);
    lemma_plain_order(y, x);
    lemma_difference(x, y);
    if n == 0 {
        lemma_nothing(1);
        lemma_small_units(0);
        lemma_near_zero(difference_of(x, y), n, u, 1, e);
    } else {
        let z = n * (u * 1);
        assert(n * u == z) by (nonlinear_arith)
            requires
                z == n * (u * 1),
        ;
        assert(z * 0 == 0);
        assert(z * (GRAIN + 0) == z * GRAIN);
        lemma_rounded_near(n, 1, n, u, 0, e);
        let r = difference_of(x, y);
        assert(r == (Double { bits: nearest_magnitude(n, 1) as u64 }));
    }
}

} // verus!
