//! Rounding of exact rationals to the nearest 64-bit binary floating-point
//! magnitude, ties to even.
use vstd::arithmetic::div_mod::{lemma_fundamental_div_mod, lemma_fundamental_div_mod_converse};
use vstd::arithmetic::power2::{
    lemma_pow2_adds, lemma_pow2_pos, lemma_pow2_strictly_increases, lemma_pow2_unfold, pow2,
};
use vstd::prelude::*;

verus! {

/// `2^52`, the distance in bit patterns between one binade and the next.
pub const BINADE: u64 = 0x10_0000_0000_0000;

/// `2^53`, the number of mantissas of a binade and of everything below it.
pub const MANTISSAS: u64 = 0x20_0000_0000_0000;

/// The bit pattern of positive infinity.
pub const INFINITE: u64 = 0x7FF0_0000_0000_0000;

/// The integer nearest to `n / d`; of two equally near ones, the even one.
pub open spec fn half_even(n: nat, d: nat) -> nat {
    let q = n / d;
    let twice = 2 * (n % d);
    if twice < d || (twice == d && q % 2 == 0) {
        q
    } else {
        q + 1
    }
}

/// The bit pattern of the floating-point magnitude nearest to `n / d`, where one
/// unit is the smallest positive magnitude. Below `2^53` units every integer is a
/// magnitude and its own bit pattern; above, the spacing doubles from one binade
/// to the next, and a binade holds `2^52` bit patterns.
pub open spec fn nearest(n: nat, d: nat) -> nat
    decreases n - d,
{
    if d == 0 || n < MANTISSAS * d {
        half_even(n, d)
    } else {
        BINADE as nat + nearest(n, 2 * d)
    }
}

/// `nearest`, with everything from the infinite bit pattern upwards being infinite.
pub open spec fn nearest_magnitude(n: nat, d: nat) -> nat {
    if nearest(n, d) >= INFINITE {
        INFINITE as nat
    } else {
        nearest(n, d)
    }
}

pub proof fn lemma_half_even_scale(n: nat, d: nat, c: nat)
    requires
        d > 0,
        c > 0,
    ensures
        half_even(n * c, d * c) == half_even(n, d),
{
    let q = (n / d) as int;
    let r = (n % d) as int;
    lemma_fundamental_div_mod(n as int, d as int);
    assert(n * c == q * (d * c) + r * c) by (nonlinear_arith)
        requires
            n == d * q + r,
    ;
    assert(0 <= r * c < d * c) by (nonlinear_arith)
        requires
            0 <= r < d,
            c > 0,
    ;
    lemma_fundamental_div_mod_converse((n * c) as int, (d * c) as int, q, r * c);
    assert(2 * r < d <==> 2 * (r * c) < d * c) by (nonlinear_arith)
        requires
            c > 0,
    ;
    assert(2 * r == d <==> 2 * (r * c) == d * c) by (nonlinear_arith)
        requires
            c > 0,
    ;
}

/// Scaling numerator and denominator alike does not change the nearest magnitude.
pub proof fn lemma_nearest_scale(n: nat, d: nat, c: nat)
    requires
        d > 0,
        c > 0,
    ensures
        nearest(n * c, d * c) == nearest(n, d),
    decreases n - d,
{
    assert(d * c > 0) by (nonlinear_arith)
        requires
            d > 0,
            c > 0,
    ;
    assert(n < MANTISSAS * d <==> n * c < MANTISSAS * (d * c)) by (nonlinear_arith)
        requires
            c > 0,
    ;
    if n < MANTISSAS * d {
        lemma_half_even_scale(n, d, c);
    } else {
        assert(2 * (d * c) == (2 * d) * c) by (nonlinear_arith);
        lemma_nearest_scale(n, 2 * d, c);
    }
}

/// Where the binade is known, `nearest` is one rounding.
pub proof fn lemma_nearest_in_binade(n: nat, d: nat, e: nat)
    requires
        d > 0,
        n < MANTISSAS * (d * pow2(e)),
        e > 0 ==> n >= MANTISSAS * (d * pow2((e - 1) as nat)),
    ensures
        nearest(n, d) == e * BINADE + half_even(n, d * pow2(e)),
    decreases e,
{
    if e == 0 {
        lemma_pow2_zero();
        assert(d * pow2(0) == d) by (nonlinear_arith)
            requires
                pow2(0) == 1,
        ;
    } else {
        let e1 = (e - 1) as nat;
        lemma_pow2_pos(e1);
        lemma_pow2_unfold(e);
        assert(n >= MANTISSAS * d) by (nonlinear_arith)
            requires
                n >= MANTISSAS * (d * pow2(e1)),
                pow2(e1) >= 1,
        ;
        assert((2 * d) * pow2(e1) == d * pow2(e)) by (nonlinear_arith)
            requires
                pow2(e) == 2 * pow2(e1),
        ;
        if e1 > 0 {
            let e2 = (e1 - 1) as nat;
            lemma_pow2_unfold(e1);
            assert((2 * d) * pow2(e2) == d * pow2(e1)) by (nonlinear_arith)
                requires
                    pow2(e1) == 2 * pow2(e2),
            ;
        }
        lemma_nearest_in_binade(n, 2 * d, e1);
        assert(BINADE + e1 * BINADE == e * BINADE) by (nonlinear_arith)
            requires
                e == e1 + 1,
        ;
    }
}

/// One rounding, done on the integer part `m` of a quotient and on whether
/// anything was cut off below it.
proof fn lemma_round_with_sticky(n: nat, g: nat, m: nat, p: nat, h: nat, q: nat, rem: nat)
    requires
        g > 0,
        m * g <= n < (m + 1) * g,
        p == 2 * h,
        h > 0,
        m == q * p + rem,
        rem < p,
    ensures
        half_even(n, g * p) == if rem < h || (rem == h && n == m * g && q % 2 == 0) {
            q
        } else {
            q + 1
        },
{
    let delta = (n - m * g) as int;
    let gp = (g * p) as int;
    assert(n == q * gp + (rem * g + delta)) by (nonlinear_arith)
        requires
            gp == g * p,
            m == q * p + rem,
            delta == n - m * g,
    ;
    assert(delta < g) by (nonlinear_arith)
        requires
            n < (m + 1) * g,
            delta == n - m * g,
    ;
    assert(rem * g + delta < gp) by (nonlinear_arith)
        requires
            rem + 1 <= p,
            delta < g,
            gp == g * p,
    ;
    assert(gp > 0) by (nonlinear_arith)
        requires
            g > 0,
            p > 0,
            gp == g * p,
    ;
    assert(rem * g >= 0) by (nonlinear_arith);
    lemma_fundamental_div_mod_converse(n as int, gp, q as int, rem * g + delta);
    let s = rem * g + delta;
    if rem < h {
        assert(2 * s < gp) by (nonlinear_arith)
            requires
                rem + 1 <= h,
                delta < g,
                s == rem * g + delta,
                gp == g * p,
                p == 2 * h,
        ;
    } else if rem > h {
        assert(2 * s > gp) by (nonlinear_arith)
            requires
                rem >= h + 1,
                delta >= 0,
                g > 0,
                s == rem * g + delta,
                gp == g * p,
                p == 2 * h,
        ;
    } else {
        assert(2 * s == gp + 2 * delta) by (nonlinear_arith)
            requires
                rem == h,
                s == rem * g + delta,
                gp == g * p,
                p == 2 * h,
        ;
    }
}

/// The exact value `n / d` lies at `m * 2^e`, or above it by less than `2^e`.
pub open spec fn pinned(n: nat, d: nat, m: nat, e: int, sticky: bool) -> bool {
    let up = if e >= 0 { pow2(e as nat) } else { 1nat };
    let down = if e >= 0 { 1nat } else { pow2((-e) as nat) };
    &&& m * (up * d) <= n * down < (m + 1) * (up * d)
    &&& sticky <==> n * down != m * (up * d)
}

pub proof fn lemma_pow2_zero()
    ensures
        pow2(0) == 1,
{
    reveal(vstd::arithmetic::power::pow);
    assert(pow2(0) == 1);
}

pub proof fn lemma_pow2_127()
    ensures
        pow2(127) == 0x8000_0000_0000_0000_0000_0000_0000_0000,
        pow2(53) == MANTISSAS,
        pow2(52) == BINADE,
{
    vstd::arithmetic::power2::lemma2_to64();
    vstd::arithmetic::power2::lemma2_to64_rest();
    lemma_pow2_adds(64, 63);
}

/// `2^k`.
pub fn power_of_two(k: u32) -> (r: u128)
    requires
        k <= 127,
    ensures
        r == pow2(k as nat),
{
    let mut r: u128 = 1;
    let mut i: u32 = 0;
    proof {
        lemma_pow2_zero();
        lemma_pow2_127();
    }
    while i < k
        invariant
            i <= k <= 127,
            r == pow2(i as nat),
            pow2(127) == 0x8000_0000_0000_0000_0000_0000_0000_0000,
        decreases k - i,
    {
        proof {
            lemma_pow2_unfold((i + 1) as nat);
            if i + 1 < 127 {
                lemma_pow2_strictly_increases((i + 1) as nat, 127);
            }
        }
        r = r * 2;
        i = i + 1;
    }
    r
}

proof fn lemma_pinned_double(n: nat, d: nat, m: nat, e: int)
    requires
        pinned(n, d, m, e, false),
    ensures
        pinned(n, d, 2 * m, e - 1, false),
{
    if e >= 1 {
        lemma_pow2_unfold(e as nat);
        let u = pow2((e - 1) as nat);
        assert((2 * m) * (u * d) == m * ((2 * u) * d)) by (nonlinear_arith);
        assert((2 * m + 1) * (u * d) > (2 * m) * (u * d)) by (nonlinear_arith)
            requires
                m * ((2 * u) * d) < (m + 1) * ((2 * u) * d),
        ;
    } else {
        let w = (-e) as nat;
        lemma_pow2_unfold((w + 1) as nat);
        if e == 0 {
            lemma_pow2_zero();
        }
        let down = pow2(w);
        assert(n * (2 * down) == (2 * m) * (1 * d)) by (nonlinear_arith)
            requires
                n * down == m * (1 * d),
        ;
        assert((2 * m + 1) * (1 * d) > (2 * m) * (1 * d)) by (nonlinear_arith)
            requires
                m * (1 * d) < (m + 1) * (1 * d),
        ;
    }
}

/// The grid on which `m` counts, and `n / d` brought to a common scale with it.
proof fn lemma_pinned_scaled(n: nat, d: nat, m: nat, e: int, sticky: bool, top: nat) -> (r: (
    nat,
    nat,
    nat,
))
    requires
        d > 0,
        pinned(n, d, m, e, sticky),
        top >= e,
    ensures
        r.1 > 0,
        r.2 > 0,
        nearest(n, d) == nearest(r.0, r.1),
        m * r.2 <= r.0 < (m + 1) * r.2,
        sticky <==> r.0 != m * r.2,
        r.1 * pow2(top) == r.2 * pow2((top - e) as nat),
{
    if e >= 0 {
        let g = pow2(e as nat) * d;
        lemma_pow2_pos(e as nat);
        assert(g > 0) by (nonlinear_arith)
            requires
                g == pow2(e as nat) * d,
                d > 0,
                pow2(e as nat) > 0,
        ;
        lemma_pow2_adds(e as nat, (top - e) as nat);
        assert(e as nat + (top - e) as nat == top);
        assert(d * pow2(top) == g * pow2((top - e) as nat)) by (nonlinear_arith)
            requires
                g == pow2(e as nat) * d,
                pow2(top) == pow2(e as nat) * pow2((top - e) as nat),
        ;
        (n, d, g)
    } else {
        let down = pow2((-e) as nat);
        lemma_pow2_pos((-e) as nat);
        lemma_nearest_scale(n, d, down);
        lemma_pow2_adds((-e) as nat, top);
        assert((-e) as nat + top == (top - e) as nat);
        assert(d * down > 0) by (nonlinear_arith)
            requires
                d > 0,
                down > 0,
        ;
        assert((d * down) * pow2(top) == d * pow2((top - e) as nat)) by (nonlinear_arith)
            requires
                pow2((top - e) as nat) == down * pow2(top),
        ;
        assert(1 * d == d);
        (n * down, d * down, d)
    }
}

/// The bit pattern of the magnitude nearest to an exact value `n / d`, which is
/// given by its integer part `m` on the grid of `2^e` units and by whether it
/// exceeds that (`sticky`).
pub fn round_magnitude(
    m: u128,
    e: i32,
    sticky: bool,
    Ghost(n): Ghost<nat>,
    Ghost(d): Ghost<nat>,
) -> (r: u64)
    requires
        d > 0,
        m < 0x8000_0000_0000_0000_0000_0000_0000_0000,
        sticky ==> m >= 0x40_0000_0000_0000,
        -4000 <= e <= 3100,
        pinned(n, d, m as nat, e as int, sticky),
    ensures
        r == nearest_magnitude(n, d),
{
    let mut m: u128 = m;
    let mut e: i32 = e;
    if m == 0 {
        proof {
            let down = if e >= 0 { 1nat } else { pow2((-e) as nat) };
            if e < 0 {
                lemma_pow2_pos((-e) as nat);
            }
            assert(n == 0) by (nonlinear_arith)
                requires
                    n * down == 0,
                    down > 0,
            ;
            assert(0nat < MANTISSAS * d) by (nonlinear_arith)
                requires
                    d > 0,
            ;
            assert(0nat / d == 0 && 0nat % d == 0) by (nonlinear_arith)
                requires
                    d > 0,
            ;
        }
        return 0;
    }
    let ghost e0: int = e as int;
    proof {
        lemma_pow2_zero();
        lemma_pow2_127();
        lemma_pow2_unfold(54);
    }
    while m < 0x40_0000_0000_0000
        invariant
            0 < m < 0x8000_0000_0000_0000_0000_0000_0000_0000,
            sticky ==> m >= 0x40_0000_0000_0000,
            pinned(n, d, m as nat, e as int, sticky),
            -4000 <= e0 <= 3100,
            e0 - 54 <= e <= e0,
            m >= pow2((e0 - e) as nat),
            pow2(54) == 0x40_0000_0000_0000,
        decreases 54 - (e0 - e),
    {
        proof {
            lemma_pinned_double(n, d, m as nat, e as int);
            lemma_pow2_unfold((e0 - e + 1) as nat);
        }
        m = m * 2;
        e = e - 1;
    }
    let mut top: u128 = 0x40_0000_0000_0000;
    let mut len: i32 = 55;
    while top <= m / 2
        invariant
            55 <= len <= 127,
            top == pow2((len - 1) as nat),
            top <= m < 0x8000_0000_0000_0000_0000_0000_0000_0000,
            pow2(127) == 0x8000_0000_0000_0000_0000_0000_0000_0000,
        decreases 127 - len,
    {
        proof {
            lemma_pow2_unfold(len as nat);
            if len >= 127 {
                assert(false);
            }
        }
        top = top * 2;
        len = len + 1;
    }
    let binade: i32 = if e + len > 53 {
        e + len - 53
    } else {
        0
    };
    let cut: i32 = binade - e;
    let ghost (nn, dd, g) = lemma_pinned_scaled(
        n,
        d,
        m as nat,
        e as int,
        sticky,
        binade as nat,
    );
    let ghost p = pow2(cut as nat);
    let ghost h = pow2((cut - 1) as nat);
    proof {
        lemma_pow2_unfold(cut as nat);
        lemma_pow2_pos((cut - 1) as nat);
        lemma_pow2_unfold(len as nat);
        // The value stays below the end of the binade ...
        lemma_pow2_adds(53, cut as nat);
        if 53 + cut > len {
            lemma_pow2_strictly_increases(len as nat, (53 + cut) as nat);
        }
        assert(m + 1 <= MANTISSAS * p);
        assert(nn < MANTISSAS * (g * p)) by (nonlinear_arith)
            requires
                nn < (m + 1) * g,
                m + 1 <= MANTISSAS * p,
        ;
        assert(dd * pow2(binade as nat) == g * p);
        // ... and, above the lowest binade, has reached its start.
        if binade > 0 {
            lemma_pow2_unfold(binade as nat);
            lemma_pow2_adds(53, (cut - 1) as nat);
            assert(m >= MANTISSAS * h);
            let half_dd = dd * pow2((binade - 1) as nat);
            assert(half_dd == g * h) by (nonlinear_arith)
                requires
                    half_dd == dd * pow2((binade - 1) as nat),
                    dd * pow2(binade as nat) == g * p,
                    pow2(binade as nat) == 2 * pow2((binade - 1) as nat),
                    p == 2 * h,
            ;
            assert(nn >= MANTISSAS * (g * h)) by (nonlinear_arith)
                requires
                    nn >= m * g,
                    m >= MANTISSAS * h,
            ;
        }
        lemma_nearest_in_binade(nn, dd, binade as nat);
    }
    let mantissa: u64 = if cut >= 128 {
        proof {
            if cut > 128 {
                lemma_pow2_strictly_increases(127, (cut - 1) as nat);
            }
            assert(0 * p == 0);
            lemma_round_with_sticky(nn, g, m as nat, p, h, 0, m as nat);
        }
        0
    } else {
        let unit: u128 = power_of_two(cut as u32);
        let q: u128 = m / unit;
        let rem: u128 = m % unit;
        let half: u128 = unit / 2;
        proof {
            lemma_fundamental_div_mod(m as int, unit as int);
            assert(m == q * p + rem) by (nonlinear_arith)
                requires
                    m == unit * q + rem,
                    p == unit,
            ;
            lemma_round_with_sticky(nn, g, m as nat, p, h, q as nat, rem as nat);
            assert(q < MANTISSAS) by (nonlinear_arith)
                requires
                    m + 1 <= MANTISSAS * p,
                    m == q * p + rem,
                    rem >= 0,
                    p > 0,
            ;
        }
        if rem < half || (rem == half && !sticky && q % 2 == 0) {
            q as u64
        } else {
            (q + 1) as u64
        }
    };
    let bits: u64 = (binade as u64) * BINADE + mantissa;
    if bits >= INFINITE {
        INFINITE
    } else {
        bits
    }
}

/// A fraction is rounded to the nearest integer, and to the even one of two that are
/// equally near.
pub proof fn law_nearest_and_even(n: nat, d: nat)
    requires
        d > 0,
    ensures
        2 * (half_even(n, d) * d - n) <= d,
        2 * (n - half_even(n, d) * d) <= d,
        2 * (half_even(n, d) * d - n) == d || 2 * (n - half_even(n, d) * d) == d ==> half_even(n, d)
            % 2 == 0,
{
    let q = n / d;
    let r = n % d;
    lemma_fundamental_div_mod(n as int, d as int);
    assert((q + 1) * d == q * d + d) by (nonlinear_arith);
    assert(d * q == q * d) by (nonlinear_arith);
}

} // verus!
