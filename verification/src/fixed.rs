//! Decimal notation of floating-point numbers with a fixed number of decimals.
use vstd::arithmetic::div_mod::lemma_fundamental_div_mod_converse;
use vstd::arithmetic::power2::{
    lemma_pow2_adds, lemma_pow2_pos, lemma_pow2_strictly_increases, lemma_pow2_unfold, pow2,
};
use vstd::prelude::*;
use vstd::string::*;

use crate::decimal::{
    all_digits, decimal, digits_of, last_digits, lemma_decimal_of_digits, lemma_last_digits,
    lemma_value_skip, normal, push_digits, ten_power, value_of,
};
use crate::double::{decode, one_units, Double};
use crate::rounding::{
    half_even, lemma_half_even_scale, lemma_pow2_127, lemma_pow2_zero, power_of_two, BINADE,
};

verus! {

/// The absolute value of a finite number, times `10^d`, rounded to an integer.
pub open spec fn scaled(x: Double, d: nat) -> nat {
    half_even(x.size() * ten_power(d), one_units())
}

/// A number without its sign, with `d` decimals.
pub open spec fn unsigned_fixed(x: Double, d: nat) -> Seq<char> {
    if x.infinite() {
        "inf"@
    } else if d == 0 {
        decimal(scaled(x, d))
    } else {
        decimal(scaled(x, d) / ten_power(d)).push('.') + last_digits(scaled(x, d), d)
    }
}

/// A number with `d` decimals, rounded to nearest, ties to even.
pub open spec fn fixed(x: Double, d: nat) -> Seq<char> {
    if x.nan() {
        "NaN"@
    } else if x.negative() {
        seq!['-'] + unsigned_fixed(x, d)
    } else {
        unsigned_fixed(x, d)
    }
}

/// `fixed`, with a plus sign where the number is not negative.
pub open spec fn fixed_signed(x: Double, d: nat) -> Seq<char> {
    if x.nan() {
        "NaN"@
    } else if x.negative() {
        seq!['-'] + unsigned_fixed(x, d)
    } else {
        seq!['+'] + unsigned_fixed(x, d)
    }
}

proof fn lemma_value_push(ds: Seq<u8>, x: u8)
    ensures
        value_of(ds.push(x)) == value_of(ds) + ten_power(ds.len()) * x,
    decreases ds.len(),
{
    if ds.len() == 0 {
        assert(ds.push(x).skip(1) =~= Seq::empty());
        assert(value_of(ds.push(x).skip(1)) == 0);
        assert(ten_power(0) * x == x) by (nonlinear_arith)
            requires
                ten_power(0) == 1,
        ;
    } else {
        lemma_value_push(ds.skip(1), x);
        assert(ds.push(x).skip(1) =~= ds.skip(1).push(x));
        let t = ten_power((ds.len() - 1) as nat);
        assert(10 * (t * x) == (10 * t) * x) by (nonlinear_arith);
    }
}

/// The digits of twice the number.
fn doubled(ds: &Vec<u8>) -> (r: Vec<u8>)
    requires
        normal(ds@),
    ensures
        normal(r@),
        value_of(r@) == 2 * value_of(ds@),
{
    let mut r: Vec<u8> = Vec::new();
    let mut carry: u8 = 0;
    let mut i: usize = 0;
    proof {
        assert(ds@.skip(0) =~= ds@);
        let twice = 2 * value_of(ds@);
        assert(ten_power(0) * twice == twice) by (nonlinear_arith)
            requires
                ten_power(0) == 1,
        ;
    }
    while i < ds.len()
        invariant
            i <= ds@.len(),
            normal(ds@),
            carry <= 1,
            all_digits(r@),
            r@.len() == i,
            value_of(r@) + ten_power(i as nat) * (carry + 2 * value_of(ds@.skip(i as int))) == 2
                * value_of(ds@),
            i == ds@.len() && carry == 0 && ds@.last() != 0 ==> r@.last() != 0,
        decreases ds@.len() - i,
    {
        let twice: u8 = ds[i] * 2 + carry;
        let digit: u8 = twice % 10;
        proof {
            lemma_value_push(r@, digit);
            let t = ten_power(i as nat);
            let rest = value_of(ds@.skip(i + 1));
            let c2 = twice / 10;
            assert(ds@.skip(i as int).skip(1) =~= ds@.skip(i + 1));
            assert(value_of(ds@.skip(i as int)) == ds@[i as int] as nat + 10 * rest);
            assert(t * (carry + 2 * (ds@[i as int] + 10 * rest)) == t * digit + (10 * t) * (c2 + 2
                * rest)) by (nonlinear_arith)
                requires
                    2 * ds@[i as int] + carry == 10 * c2 + digit,
            ;
            assert(ten_power((i + 1) as nat) == 10 * t);
        }
        r.push(digit);
        carry = twice / 10;
        i = i + 1;
    }
    proof {
        assert(ds@.skip(i as int).len() == 0);
        assert(value_of(ds@.skip(i as int)) == 0);
        lemma_value_push(r@, carry);
        assert(ten_power(i as nat) * 0 == 0);
    }
    if carry > 0 {
        r.push(carry);
    }
    r
}

/// The digits of `ds` times `2^k`.
fn doubled_times(ds: Vec<u8>, k: i32) -> (r: Vec<u8>)
    requires
        normal(ds@),
        0 <= k,
    ensures
        normal(r@),
        value_of(r@) == value_of(ds@) * pow2(k as nat),
{
    let mut r: Vec<u8> = ds;
    let mut i: i32 = 0;
    let ghost v = value_of(ds@);
    proof {
        lemma_pow2_zero();
        assert(v * pow2(0) == v) by (nonlinear_arith)
            requires
                pow2(0) == 1,
        ;
    }
    while i < k
        invariant
            0 <= i <= k,
            normal(r@),
            value_of(r@) == v * pow2(i as nat),
        decreases k - i,
    {
        r = doubled(&r);
        proof {
            lemma_pow2_unfold((i + 1) as nat);
            assert(2 * (v * pow2(i as nat)) == v * (2 * pow2(i as nat))) by (nonlinear_arith);
        }
        i = i + 1;
    }
    r
}

/// `v / 2^k`, rounded to nearest, ties to even.
fn half_even_shift(v: u128, k: i32) -> (r: u128)
    requires
        v < 0x1000_0000_0000_0000_0000_0000_0000_0000,
        0 < k,
    ensures
        r == half_even(v as nat, pow2(k as nat)),
{
    proof {
        lemma_pow2_127();
        lemma_pow2_pos(k as nat);
    }
    if k >= 128 {
        proof {
            lemma_pow2_strictly_increases(127, k as nat);
            assert(v as nat / pow2(k as nat) == 0 && v as nat % pow2(k as nat) == v)
                by (nonlinear_arith)
                requires
                    v < pow2(k as nat),
            ;
        }
        return 0;
    }
    let unit: u128 = power_of_two(k as u32);
    let q: u128 = v / unit;
    let rem: u128 = v % unit;
    proof {
        assert(v as nat / unit as nat <= v) by (nonlinear_arith)
            requires
                unit > 0,
        ;
    }
    if rem < unit - rem || (rem == unit - rem && q % 2 == 0) {
        q
    } else {
        q + 1
    }
}

/// The digits of `scaled`.
fn scaled_digits(x: Double, d: usize) -> (r: Vec<u8>)
    requires
        x.finite(),
        d <= 4,
    ensures
        normal(r@),
        value_of(r@) == scaled(x, d as nat),
{
    proof {
        reveal_with_fuel(ten_power, 5);
    }
    let p: u128 = match d {
        0 => 1,
        1 => 10,
        2 => 100,
        3 => 1000,
        _ => 10000,
    };
    let (m, e) = decode(x.unsigned());
    proof {
        assert(m * p < 0x1000_0000_0000_0000_0000_0000_0000_0000) by (nonlinear_arith)
            requires
                m < 0x20_0000_0000_0000,
                p <= 10_000,
        ;
    }
    let v: u128 = (m as u128) * p;
    let ghost u = pow2(e as nat);
    proof {
        lemma_pow2_pos(e as nat);
        lemma_pow2_pos(1074);
        assert(x.size() * p == v * u) by (nonlinear_arith)
            requires
                x.size() == m * u,
                v == m * p,
        ;
    }
    if e >= 1074 {
        let k: i32 = e - 1074;
        proof {
            lemma_pow2_adds(k as nat, 1074);
            let n = v * pow2(k as nat);
            assert(v * u == n * one_units()) by (nonlinear_arith)
                requires
                    u == pow2(k as nat) * one_units(),
                    n == v * pow2(k as nat),
            ;
            lemma_fundamental_div_mod_converse((v * u) as int, one_units() as int, n as int, 0);
        }
        doubled_times(digits_of(v), k)
    } else {
        let k: i32 = 1074 - e;
        proof {
            lemma_pow2_adds(k as nat, e as nat);
            lemma_pow2_pos(k as nat);
            lemma_half_even_scale(v as nat, pow2(k as nat), u);
        }
        digits_of(half_even_shift(v, k))
    }
}

/// The absolute value of a number below `2^52`, rounded to an integer.
pub fn rounded(x: Double) -> (r: u64)
    requires
        x.finite(),
        x.size() < BINADE * one_units(),
    ensures
        r == scaled(x, 0),
{
    let (m, e) = decode(x.unsigned());
    let ghost u = pow2(e as nat);
    proof {
        lemma_pow2_pos(e as nat);
        assert(x.size() * ten_power(0) == x.size()) by (nonlinear_arith)
            requires
                ten_power(0) == 1,
        ;
        if e >= 1074 {
            lemma_pow2_adds((e - 1074) as nat, 1074);
            lemma_pow2_pos((e - 1074) as nat);
            let w = pow2((e - 1074) as nat);
            assert(m * u >= BINADE * one_units()) by (nonlinear_arith)
                requires
                    m >= BINADE,
                    u == w * one_units(),
                    w >= 1,
            ;
        }
    }
    let k: i32 = 1074 - e;
    proof {
        lemma_pow2_adds(k as nat, e as nat);
        lemma_pow2_pos(k as nat);
        lemma_half_even_scale(m as nat, pow2(k as nat), u);
        let w = pow2(k as nat);
        assert(m as nat / w <= m) by (nonlinear_arith)
            requires
                w > 0,
        ;
    }
    half_even_shift(m as u128, k) as u64
}

/// Appends a number without its sign, with `d` decimals.
fn push_unsigned_fixed(out: &mut String, x: Double, d: usize)
    requires
        !x.nan(),
        d <= 4,
    ensures
        final(out)@ == old(out)@ + unsigned_fixed(x, d as nat),
{
    if !x.is_finite() {
        out.append("inf");
        return;
    }
    let mut ds: Vec<u8> = scaled_digits(x, d);
    let ghost v = value_of(ds@);
    while ds.len() <= d
        invariant
            d <= 4,
            ds@.len() > 0,
            all_digits(ds@),
            value_of(ds@) == v,
            ds@.len() > d + 1 ==> ds@.last() != 0,
        decreases 8 - ds@.len(),
    {
        proof {
            lemma_value_push(ds@, 0);
            assert(ten_power(ds@.len()) * 0 == 0);
        }
        ds.push(0);
    }
    let n: usize = ds.len();
    proof {
        lemma_value_skip(ds@, d as nat);
        assert(ds@.skip(d as int) =~= ds@.subrange(d as int, n as int));
        lemma_decimal_of_digits(ds@.skip(d as int));
        lemma_last_digits(ds@, d as nat);
        assert(ds@.take(d as int) =~= ds@.subrange(0, d as int));
    }
    let ghost start = out@;
    push_digits(out, &ds, d, n);
    if d > 0 {
        out.push('.');
        push_digits(out, &ds, 0, d);
        assert(out@ =~= start + (decimal(v / ten_power(d as nat)).push('.') + last_digits(
            v,
            d as nat,
        )));
    } else {
        assert(v / ten_power(0) == v) by (nonlinear_arith)
            requires
                ten_power(0) == 1,
        ;
    }
}

/// Appends a number with `d` decimals.
pub fn push_fixed(out: &mut String, x: Double, d: usize)
    requires
        d <= 4,
    ensures
        final(out)@ == old(out)@ + fixed(x, d as nat),
{
    if x.is_nan() {
        out.append("NaN");
    } else if x.is_negative() {
        let ghost start = out@;
        out.push('-');
        push_unsigned_fixed(out, x, d);
        assert(out@ =~= start + fixed(x, d as nat));
    } else {
        push_unsigned_fixed(out, x, d);
    }
}

/// Appends a number with `d` decimals, and with a plus sign where it is not
/// negative.
pub fn push_fixed_signed(out: &mut String, x: Double, d: usize)
    requires
        d <= 4,
    ensures
        final(out)@ == old(out)@ + fixed_signed(x, d as nat),
{
    if x.is_nan() {
        out.append("NaN");
    } else {
        let ghost start = out@;
        out.push(
            if x.is_negative() {
                '-'
            } else {
                '+'
            },
        );
        push_unsigned_fixed(out, x, d);
        assert(out@ =~= start + fixed_signed(x, d as nat));
    }
}

/// A negative number is shown as the number without its sign behind a minus; a sign is
/// shown of every number where that is asked for.
pub proof fn law_sign_is_shown(x: Double, d: nat)
    requires
        !x.nan(),
    ensures
        ({
            let y = crate::double::signed(false, x.magnitude());
            &&& x.negative() ==> fixed(x, d) == seq!['-'] + fixed(y, d) && fixed_signed(x, d)
                == seq!['-'] + fixed(y, d)
            &&& !x.negative() ==> fixed(x, d) == fixed(y, d) && fixed_signed(x, d) == seq!['+']
                + fixed(y, d)
        }),
{
    let y = crate::double::signed(false, x.magnitude());
    assert(y.magnitude() == x.magnitude() && !y.negative());
}

} // verus!
