//! Ticks that a pool accepts as the ends of a position.
use vstd::prelude::*;

verus! {

pub open spec fn tick_spacing(fee: u32) -> int {
    if fee == 100 {
        1
    } else if fee == 500 {
        10
    } else if fee == 3000 {
        60
    } else if fee == 10000 {
        200
    } else {
        60
    }
}

/// The distance of usable ticks in a pool of fee tier `fee`; 60 for a tier that is
/// not known.
pub fn fee_to_tick_spacing(fee: u32) -> (r: i32)
    ensures
        r == tick_spacing(fee),
{
    match fee {
        100 => 1,
        500 => 10,
        3000 => 60,
        10000 => 200,
        _ => 60,
    }
}

pub open spec fn size_of(x: int) -> int {
    if x < 0 {
        -x
    } else {
        x
    }
}

/// The quotient of two integers rounded to the nearest integer, a half away from
/// zero.
pub open spec fn rounded_quotient(n: int, d: int) -> int
    recommends
        d != 0,
{
    let q = (2 * size_of(n) + size_of(d)) / (2 * size_of(d));
    if (n < 0) == (d < 0) {
        q
    } else {
        -q
    }
}

pub open spec fn within_i32(x: int) -> int {
    if x > i32::MAX {
        i32::MAX as int
    } else if x < i32::MIN {
        i32::MIN as int
    } else {
        x
    }
}

/// The multiple of `spacing` nearest to `tick`, a half away from zero.
pub open spec fn usable_tick(tick: int, spacing: int) -> int {
    if spacing == 0 {
        0
    } else {
        within_i32(rounded_quotient(tick, spacing)) * spacing
    }
}

/// The multiple of `spacing` nearest to `tick`.
pub fn nearest_usable_tick(tick: i32, spacing: i32) -> (r: i32)
    requires
        i32::MIN <= usable_tick(tick as int, spacing as int) <= i32::MAX,
    ensures
        r == usable_tick(tick as int, spacing as int),
{
    if spacing == 0 {
        return 0;
    }
    let n: i64 = if tick < 0 {
        -(tick as i64)
    } else {
        tick as i64
    };
    let d: i64 = if spacing < 0 {
        -(spacing as i64)
    } else {
        spacing as i64
    };
    let q: i64 = (2 * n + d) / (2 * d);
    proof {
        let num = 2 * n + d;
        let den = 2 * d;
        assert(0 <= q <= num) by (nonlinear_arith)
            requires
                q == num / den,
                num >= 0,
                den >= 1,
        ;
    }
    let exact: i64 = if (tick < 0) == (spacing < 0) {
        q
    } else {
        -q
    };
    let rounded: i64 = if exact > i32::MAX as i64 {
        i32::MAX as i64
    } else if exact < i32::MIN as i64 {
        i32::MIN as i64
    } else {
        exact
    };
    (rounded as i32) * spacing
}

/// A usable tick is a multiple of the spacing, no further from the tick asked for
/// than half the spacing.
pub proof fn law_usable_tick_is_near(tick: i32, spacing: i32)
    requires
        spacing > 0,
    ensures
        usable_tick(tick as int, spacing as int) % (spacing as int) == 0,
        2 * size_of(usable_tick(tick as int, spacing as int) - tick) <= spacing,
{
    let n = size_of(tick as int);
    let d = spacing as int;
    let q = (2 * n + d) / (2 * d);
    assert(2 * d * q <= 2 * n + d < 2 * d * q + 2 * d) by (nonlinear_arith)
        requires
            q == (2 * n + d) / (2 * d),
            d > 0,
    ;
    assert(2 * d * q == 2 * (q * d)) by (nonlinear_arith);
    assert(0 <= q <= n) by (nonlinear_arith)
        requires
            2 * d * q <= 2 * n + d < 2 * d * q + 2 * d,
            d >= 1,
            n >= 0,
    ;
    assert((-q) * d == -(q * d)) by (nonlinear_arith);
    let r = within_i32(rounded_quotient(tick as int, d));
    assert(r == q || r == -q);
    assert((r * d) % d == 0) by (nonlinear_arith)
        requires
            d > 0,
    ;
}

/// A tick halfway between two usable ones goes to the one further from zero.
pub proof fn law_half_goes_away_from_zero(tick: i32, spacing: i32)
    requires
        spacing > 0,
        2 * size_of(usable_tick(tick as int, spacing as int) - tick) == spacing,
    ensures
        size_of(usable_tick(tick as int, spacing as int)) > size_of(tick as int),
{
    let n = size_of(tick as int);
    let d = spacing as int;
    let q = (2 * n + d) / (2 * d);
    assert(2 * d * q <= 2 * n + d < 2 * d * q + 2 * d) by (nonlinear_arith)
        requires
            q == (2 * n + d) / (2 * d),
            d > 0,
    ;
    assert(2 * d * q == 2 * (q * d)) by (nonlinear_arith);
    assert(0 <= q <= n) by (nonlinear_arith)
        requires
            2 * d * q <= 2 * n + d < 2 * d * q + 2 * d,
            d >= 1,
            n >= 0,
    ;
    assert((-q) * d == -(q * d)) by (nonlinear_arith);
    assert(q * d >= 0) by (nonlinear_arith)
        requires
            q >= 0,
            d > 0,
    ;
}

/// Ticks are usable a fiftieth of the fee apart in the tiers of 500, 3,000 and 10,000,
/// every one is in the tier of 100, and an unknown tier is taken for that of 3,000.
pub proof fn law_spacing_follows_the_fee(fee: u32)
    ensures
        tick_spacing(fee) > 0,
        fee == 500 || fee == 3000 || fee == 10000 ==> tick_spacing(fee) * 50 == fee,
        fee == 100 ==> tick_spacing(fee) == 1,
        fee != 100 && fee != 500 && fee != 10000 ==> tick_spacing(fee) * 50 == 3000,
{
}

} // verus!
