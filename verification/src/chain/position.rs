//! Uniswap V3 liquidity and the value of a position.
use vstd::prelude::*;

use crate::address::U256;
use crate::chain::pricing::{sqrt_ratio, sqrt_ratio_of};
use crate::double::{
    at_most, difference_of, less, of_nat, product_of, quotient_of, sum_of, Double,
};
use crate::models::PositionPnl;
use crate::monotone::{
    lemma_count, lemma_difference, lemma_difference_grows, lemma_plain_order, lemma_product,
    lemma_product_grows, lemma_proper, lemma_reciprocal, lemma_reciprocal_falls, plain, proper,
};
use crate::numbers::HUNDRED;
use crate::order::{power_of_ten, ten_to, ONE};

verus! {

pub open spec fn reciprocal(x: Double) -> Double {
    quotient_of(Double { bits: ONE }, x)
}

/// The amounts of token0 and token1 that liquidity stands for between the square
/// roots `low` and `high` of two prices, at the square root `p` of the current one.
pub open spec fn amounts_between(liquidity: u128, p: Double, low: Double, high: Double) -> (
    Double,
    Double,
) {
    let l = of_nat(liquidity as nat);
    if at_most(p, low) {
        (product_of(l, difference_of(reciprocal(low), reciprocal(high))), Double { bits: 0 })
    } else if at_most(high, p) {
        (Double { bits: 0 }, product_of(l, difference_of(high, low)))
    } else {
        (
            product_of(l, difference_of(reciprocal(p), reciprocal(high))),
            product_of(l, difference_of(p, low)),
        )
    }
}

pub open spec fn amounts_of(liquidity: u128, p: Double, pa: Double, pb: Double) -> (Double, Double) {
    if at_most(pa, pb) {
        amounts_between(liquidity, p, pa, pb)
    } else {
        amounts_between(liquidity, p, pb, pa)
    }
}

/// The amounts of token0 and token1, in their smallest units, that liquidity stands
/// for between two prices, given the square roots of the current price and of both.
pub fn amounts_for_liquidity(liquidity: u128, sqrt_p: Double, sqrt_pa: Double, sqrt_pb: Double) -> (r:
    (Double, Double))
    ensures
        r == amounts_of(liquidity, sqrt_p, sqrt_pa, sqrt_pb),
{
    let l = Double::from_u128(liquidity);
    let one = Double { bits: ONE };
    let (low, high) = if sqrt_pa.no_more_than(sqrt_pb) {
        (sqrt_pa, sqrt_pb)
    } else {
        (sqrt_pb, sqrt_pa)
    };
    if sqrt_p.no_more_than(low) {
        (l.times(one.over(low).minus(one.over(high))), Double { bits: 0 })
    } else if high.no_more_than(sqrt_p) {
        (Double { bits: 0 }, l.times(high.minus(low)))
    } else {
        (l.times(one.over(sqrt_p).minus(one.over(high))), l.times(sqrt_p.minus(low)))
    }
}

/// Below its range a position holds token0 alone, above it token1 alone.
pub proof fn law_out_of_range_is_one_sided(liquidity: u128, p: Double, pa: Double, pb: Double)
    ensures
        at_most(pa, pb) && at_most(p, pa) ==> amounts_of(liquidity, p, pa, pb).1 == (Double {
            bits: 0,
        }),
        at_most(pa, pb) && less(pa, p) && at_most(pb, p) ==> amounts_of(liquidity, p, pa, pb).0 == (
        Double { bits: 0 }),
{
}

/// The lower of two ends.
pub open spec fn low_end(pa: Double, pb: Double) -> Double {
    if at_most(pa, pb) {
        pa
    } else {
        pb
    }
}

/// The upper of two ends.
pub open spec fn high_end(pa: Double, pb: Double) -> Double {
    if at_most(pa, pb) {
        pb
    } else {
        pa
    }
}

/// The price nearest to `p` that is not below the range.
pub open spec fn raised(p: Double, low: Double) -> Double {
    if at_most(p, low) {
        low
    } else {
        p
    }
}

/// Whether the reciprocals that are subtracted at `p` have a difference that can be
/// multiplied: above the range none are; else that of the upper end must be finite,
/// and, where there is no liquidity, the other one too.
pub open spec fn computable(liquidity: u128, p: Double, pa: Double, pb: Double) -> bool {
    let low = low_end(pa, pb);
    let high = high_end(pa, pb);
    (less(low, p) && at_most(high, p)) || (reciprocal(high).finite() && (liquidity > 0
        || reciprocal(raised(p, low)).finite()))
}

spec fn in_token0(liquidity: u128, c: Double, high: Double) -> Double {
    product_of(of_nat(liquidity as nat), difference_of(reciprocal(c), reciprocal(high)))
}

spec fn in_token1(liquidity: u128, c: Double, low: Double) -> Double {
    product_of(of_nat(liquidity as nat), difference_of(c, low))
}

proof fn lemma_in_token0(liquidity: u128, c: Double, high: Double)
    requires
        proper(c),
        proper(high),
        at_most(c, high),
        reciprocal(high).finite(),
        liquidity > 0 || reciprocal(c).finite(),
    ensures
        plain(in_token0(liquidity, c, high)),
        liquidity == 0 ==> in_token0(liquidity, c, high) == (Double { bits: 0 }),
{
    lemma_reciprocal(c);
    lemma_reciprocal(high);
    lemma_reciprocal_falls(c, high);
    lemma_difference(reciprocal(c), reciprocal(high));
    lemma_count(liquidity);
    lemma_product(of_nat(liquidity as nat), difference_of(reciprocal(c), reciprocal(high)));
}

proof fn lemma_in_token0_falls(liquidity: u128, c1: Double, c2: Double, high: Double)
    requires
        proper(c1),
        proper(c2),
        proper(high),
        at_most(c1, c2),
        at_most(c2, high),
        reciprocal(high).finite(),
        liquidity > 0 || reciprocal(c1).finite(),
    ensures
        at_most(in_token0(liquidity, c2, high), in_token0(liquidity, c1, high)),
{
    let l = of_nat(liquidity as nat);
    let (r1, r2, r) = (reciprocal(c1), reciprocal(c2), reciprocal(high));
    lemma_reciprocal(c1);
    lemma_reciprocal(c2);
    lemma_reciprocal(high);
    lemma_reciprocal_falls(c1, c2);
    lemma_reciprocal_falls(c2, high);
    lemma_reciprocal_falls(c1, high);
    lemma_plain_order(r2, r1);
    lemma_difference(r1, r);
    lemma_difference(r2, r);
    if r1.finite() {
        lemma_difference_grows(r2, r, r1, r);
    } else {
        lemma_plain_order(difference_of(r2, r), difference_of(r1, r));
    }
    lemma_count(liquidity);
    lemma_product_grows(l, difference_of(r2, r), difference_of(r1, r));
}

proof fn lemma_in_token1(liquidity: u128, c: Double, low: Double)
    requires
        proper(c),
        proper(low),
        at_most(low, c),
    ensures
        plain(in_token1(liquidity, c, low)),
        liquidity == 0 ==> in_token1(liquidity, c, low) == (Double { bits: 0 }),
{
    lemma_proper(c);
    lemma_proper(low);
    lemma_difference(c, low);
    lemma_count(liquidity);
    lemma_product(of_nat(liquidity as nat), difference_of(c, low));
}

proof fn lemma_in_token1_grows(liquidity: u128, c1: Double, c2: Double, low: Double)
    requires
        proper(c1),
        proper(c2),
        proper(low),
        at_most(low, c1),
        at_most(c1, c2),
    ensures
        at_most(in_token1(liquidity, c1, low), in_token1(liquidity, c2, low)),
{
    lemma_proper(c1);
    lemma_proper(c2);
    lemma_proper(low);
    lemma_plain_order(c1, c2);
    lemma_difference(c1, low);
    lemma_difference(c2, low);
    lemma_difference_grows(c1, low, c2, low);
    lemma_count(liquidity);
    lemma_product_grows(
        of_nat(liquidity as nat),
        difference_of(c1, low),
        difference_of(c2, low),
    );
}

/// Neither amount is negative, and without liquidity there is nothing of either.
pub proof fn law_amounts_are_not_negative(liquidity: u128, p: Double, pa: Double, pb: Double)
    requires
        proper(p),
        proper(pa),
        proper(pb),
        computable(liquidity, p, pa, pb),
    ensures
        at_most(Double { bits: 0 }, amounts_of(liquidity, p, pa, pb).0),
        at_most(Double { bits: 0 }, amounts_of(liquidity, p, pa, pb).1),
        liquidity == 0 ==> amounts_of(liquidity, p, pa, pb) == (
            Double { bits: 0 },
            Double { bits: 0 },
        ),
{
    let zero = Double { bits: 0 };
    let low = low_end(pa, pb);
    let high = high_end(pa, pb);
    if at_most(p, low) {
        lemma_in_token0(liquidity, low, high);
    } else if at_most(high, p) {
        lemma_in_token1(liquidity, high, low);
    } else {
        lemma_in_token0(liquidity, p, high);
        lemma_in_token1(liquidity, p, low);
    }
    lemma_plain_order(amounts_of(liquidity, p, pa, pb).0, zero);
    lemma_plain_order(amounts_of(liquidity, p, pa, pb).1, zero);
}

/// As the price rises, the amount of token0 never rises and that of token1 never
/// falls.
pub proof fn law_amounts_follow_the_price(
    liquidity: u128,
    p1: Double,
    p2: Double,
    pa: Double,
    pb: Double,
)
    requires
        proper(p1),
        proper(p2),
        proper(pa),
        proper(pb),
        at_most(p1, p2),
        computable(liquidity, p1, pa, pb),
        computable(liquidity, p2, pa, pb),
    ensures
        at_most(
            amounts_of(liquidity, p2, pa, pb).0,
            amounts_of(liquidity, p1, pa, pb).0,
        ),
        at_most(
            amounts_of(liquidity, p1, pa, pb).1,
            amounts_of(liquidity, p2, pa, pb).1,
        ),
{
    let low = low_end(pa, pb);
    let high = high_end(pa, pb);
    let c1 = raised(p1, low);
    let c2 = raised(p2, low);
    law_amounts_are_not_negative(liquidity, p1, pa, pb);
    law_amounts_are_not_negative(liquidity, p2, pa, pb);
    let above1 = less(low, p1) && at_most(high, p1);
    let above2 = less(low, p2) && at_most(high, p2);
    if !above2 {
        lemma_in_token0_falls(liquidity, c1, c2, high);
        if less(low, p1) {
            lemma_in_token1_grows(liquidity, p1, p2, low);
        }
    } else if !above1 {
        if less(low, p1) {
            lemma_in_token1_grows(liquidity, p1, high, low);
        }
    }
}

/// Outside its range a position's amounts do not depend on the price.
pub proof fn law_amounts_are_fixed_out_of_range(
    liquidity: u128,
    p1: Double,
    p2: Double,
    pa: Double,
    pb: Double,
)
    ensures
        at_most(p1, low_end(pa, pb)) && at_most(p2, low_end(pa, pb)) ==> amounts_of(
            liquidity,
            p1,
            pa,
            pb,
        ) == amounts_of(liquidity, p2, pa, pb),
        less(low_end(pa, pb), p1) && at_most(high_end(pa, pb), p1) && less(low_end(pa, pb), p2)
            && at_most(high_end(pa, pb), p2) ==> amounts_of(liquidity, p1, pa, pb) == amounts_of(
            liquidity,
            p2,
            pa,
            pb,
        ),
{
}

/// Which end of a range is named first does not matter.
pub proof fn law_ends_can_be_swapped(liquidity: u128, p: Double, pa: Double, pb: Double)
    requires
        proper(pa),
        proper(pb),
    ensures
        amounts_of(liquidity, p, pa, pb) == amounts_of(liquidity, p, pb, pa),
{
    lemma_proper(pa);
    lemma_proper(pb);
    lemma_plain_order(pa, pb);
    lemma_plain_order(pb, pa);
}

/// An open position as the chain has it, with the square roots of the prices at its
/// two ends.
#[derive(Debug, Clone, Copy, PartialEq, Eq, Structural)]
pub struct Holdings {
    pub tick_lower: i32,
    pub tick_upper: i32,
    pub liquidity: u128,
    pub owed0: u128,
    pub owed1: u128,
    pub current_tick: i32,
    pub sqrt_price_x96: U256,
    pub sqrt_lower: Double,
    pub sqrt_upper: Double,
    pub decimals0: u8,
    pub decimals1: u8,
}

pub open spec fn owed_tokens(owed: u128, decimals: u8) -> Double {
    quotient_of(of_nat(owed as nat), ten_to(decimals as int))
}

/// The USD value of a position, its uncollected fees included.
pub open spec fn position_value(h: Holdings, prices: (Double, Double)) -> Double {
    let amounts = amounts_of(h.liquidity, sqrt_ratio(h.sqrt_price_x96), h.sqrt_lower, h.sqrt_upper);
    sum_of(
        product_of(
            sum_of(
                quotient_of(amounts.0, ten_to(h.decimals0 as int)),
                owed_tokens(h.owed0, h.decimals0),
            ),
            prices.0,
        ),
        product_of(
            sum_of(
                quotient_of(amounts.1, ten_to(h.decimals1 as int)),
                owed_tokens(h.owed1, h.decimals1),
            ),
            prices.1,
        ),
    )
}

pub open spec fn fees_value(h: Holdings, prices: (Double, Double)) -> Double {
    sum_of(
        product_of(owed_tokens(h.owed0, h.decimals0), prices.0),
        product_of(owed_tokens(h.owed1, h.decimals1), prices.1),
    )
}

/// A position's profit or loss against what it cost.
pub open spec fn pnl_of(entry_cost: Double, h: Holdings, prices: (Double, Double)) -> PositionPnl {
    let pnl = difference_of(position_value(h, prices), entry_cost);
    PositionPnl {
        current_value_usd: position_value(h, prices),
        uncollected_fees_usd: fees_value(h, prices),
        pnl_usd: pnl,
        pnl_percent: if less(Double { bits: 0 }, entry_cost) {
            product_of(quotient_of(pnl, entry_cost), Double { bits: HUNDRED })
        } else {
            Double { bits: 0 }
        },
        in_range: h.tick_lower <= h.current_tick < h.tick_upper,
    }
}

/// A position's profit or loss against what it cost; none where its pool has no
/// prices.
pub fn compute_pnl(entry_cost_usd: Double, h: Holdings, prices: Option<(Double, Double)>) -> (r:
    Option<PositionPnl>)
    requires
        h.sqrt_price_x96.hi == 0,
    ensures
        r == (match prices {
            Some(p) => Some(pnl_of(entry_cost_usd, h, p)),
            None => None,
        }),
{
    let (p0, p1) = match prices {
        Some(p) => p,
        None => {
            return None;
        },
    };
    let sqrt_p = sqrt_ratio_of(h.sqrt_price_x96);
    let (amount0, amount1) = amounts_for_liquidity(
        h.liquidity,
        sqrt_p,
        h.sqrt_lower,
        h.sqrt_upper,
    );
    let unit0 = power_of_ten(h.decimals0 as i32);
    let unit1 = power_of_ten(h.decimals1 as i32);
    let owed0 = Double::from_u128(h.owed0).over(unit0);
    let owed1 = Double::from_u128(h.owed1).over(unit1);
    let value = amount0.over(unit0).plus(owed0).times(p0).plus(
        amount1.over(unit1).plus(owed1).times(p1),
    );
    let fees = owed0.times(p0).plus(owed1.times(p1));
    let pnl = value.minus(entry_cost_usd);
    let percent = if (Double { bits: 0 }).less_than(entry_cost_usd) {
        pnl.over(entry_cost_usd).times(Double { bits: HUNDRED })
    } else {
        Double { bits: 0 }
    };
    Some(
        PositionPnl {
            current_value_usd: value,
            uncollected_fees_usd: fees,
            pnl_usd: pnl,
            pnl_percent: percent,
            in_range: h.current_tick >= h.tick_lower && h.current_tick < h.tick_upper,
        },
    )
}

} // verus!
