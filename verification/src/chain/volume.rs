//! Swap volume over a range of blocks.
use vstd::prelude::*;

use crate::address::Address;
use crate::chain::pricing::{i256_to_f64, nearest_to, I256};
use crate::double::{product_of, quotient_of, sum_of, Double};
use crate::numbers::TWO;
use crate::order::{power_of_ten, ten_to};
use crate::table::note;

verus! {

/// Volume and distinct recipients of the swaps in a range of blocks.
#[derive(Debug, Clone, Copy, PartialEq, Eq, Structural)]
pub struct VolumeWindow {
    pub volume_usd: Double,
    pub unique_traders: u64,
}

/// A pool's `Swap` event.
#[derive(Debug, Clone, Copy, PartialEq, Eq, Structural)]
pub struct SwapEvent {
    pub amount0: I256,
    pub amount1: I256,
    pub recipient: Address,
}

/// Decimals and USD prices of a pool's two tokens.
#[derive(Debug, Clone, Copy, PartialEq, Eq, Structural)]
pub struct PoolUnits {
    pub decimals0: u8,
    pub decimals1: u8,
    pub price0: Double,
    pub price1: Double,
}

/// A number without its sign.
pub open spec fn absolute_of(x: Double) -> Double {
    crate::double::signed(false, x.magnitude())
}

/// The USD value of a signed amount of a token.
pub open spec fn leg_usd(amount: I256, decimals: u8, price: Double) -> Double {
    product_of(absolute_of(quotient_of(nearest_to(amount), ten_to(decimals as int))), price)
}

/// The USD volume of a swap: the mean of what its two legs are worth.
pub open spec fn swap_usd(event: SwapEvent, units: PoolUnits) -> Double {
    quotient_of(
        sum_of(
            leg_usd(event.amount0, units.decimals0, units.price0),
            leg_usd(event.amount1, units.decimals1, units.price1),
        ),
        Double { bits: TWO },
    )
}

/// The volume of swaps, added up in order.
pub open spec fn total_usd(events: Seq<SwapEvent>, units: PoolUnits) -> Double
    decreases events.len(),
{
    if events.len() == 0 {
        Double { bits: 0 }
    } else {
        sum_of(total_usd(events.drop_last(), units), swap_usd(events.last(), units))
    }
}

/// Everyone who received something in a swap.
pub open spec fn recipients(events: Seq<SwapEvent>) -> Set<Address>
    decreases events.len(),
{
    if events.len() == 0 {
        Set::empty()
    } else {
        recipients(events.drop_last()).insert(events.last().recipient)
    }
}

/// The USD value of a signed amount of a token.
pub fn leg_value(amount: I256, decimals: u8, price: Double) -> (r: Double)
    ensures
        r == leg_usd(amount, decimals, price),
{
    i256_to_f64(amount).over(power_of_ten(decimals as i32)).absolute().times(price)
}

/// Volume and distinct recipients of the swaps in a range of blocks, given all of
/// them in order.
pub fn estimate_volume_usd(events: &Vec<SwapEvent>, units: PoolUnits) -> (r: VolumeWindow)
    ensures
        r.volume_usd == total_usd(events@, units),
        r.unique_traders == recipients(events@).len(),
{
    let mut total = Double { bits: 0 };
    let mut traders: Vec<Address> = Vec::new();
    let mut i: usize = 0;
    assert(traders@.to_set() =~= Set::<Address>::empty());
    while i < events.len()
        invariant
            i <= events@.len(),
            total == total_usd(events@.take(i as int), units),
            traders@.no_duplicates(),
            traders@.to_set() == recipients(events@.take(i as int)),
        decreases events@.len() - i,
    {
        let event = events[i];
        let usd0 = leg_value(event.amount0, units.decimals0, units.price0);
        let usd1 = leg_value(event.amount1, units.decimals1, units.price1);
        total = total.plus(usd0.plus(usd1).over(Double { bits: TWO }));
        note(&mut traders, event.recipient);
        assert(events@.take(i + 1).drop_last() =~= events@.take(i as int));
        i = i + 1;
    }
    assert(events@.take(i as int) =~= events@);
    proof {
        traders@.unique_seq_to_set();
    }
    VolumeWindow { volume_usd: total, unique_traders: traders.len() as u64 }
}

/// There are no more traders than swaps, and at least one where there is a swap.
pub proof fn law_trader_count(events: Seq<SwapEvent>)
    ensures
        recipients(events).finite(),
        recipients(events).len() <= events.len(),
        events.len() > 0 ==> recipients(events).len() > 0,
    decreases events.len(),
{
    if events.len() > 0 {
        law_trader_count(events.drop_last());
    }
}

} // verus!
