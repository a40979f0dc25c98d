//! What the transactions that are sent are bounded by.
use vstd::prelude::*;

use crate::address::{Address, U256};
use crate::chain::autoswap::order_of;
use crate::chain::lp::{
    approval, decrease_of, law_minted_ticks_are_usable, law_position_is_centered, mint_of,
    ticks_fit, PoolState,
};
use crate::chain::metrics::first_volume_block;
use crate::chain::position::amounts_of;
use crate::chain::pricing::sqrt_ratio;
use crate::chain::ticks::tick_spacing;
use crate::chain::tolerance_laws::{
    law_estimated_minimum_keeps_its_part, law_minimum_keeps_its_part,
};
use crate::chain::value_laws::usual;
use crate::config::AppConfig;
use crate::double::{one_units, Double};

verus! {

/// Whether an amount is what is left of another, `n / d`, less `bps` ten-thousandths of
/// it, up to rounding.
pub open spec fn kept_of(amount: U256, n: nat, d: nat, bps: u64) -> bool {
    let a = amount.lo;
    &&& amount.hi == 0
    &&& 0x80_0000_0000 * ((a * d) * 10_000 - n * (10_000 - bps)) <= n * 10_000
    &&& a == u128::MAX || 0x80_0000_0000 * (n * (10_000 - bps) - ((a + 1) * d) * 10_000) <= n
        * 10_000
}

proof fn lemma_kept(amount: u128, bps: u64)
    requires
        bps < 10_000,
    ensures
        kept_of(
            U256::of(crate::chain::slippage::least_out(amount, bps)),
            amount as nat,
            1,
            bps,
        ),
{
    law_minimum_keeps_its_part(amount, bps);
    let a = crate::chain::slippage::least_out(amount, bps);
    assert(a * 1 == a && (a + 1) * 1 == a + 1);
}

/// A mint names its pool's tokens and fee, accepts of each token no less than the
/// tolerance leaves of what is wanted of that token, has its ends on the pool's grid to
/// either side of the current tick, goes to its recipient and is valid for ten minutes.
pub proof fn law_mint_is_bounded(
    cfg: AppConfig,
    pool: PoolState,
    prices: Option<(Double, Double)>,
    usd_amount: Double,
    delta_tick: i32,
    recipient: Address,
    now: u64,
)
    requires
        ticks_fit(pool, delta_tick),
        cfg.wallet.slippage_bps < 10_000,
    ensures
        ({
            let m = mint_of(cfg, pool, prices, usd_amount, delta_tick, recipient, now);
            let bps = cfg.wallet.slippage_bps;
            let s = tick_spacing(pool.fee);
            &&& m.token0 == pool.token0 && m.token1 == pool.token1 && m.fee == pool.fee
            &&& m.amount0_desired.hi == 0 && m.amount1_desired.hi == 0
            &&& kept_of(m.amount0_min, m.amount0_desired.lo as nat, 1, bps)
            &&& kept_of(m.amount1_min, m.amount1_desired.lo as nat, 1, bps)
            &&& -s <= 2 * (m.tick_lower - (pool.tick - delta_tick)) <= s
            &&& -s <= 2 * (m.tick_upper - (pool.tick + delta_tick)) <= s
            &&& m.tick_lower as int % s == 0 && m.tick_upper as int % s == 0
            &&& m.recipient == recipient
            &&& m.deadline.value() == now + 600
        }),
{
    let m = mint_of(cfg, pool, prices, usd_amount, delta_tick, recipient, now);
    law_position_is_centered(pool, delta_tick);
    law_minted_ticks_are_usable(pool, delta_tick);
    lemma_kept(m.amount0_desired.lo, cfg.wallet.slippage_bps);
    lemma_kept(m.amount1_desired.lo, cfg.wallet.slippage_bps);
}

/// Liquidity is taken out of the position that is named, all of it, at no less of each
/// token than the tolerance leaves of what it stands for in that token.
pub proof fn law_decrease_is_bounded(
    cfg: AppConfig,
    token_id: u64,
    liquidity: u128,
    sqrt_price_x96: U256,
    sqrt_lower: Double,
    sqrt_upper: Double,
    now: u64,
)
    requires
        cfg.wallet.slippage_bps < 10_000,
        ({
            let held = amounts_of(liquidity, sqrt_ratio(sqrt_price_x96), sqrt_lower, sqrt_upper);
            usual(held.0) && usual(held.1)
        }),
    ensures
        ({
            let held = amounts_of(liquidity, sqrt_ratio(sqrt_price_x96), sqrt_lower, sqrt_upper);
            let r = decrease_of(
                cfg,
                token_id,
                liquidity,
                sqrt_price_x96,
                sqrt_lower,
                sqrt_upper,
                now,
            );
            let bps = cfg.wallet.slippage_bps;
            &&& r.token_id.value() == token_id
            &&& r.liquidity == liquidity
            &&& kept_of(r.amount0_min, held.0.size(), one_units(), bps)
            &&& kept_of(r.amount1_min, held.1.size(), one_units(), bps)
            &&& r.deadline.value() == now + 600
        }),
{
    let held = amounts_of(liquidity, sqrt_ratio(sqrt_price_x96), sqrt_lower, sqrt_upper);
    law_estimated_minimum_keeps_its_part(held.0, cfg.wallet.slippage_bps);
    law_estimated_minimum_keeps_its_part(held.1, cfg.wallet.slippage_bps);
}

/// A swap puts in all of the amount, comes out in its owner's hands at no less than the
/// tolerance leaves of the quote, at any price that allows for that, and is preceded by an
/// approval of the amount exactly where the allowance is too small.
pub proof fn law_swap_is_bounded(
    cfg: AppConfig,
    token_in: Address,
    token_out: Address,
    fee: u32,
    amount_in: U256,
    owner: Address,
    expected_out: U256,
    allowance: U256,
)
    requires
        cfg.wallet.slippage_bps < 10_000,
        expected_out.hi == 0,
    ensures
        ({
            let r = order_of(
                cfg,
                token_in,
                token_out,
                fee,
                amount_in,
                owner,
                expected_out,
                allowance,
            );
            &&& r.params.token_in == token_in && r.params.token_out == token_out
            &&& r.params.fee == fee && r.params.amount_in == amount_in
            &&& r.params.recipient == owner
            &&& r.params.sqrt_price_limit_x96.value() == 0
            &&& kept_of(
                r.params.amount_out_minimum,
                expected_out.value(),
                1,
                cfg.wallet.slippage_bps,
            )
            &&& r.approve is Some <==> allowance.value() < amount_in.value()
            &&& r.approve matches Some(a) ==> a == amount_in
        }),
{
    lemma_kept(expected_out.lo, cfg.wallet.slippage_bps);
}

/// After the approval that is asked for, if any, the allowance suffices; none is asked for
/// where it does already, and no more than the amount.
pub proof fn law_approval_suffices(allowance: U256, amount: U256)
    ensures
        ({
            let after = match approval(allowance, amount) {
                Some(a) => a,
                None => allowance,
            };
            &&& after.value() >= amount.value()
            &&& allowance.value() >= amount.value() ==> approval(allowance, amount) is None
            &&& approval(allowance, amount) matches Some(a) ==> a == amount
        }),
{
}

/// The volume window starts no earlier than the pool, and otherwise as many blocks back as
/// is looked at.
pub proof fn law_volume_window_starts_with_the_pool(
    lookback: u64,
    created_block: u64,
    current_block: u64,
)
    requires
        created_block <= current_block,
    ensures
        ({
            let from = first_volume_block(lookback, created_block, current_block);
            &&& created_block <= from <= current_block
            &&& current_block - from <= lookback
            &&& from == created_block || current_block - from == lookback
        }),
{
}

} // verus!
