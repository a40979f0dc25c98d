//! Adding liquidity and closing positions.
use vstd::prelude::*;
use vstd::string::*;

use crate::address::{Address, U256};
use crate::chain::autoswap::{FailedLeg, SwapResult};
use crate::chain::position::{amounts_for_liquidity, amounts_of};
use crate::chain::pricing::{price_1_per_0, price_of_0_in_1, sqrt_ratio, sqrt_ratio_of};
use crate::chain::slippage::{least_of, least_out, minimum_of, minimum_out};
use crate::chain::ticks::{
    fee_to_tick_spacing, nearest_usable_tick, tick_spacing, usable_tick,
};
use crate::config::AppConfig;
use crate::double::{clamped_part, less, product_of, quotient_of, sum_of, Double};
use crate::numbers::{HUNDRED, TWO};
use crate::order::{power_of_ten, ten_to, ONE};
use crate::text::{trim_end_slashes, without_slashes};

verus! {

/// How long a transaction stays valid, in seconds.
pub const DEADLINE_SECS: u64 = 600;

/// A position that was opened.
#[derive(Debug)]
pub struct LpResult {
    pub tx_hash: String,
    pub explorer_tx_url: String,
    pub token_id: Option<u64>,
    pub token0: Address,
    pub token1: Address,
    pub fee: u32,
    pub tick_lower: i32,
    pub tick_upper: i32,
}

/// A position that was closed, with what became of its proceeds.
#[derive(Debug)]
pub struct CloseResult {
    pub tx_hash: String,
    pub explorer_tx_url: String,
    pub swaps: Vec<SwapResult>,
    pub failed_legs: Vec<FailedLeg>,
}

/// The moment, in seconds, up to which a transaction is valid.
pub fn deadline_in(now: u64, secs: u64) -> (r: U256)
    requires
        now + secs <= u64::MAX,
    ensures
        r == U256::of((now + secs) as u128),
{
    U256::from_u128((now + secs) as u128)
}

/// A pool's tokens, fee tier and price.
#[derive(Debug, Clone, Copy, PartialEq, Eq, Structural)]
pub struct PoolState {
    pub token0: Address,
    pub token1: Address,
    pub fee: u32,
    pub sqrt_price_x96: U256,
    pub tick: i32,
    pub decimals0: u8,
    pub decimals1: u8,
}

/// A position to mint.
#[derive(Debug, Clone, Copy, PartialEq, Eq, Structural)]
pub struct MintParams {
    pub token0: Address,
    pub token1: Address,
    pub fee: u32,
    pub tick_lower: i32,
    pub tick_upper: i32,
    pub amount0_desired: U256,
    pub amount1_desired: U256,
    pub amount0_min: U256,
    pub amount1_min: U256,
    pub recipient: Address,
    pub deadline: U256,
}

/// The price ratio between a position's upper end and the current price.
pub open spec fn range_ratio_of(cfg: AppConfig) -> Double {
    sum_of(
        Double { bits: ONE },
        quotient_of(cfg.wallet.tick_range_percent, Double { bits: HUNDRED }),
    )
}

/// The price ratio between a position's upper end and the current price, whose
/// logarithm to base 1.0001 is the distance in ticks.
pub fn range_ratio(cfg: &AppConfig) -> (r: Double)
    ensures
        r == range_ratio_of(*cfg),
{
    (Double { bits: ONE }).plus(cfg.wallet.tick_range_percent.over(Double { bits: HUNDRED }))
}

/// Whether a token's USD price is one to divide by.
pub open spec fn usable_price(price: Double) -> bool {
    price.finite() && less(Double { bits: 0 }, price)
}

fn is_usable_price(price: Double) -> (r: bool)
    ensures
        r == usable_price(price),
{
    price.is_finite() && (Double { bits: 0 }).less_than(price)
}

/// Whether both of a pool's tokens have prices to size a position by.
pub open spec fn sizable(prices: Option<(Double, Double)>) -> bool {
    prices matches Some(both) && usable_price(both.0) && usable_price(both.1)
}

/// An amount of whole tokens in smallest units.
pub open spec fn in_units(amount: Double, decimals: u8) -> u128 {
    clamped_part(product_of(amount, ten_to(decimals as int)), u128::MAX as nat) as u128
}

fn to_units(amount: Double, decimals: u8) -> (r: u128)
    ensures
        r == in_units(amount, decimals),
{
    amount.times(power_of_ten(decimals as i32)).to_u128()
}

/// What a position of `usd` takes of a pool's two tokens, in smallest units: half of it
/// in each at their USD prices. Where they have none, half of it counted as token0,
/// with as much token1 as the pool's own price makes of that.
pub open spec fn wanted_of(usd: Double, pool: PoolState, prices: Option<(Double, Double)>) -> (
    u128,
    u128,
) {
    let half = quotient_of(usd, Double { bits: TWO });
    if sizable(prices) {
        let both = prices->0;
        (
            in_units(quotient_of(half, both.0), pool.decimals0),
            in_units(quotient_of(half, both.1), pool.decimals1),
        )
    } else {
        let price = price_of_0_in_1(pool.sqrt_price_x96, pool.decimals0, pool.decimals1);
        (in_units(half, pool.decimals0), in_units(product_of(half, price), pool.decimals1))
    }
}

/// What a position of `usd` takes of a pool's two tokens, in smallest units.
pub fn wanted_amounts(usd: Double, pool: PoolState, prices: Option<(Double, Double)>) -> (r: (
    u128,
    u128,
))
    requires
        pool.sqrt_price_x96.hi == 0,
    ensures
        r == wanted_of(usd, pool, prices),
{
    let half = usd.over(Double { bits: TWO });
    match prices {
        Some((price0, price1)) => if is_usable_price(price0) && is_usable_price(price1) {
            return (
                to_units(half.over(price0), pool.decimals0),
                to_units(half.over(price1), pool.decimals1),
            );
        },
        None => {},
    }
    let price = price_1_per_0(pool.sqrt_price_x96, pool.decimals0, pool.decimals1);
    (to_units(half, pool.decimals0), to_units(half.times(price), pool.decimals1))
}

pub open spec fn lower_end(pool: PoolState, delta_tick: i32) -> int {
    usable_tick(pool.tick - delta_tick, tick_spacing(pool.fee))
}

pub open spec fn upper_end(pool: PoolState, delta_tick: i32) -> int {
    usable_tick(pool.tick + delta_tick, tick_spacing(pool.fee))
}

/// Whether a position of half-width `delta_tick` can be written in 32-bit ticks.
pub open spec fn ticks_fit(pool: PoolState, delta_tick: i32) -> bool {
    &&& i32::MIN <= pool.tick - delta_tick <= i32::MAX
    &&& i32::MIN <= pool.tick + delta_tick <= i32::MAX
    &&& i32::MIN <= lower_end(pool, delta_tick) <= i32::MAX
    &&& i32::MIN <= upper_end(pool, delta_tick) <= i32::MAX
}

/// The position to mint for `usd_amount`.
pub open spec fn mint_of(
    cfg: AppConfig,
    pool: PoolState,
    prices: Option<(Double, Double)>,
    usd_amount: Double,
    delta_tick: i32,
    recipient: Address,
    now: u64,
) -> MintParams {
    let wanted = wanted_of(usd_amount, pool, prices);
    MintParams {
        token0: pool.token0,
        token1: pool.token1,
        fee: pool.fee,
        tick_lower: lower_end(pool, delta_tick) as i32,
        tick_upper: upper_end(pool, delta_tick) as i32,
        amount0_desired: U256::of(wanted.0),
        amount1_desired: U256::of(wanted.1),
        amount0_min: U256::of(least_out(wanted.0, cfg.wallet.slippage_bps)),
        amount1_min: U256::of(least_out(wanted.1, cfg.wallet.slippage_bps)),
        recipient,
        deadline: U256::of((now + DEADLINE_SECS) as u128),
    }
}

/// The position to mint for `usd_amount`, half of it in each token, `delta_tick` ticks
/// to either side of the current one.
pub fn add_liquidity(
    cfg: &AppConfig,
    pool: PoolState,
    prices: Option<(Double, Double)>,
    usd_amount: Double,
    delta_tick: i32,
    recipient: Address,
    now: u64,
) -> (r: MintParams)
    requires
        pool.sqrt_price_x96.hi == 0,
        ticks_fit(pool, delta_tick),
        now + DEADLINE_SECS <= u64::MAX,
    ensures
        r.token0 == pool.token0,
        r.token1 == pool.token1,
        r.fee == pool.fee,
        r.tick_lower == lower_end(pool, delta_tick),
        r.tick_upper == upper_end(pool, delta_tick),
        r.amount0_desired == U256::of(wanted_of(usd_amount, pool, prices).0),
        r.amount1_desired == U256::of(wanted_of(usd_amount, pool, prices).1),
        r.amount0_min == U256::of(
            least_out(wanted_of(usd_amount, pool, prices).0, cfg.wallet.slippage_bps),
        ),
        r.amount1_min == U256::of(
            least_out(wanted_of(usd_amount, pool, prices).1, cfg.wallet.slippage_bps),
        ),
        r.recipient == recipient,
        r.deadline == U256::of((now + DEADLINE_SECS) as u128),
        r == mint_of(*cfg, pool, prices, usd_amount, delta_tick, recipient, now),
{
    let (amount0, amount1) = wanted_amounts(usd_amount, pool, prices);
    let spacing: i32 = fee_to_tick_spacing(pool.fee);
    MintParams {
        token0: pool.token0,
        token1: pool.token1,
        fee: pool.fee,
        tick_lower: nearest_usable_tick(pool.tick - delta_tick, spacing),
        tick_upper: nearest_usable_tick(pool.tick + delta_tick, spacing),
        amount0_desired: U256::from_u128(amount0),
        amount1_desired: U256::from_u128(amount1),
        amount0_min: U256::from_u128(minimum_out(amount0, cfg.wallet.slippage_bps)),
        amount1_min: U256::from_u128(minimum_out(amount1, cfg.wallet.slippage_bps)),
        recipient,
        deadline: deadline_in(now, DEADLINE_SECS),
    }
}

/// The ticks of a position to mint lie on the pool's grid.
pub proof fn law_minted_ticks_are_usable(pool: PoolState, delta_tick: i32)
    requires
        ticks_fit(pool, delta_tick),
    ensures
        lower_end(pool, delta_tick) % tick_spacing(pool.fee) == 0,
        upper_end(pool, delta_tick) % tick_spacing(pool.fee) == 0,
{
    let s = tick_spacing(pool.fee);
    crate::chain::ticks::law_usable_tick_is_near((pool.tick - delta_tick) as i32, s as i32);
    crate::chain::ticks::law_usable_tick_is_near((pool.tick + delta_tick) as i32, s as i32);
}

pub open spec fn approval(allowance: U256, amount: U256) -> Option<U256> {
    if allowance.value() >= amount.value() {
        None
    } else {
        Some(amount)
    }
}

/// The approval to ask for before `amount` can be pulled, if the allowance does not
/// suffice.
pub fn approve_if_needed(allowance: U256, amount: U256) -> (r: Option<U256>)
    ensures
        r == (if allowance.value() >= amount.value() {
            None
        } else {
            Some(amount)
        }),
        r == approval(allowance, amount),
{
    if allowance.less_than(amount) {
        Some(amount)
    } else {
        None
    }
}

/// The first log of a contract that says something.
pub open spec fn said_by<T>(contract: Address, logs: Seq<(Address, Option<T>)>, from: nat) -> Option<T>
    decreases logs.len() - from,
{
    if from >= logs.len() {
        None
    } else if logs[from as int].0 == contract && logs[from as int].1 is Some {
        logs[from as int].1
    } else {
        said_by(contract, logs, from + 1)
    }
}

/// What a receipt's logs say: the first log of `contract` that could be decoded.
pub fn first_decoded<T: Copy>(contract: Address, logs: &Vec<(Address, Option<T>)>) -> (r: Option<T>)
    ensures
        r == said_by(contract, logs@, 0),
{
    let mut i: usize = 0;
    while i < logs.len()
        invariant
            i <= logs@.len(),
            said_by(contract, logs@, 0) == said_by(contract, logs@, i as nat),
        decreases logs@.len() - i,
    {
        let log = logs[i];
        if log.0 == contract {
            match log.1 {
                Some(v) => {
                    return Some(v);
                },
                None => {},
            }
        }
        i = i + 1;
    }
    None
}

/// Where the explorer shows a transaction.
pub open spec fn explorer_url(cfg: AppConfig, tx_hash: Seq<char>) -> Seq<char> {
    without_slashes(cfg.chain.explorer_base_url@) + "/tx/"@ + tx_hash
}

/// Where the explorer shows a transaction.
pub fn explorer_tx_url(cfg: &AppConfig, tx_hash: &str) -> (r: String)
    ensures
        r@ == explorer_url(*cfg, tx_hash@),
{
    let mut url = trim_end_slashes(cfg.chain.explorer_base_url.as_str());
    url.append("/tx/");
    url.append(tx_hash);
    url
}

/// The position that a mint transaction opened.
pub fn minted(
    cfg: &AppConfig,
    params: MintParams,
    tx_hash: String,
    manager: Address,
    logs: &Vec<(Address, Option<u64>)>,
) -> (r: LpResult)
    ensures
        r.tx_hash@ == tx_hash@,
        r.explorer_tx_url@ == explorer_url(*cfg, tx_hash@),
        r.token_id == said_by(manager, logs@, 0),
        r.token0 == params.token0,
        r.token1 == params.token1,
        r.fee == params.fee,
        r.tick_lower == params.tick_lower,
        r.tick_upper == params.tick_upper,
{
    let explorer_tx_url = explorer_tx_url(cfg, tx_hash.as_str());
    LpResult {
        tx_hash,
        explorer_tx_url,
        token_id: first_decoded(manager, logs),
        token0: params.token0,
        token1: params.token1,
        fee: params.fee,
        tick_lower: params.tick_lower,
        tick_upper: params.tick_upper,
    }
}

/// Liquidity to take out of a position.
#[derive(Debug, Clone, Copy, PartialEq, Eq, Structural)]
pub struct DecreaseLiquidityParams {
    pub token_id: U256,
    pub liquidity: u128,
    pub amount0_min: U256,
    pub amount1_min: U256,
    pub deadline: U256,
}

/// All liquidity of a position, to be taken out.
pub open spec fn decrease_of(
    cfg: AppConfig,
    token_id: u64,
    liquidity: u128,
    sqrt_price_x96: U256,
    sqrt_lower: Double,
    sqrt_upper: Double,
    now: u64,
) -> DecreaseLiquidityParams {
    let expected = amounts_of(liquidity, sqrt_ratio(sqrt_price_x96), sqrt_lower, sqrt_upper);
    DecreaseLiquidityParams {
        token_id: U256::of(token_id as u128),
        liquidity,
        amount0_min: U256::of(least_of(expected.0, cfg.wallet.slippage_bps)),
        amount1_min: U256::of(least_of(expected.1, cfg.wallet.slippage_bps)),
        deadline: U256::of((now + DEADLINE_SECS) as u128),
    }
}

/// All liquidity of a position, paid out at no less than the slippage tolerance
/// allows of what it stands for at the current price.
pub fn decrease_params(
    cfg: &AppConfig,
    token_id: u64,
    liquidity: u128,
    sqrt_price_x96: U256,
    sqrt_lower: Double,
    sqrt_upper: Double,
    now: u64,
) -> (r: DecreaseLiquidityParams)
    requires
        sqrt_price_x96.hi == 0,
        now + DEADLINE_SECS <= u64::MAX,
    ensures
        r.token_id == U256::of(token_id as u128),
        r.liquidity == liquidity,
        ({
            let expected = amounts_of(liquidity, sqrt_ratio(sqrt_price_x96), sqrt_lower, sqrt_upper);
            r.amount0_min == U256::of(least_of(expected.0, cfg.wallet.slippage_bps))
                && r.amount1_min == U256::of(least_of(expected.1, cfg.wallet.slippage_bps))
        }),
        r.deadline == U256::of((now + DEADLINE_SECS) as u128),
        r == decrease_of(
            *cfg,
            token_id,
            liquidity,
            sqrt_price_x96,
            sqrt_lower,
            sqrt_upper,
            now,
        ),
{
    let sqrt_p = sqrt_ratio_of(sqrt_price_x96);
    let (expected0, expected1) = amounts_for_liquidity(liquidity, sqrt_p, sqrt_lower, sqrt_upper);
    DecreaseLiquidityParams {
        token_id: U256::from_u128(token_id as u128),
        liquidity,
        amount0_min: U256::from_u128(minimum_of(expected0, cfg.wallet.slippage_bps)),
        amount1_min: U256::from_u128(minimum_of(expected1, cfg.wallet.slippage_bps)),
        deadline: deadline_in(now, DEADLINE_SECS),
    }
}

/// What to collect from a position.
#[derive(Debug, Clone, Copy, PartialEq, Eq, Structural)]
pub struct CollectParams {
    pub token_id: U256,
    pub recipient: Address,
    pub amount0_max: u128,
    pub amount1_max: u128,
}

/// Everything that a position owes.
pub fn collect_params(token_id: u64, recipient: Address) -> (r: CollectParams)
    ensures
        r == (CollectParams {
            token_id: U256::of(token_id as u128),
            recipient,
            amount0_max: u128::MAX,
            amount1_max: u128::MAX,
        }),
{
    CollectParams {
        token_id: U256::from_u128(token_id as u128),
        recipient,
        amount0_max: u128::MAX,
        amount1_max: u128::MAX,
    }
}

/// The amounts of both tokens that a collect transaction moved to the wallet, by its
/// logs; none where they do not tell.
pub fn collected(manager: Address, logs: &Vec<(Address, Option<(U256, U256)>)>) -> (r: (U256, U256))
    ensures
        r == (match said_by(manager, logs@, 0) {
            Some(amounts) => amounts,
            None => (U256::of(0), U256::of(0)),
        }),
{
    match first_decoded(manager, logs) {
        Some(amounts) => amounts,
        None => (U256::from_u128(0), U256::from_u128(0)),
    }
}

/// How far the closing of a position is.
#[derive(Debug, Clone, Copy)]
pub struct CloseProgress {
    /// The position's liquidity before anything was done.
    pub liquidity: u128,
    pub price_known: bool,
    pub decreased: bool,
    /// What was collected of both tokens.
    pub collected: Option<(U256, U256)>,
    pub swapped: bool,
    pub burned: bool,
}

/// What closing a position comes to next.
#[derive(Debug, Clone, Copy, PartialEq, Eq, Structural)]
pub enum CloseStep {
    ReadPrice,
    Decrease,
    Collect,
    /// Swap the proceeds.
    Swap { amount0: U256, amount1: U256 },
    /// Burn the empty position; whether that succeeds does not matter.
    Burn,
    Done,
}

pub open spec fn close_step(p: CloseProgress) -> CloseStep {
    if p.liquidity > 0 && !p.decreased {
        if p.price_known {
            CloseStep::Decrease
        } else {
            CloseStep::ReadPrice
        }
    } else {
        match p.collected {
            None => CloseStep::Collect,
            Some((amount0, amount1)) => if !p.swapped && (amount0.value() > 0 || amount1.value()
                > 0) {
                CloseStep::Swap { amount0, amount1 }
            } else if !p.burned {
                CloseStep::Burn
            } else {
                CloseStep::Done
            },
        }
    }
}

/// The next step of closing a position: take out its liquidity, if it has any,
/// collect what it owes, swap that, and burn it.
pub fn close_position(p: CloseProgress) -> (r: CloseStep)
    ensures
        r == close_step(p),
{
    if p.liquidity > 0 && !p.decreased {
        if p.price_known {
            CloseStep::Decrease
        } else {
            CloseStep::ReadPrice
        }
    } else {
        match p.collected {
            None => CloseStep::Collect,
            Some((amount0, amount1)) => if !p.swapped && !(amount0.is_zero() && amount1.is_zero()) {
                CloseStep::Swap { amount0, amount1 }
            } else if !p.burned {
                CloseStep::Burn
            } else {
                CloseStep::Done
            },
        }
    }
}

/// A position that was closed.
pub fn closed(
    cfg: &AppConfig,
    tx_hash: String,
    swaps: Vec<SwapResult>,
    failed_legs: Vec<FailedLeg>,
) -> (r: CloseResult)
    ensures
        r.tx_hash@ == tx_hash@,
        r.explorer_tx_url@ == explorer_url(*cfg, tx_hash@),
        r.swaps == swaps,
        r.failed_legs == failed_legs,
{
    let explorer_tx_url = explorer_tx_url(cfg, tx_hash.as_str());
    CloseResult { tx_hash, explorer_tx_url, swaps, failed_legs }
}

/// Nothing is swapped or burned before everything was collected, nothing is collected
/// while there is liquidity left, and nothing is taken out before the price that the
/// minimum amounts rest on is known.
pub proof fn law_funds_are_out_before_swapping(p: CloseProgress)
    ensures
        close_step(p) is Swap || close_step(p) is Burn || close_step(p) is Done ==> p.collected
            is Some && (p.liquidity == 0 || p.decreased),
        close_step(p) is Collect ==> p.liquidity == 0 || p.decreased,
        close_step(p) is Decrease ==> p.price_known,
{
}

/// Closing takes no step twice: once a step is noted as done, it is not asked for
/// again.
pub proof fn law_close_advances(p: CloseProgress, amounts: (U256, U256))
    ensures
        close_step(p) is ReadPrice ==> close_step(CloseProgress { price_known: true, ..p })
            is Decrease,
        close_step(p) is Decrease ==> close_step(CloseProgress { decreased: true, ..p }) !is Decrease
            && close_step(CloseProgress { decreased: true, ..p }) !is ReadPrice,
        close_step(p) is Collect ==> close_step(CloseProgress { collected: Some(amounts), ..p })
            !is Collect,
        close_step(p) is Swap ==> close_step(CloseProgress { swapped: true, ..p }) !is Swap,
        close_step(p) is Burn ==> close_step(CloseProgress { burned: true, ..p }) is Done,
{
}

/// What was collected is swapped: while that has not happened, the next step is to swap
/// exactly these amounts whenever at least one of the two is above zero, and nothing is
/// burned before. With nothing collected there is nothing to swap.
pub proof fn law_proceeds_are_swapped(p: CloseProgress, amount0: U256, amount1: U256)
    requires
        p.liquidity == 0 || p.decreased,
        p.collected == Some((amount0, amount1)),
    ensures
        !p.swapped && amount0.value() > 0 ==> close_step(p) == (CloseStep::Swap {
            amount0,
            amount1,
        }),
        !p.swapped && amount1.value() > 0 ==> close_step(p) == (CloseStep::Swap {
            amount0,
            amount1,
        }),
        p.swapped || (amount0.value() == 0 && amount1.value() == 0) ==> close_step(p) !is Swap,
        close_step(p) is Burn || close_step(p) is Done ==> p.swapped || (amount0.value() == 0
            && amount1.value() == 0),
        close_step(p) is Done ==> p.burned,
{
}

/// A position that holds liquidity is closed in this order: its price is read, its
/// liquidity taken out, what it owes collected, the proceeds swapped, the position
/// burned. One without liquidity begins with the collecting.
pub proof fn law_closing_in_order(liquidity: u128, amount0: U256, amount1: U256)
    requires
        amount0.value() > 0 || amount1.value() > 0,
    ensures
        ({
            let begun = CloseProgress {
                liquidity,
                price_known: false,
                decreased: false,
                collected: None,
                swapped: false,
                burned: false,
            };
            let priced = CloseProgress { price_known: true, ..begun };
            let out = CloseProgress { decreased: true, ..priced };
            let collected = CloseProgress { collected: Some((amount0, amount1)), ..out };
            let swapped = CloseProgress { swapped: true, ..collected };
            let burned = CloseProgress { burned: true, ..swapped };
            &&& liquidity > 0 ==> close_step(begun) is ReadPrice && close_step(priced) is Decrease
            &&& liquidity == 0 ==> close_step(begun) is Collect && close_step(priced) is Collect
            &&& close_step(out) is Collect
            &&& close_step(collected) == (CloseStep::Swap { amount0, amount1 })
            &&& close_step(swapped) is Burn
            &&& close_step(burned) is Done
        }),
{
}

/// What a receipt's logs say is what the first log of the contract that could be decoded
/// says: nothing of another contract, and nothing that comes later, is taken.
pub proof fn law_first_log_counts<T>(contract: Address, logs: Seq<(Address, Option<T>)>, from: nat)
    ensures
        match said_by(contract, logs, from) {
            Some(v) => exists|i: int|
                from <= i < logs.len() && (#[trigger] logs[i]).0 == contract && logs[i].1 == Some(v)
                    && forall|j: int|
                    from <= j < i ==> (#[trigger] logs[j]).0 != contract || logs[j].1 is None,
            None => forall|i: int|
                from <= i < logs.len() ==> (#[trigger] logs[i]).0 != contract || logs[i].1 is None,
        },
    decreases logs.len() - from,
{
    if from < logs.len() {
        if logs[from as int].0 == contract && logs[from as int].1 is Some {
            assert(logs[from as int].1 == said_by(contract, logs, from));
        } else {
            law_first_log_counts(contract, logs, from + 1);
            if said_by(contract, logs, from) is Some {
                let v = said_by(contract, logs, from)->0;
                let i = choose|i: int|
                    from + 1 <= i < logs.len() && (#[trigger] logs[i]).0 == contract && logs[i].1
                        == Some(v) && forall|j: int|
                        from + 1 <= j < i ==> (#[trigger] logs[j]).0 != contract || logs[j].1
                            is None;
                assert(logs[i].0 == contract && logs[i].1 == Some(v));
                assert forall|j: int| from <= j < i implies (#[trigger] logs[j]).0 != contract
                    || logs[j].1 is None by {}
            }
        }
    }
}

/// A position's lower end lies within half a tick spacing of `delta_tick` ticks below the
/// current tick, its upper end within half a spacing of as many above.
pub proof fn law_position_is_centered(pool: PoolState, delta_tick: i32)
    requires
        ticks_fit(pool, delta_tick),
    ensures
        -tick_spacing(pool.fee) <= 2 * (lower_end(pool, delta_tick) - (pool.tick - delta_tick))
            <= tick_spacing(pool.fee),
        -tick_spacing(pool.fee) <= 2 * (upper_end(pool, delta_tick) - (pool.tick + delta_tick))
            <= tick_spacing(pool.fee),
{
    let s = tick_spacing(pool.fee);
    crate::chain::ticks::law_usable_tick_is_near((pool.tick - delta_tick) as i32, s as i32);
    crate::chain::ticks::law_usable_tick_is_near((pool.tick + delta_tick) as i32, s as i32);
}

} // verus!
