//! What is known of a pool, put together.
use vstd::prelude::*;
use vstd::string::*;

use crate::address::{Address, U256};
use crate::chain::geckoterminal::GeckoSecurity;
use crate::chain::goplus::GoPlusSecurity;
use crate::chain::volume::VolumeWindow;
use crate::config::{AppConfig, References};
use crate::double::{
    at_most, clamped_part, less, of_nat, product_of, quotient_of, sum_of, Double,
};
use crate::models::{PoolInfo, PoolMetrics};
use crate::numbers::{DAYS_PER_YEAR, HUNDRED, MILLION, SECONDS_PER_HOUR};
use crate::order::{power_of_ten, ten_to};
use crate::text::{same, trim, trimmed};

verus! {

/// The token of a pool that is not a reference asset.
pub open spec fn subject_of(references: References, pool: PoolInfo) -> Option<Address> {
    if pool.token0 != references.weth && pool.token0 != references.usdg {
        Some(pool.token0)
    } else if pool.token1 != references.weth && pool.token1 != references.usdg {
        Some(pool.token1)
    } else {
        None
    }
}

pub open spec fn subject_in(cfg: AppConfig, pool: PoolInfo) -> Option<Address> {
    match cfg.reference_assets() {
        Some(refs) => subject_of(refs, pool),
        None => None,
    }
}

/// The token of a pool that screening is about: the first that is not a reference
/// asset.
pub fn subject_token(cfg: &AppConfig, pool: &PoolInfo) -> (r: Option<Address>)
    ensures
        r == subject_in(*cfg, *pool),
{
    match cfg.references() {
        Some(refs) => if pool.token0 != refs.weth && pool.token0 != refs.usdg {
            Some(pool.token0)
        } else if pool.token1 != refs.weth && pool.token1 != refs.usdg {
            Some(pool.token1)
        } else {
            None
        },
        None => None,
    }
}

/// A buy-then-sell round trip to simulate: `amount_in` of the reference asset.
#[derive(Debug, Clone, Copy, PartialEq, Eq, Structural)]
pub struct HoneypotTest {
    pub token: Address,
    pub reference: Address,
    pub fee: u32,
    pub amount_in: U256,
}

/// The amount of a token that is worth `usd`, in its smallest units.
pub open spec fn raw_amount(usd: Double, price: Double, decimals: u8) -> u128 {
    clamped_part(
        product_of(quotient_of(usd, price), ten_to(decimals as int)),
        u128::MAX as nat,
    ) as u128
}

pub open spec fn honeypot_test(
    cfg: AppConfig,
    pool: PoolInfo,
    decimals0: u8,
    decimals1: u8,
    price0: Double,
    price1: Double,
) -> Option<HoneypotTest> {
    match subject_in(cfg, pool) {
        Some(token) => {
            let of_0 = token == pool.token0;
            let price = if of_0 { price1 } else { price0 };
            let decimals = if of_0 { decimals1 } else { decimals0 };
            let amount = raw_amount(cfg.screening.honeypot_test_amount_usd, price, decimals);
            if at_most(price, Double { bits: 0 }) || amount == 0 {
                None
            } else {
                Some(
                    HoneypotTest {
                        token,
                        reference: if of_0 { pool.token1 } else { pool.token0 },
                        fee: pool.fee,
                        amount_in: U256::of(amount),
                    },
                )
            }
        },
        None => None,
    }
}

/// The round trip that tests a pool's subject token: none where both tokens are
/// reference assets or the amount cannot be sized.
pub fn run_honeypot_check(
    cfg: &AppConfig,
    pool: &PoolInfo,
    decimals0: u8,
    decimals1: u8,
    price0: Double,
    price1: Double,
) -> (r: Option<HoneypotTest>)
    ensures
        r == honeypot_test(*cfg, *pool, decimals0, decimals1, price0, price1),
{
    let token = match subject_token(cfg, pool) {
        Some(t) => t,
        None => {
            return None;
        },
    };
    let of_0: bool = token == pool.token0;
    let (reference, price, decimals) = if of_0 {
        (pool.token1, price1, decimals1)
    } else {
        (pool.token0, price0, decimals0)
    };
    if price.no_more_than(Double { bits: 0 }) {
        return None;
    }
    let amount: u128 = cfg.screening.honeypot_test_amount_usd.over(price).times(
        power_of_ten(decimals as i32),
    ).to_u128();
    if amount == 0 {
        return None;
    }
    Some(HoneypotTest { token, reference, fee: pool.fee, amount_in: U256::from_u128(amount) })
}

pub open spec fn age_of(created_timestamp: u64, now: u64) -> Double {
    if created_timestamp > 0 && now > created_timestamp {
        quotient_of(
            of_nat((now - created_timestamp) as nat),
            Double { bits: SECONDS_PER_HOUR },
        )
    } else {
        Double { bits: 0 }
    }
}

/// A pool's age in hours; none where its creation is not known.
pub fn age_hours(created_timestamp: u64, now: u64) -> (r: Double)
    ensures
        r == age_of(created_timestamp, now),
{
    if created_timestamp > 0 && now > created_timestamp {
        Double::from_u64(now - created_timestamp).over(Double { bits: SECONDS_PER_HOUR })
    } else {
        Double { bits: 0 }
    }
}

/// An amount in whole tokens.
pub open spec fn whole_tokens(amount: U256, decimals: u8) -> Double {
    quotient_of(of_nat(amount.lo as nat), ten_to(decimals as int))
}

fn in_whole_tokens(amount: U256, decimals: u8) -> (r: Double)
    requires
        amount.hi == 0,
    ensures
        r == whole_tokens(amount, decimals),
{
    Double::from_u128(amount.lo).over(power_of_ten(decimals as i32))
}

/// The yearly fees of a pool against its TVL, in percent.
pub open spec fn apr_of(volume: Double, fee: u32, tvl: Double) -> Double {
    if less(Double { bits: 0 }, tvl) {
        product_of(
            product_of(
                quotient_of(
                    product_of(volume, quotient_of(of_nat(fee as nat), Double { bits: MILLION })),
                    tvl,
                ),
                Double { bits: DAYS_PER_YEAR },
            ),
            Double { bits: HUNDRED },
        )
    } else {
        Double { bits: 0 }
    }
}

/// The yearly fees of a pool against its TVL, in percent, from a day's volume.
pub fn fee_apr(volume: Double, fee: u32, tvl: Double) -> (r: Double)
    ensures
        r == apr_of(volume, fee, tvl),
{
    if (Double { bits: 0 }).less_than(tvl) {
        let fraction = Double::from_u64(fee as u64).over(Double { bits: MILLION });
        volume.times(fraction).over(tvl).times(Double { bits: DAYS_PER_YEAR }).times(
            Double { bits: HUNDRED },
        )
    } else {
        Double { bits: 0 }
    }
}

pub open spec fn first_volume_block(lookback: u64, created_block: u64, current_block: u64) -> int {
    if current_block >= lookback && current_block - lookback > created_block {
        current_block - lookback
    } else {
        created_block as int
    }
}

/// The first block of the volume window.
pub fn volume_from_block(cfg: &AppConfig, pool: &PoolInfo, current_block: u64) -> (r: u64)
    ensures
        r == (if current_block >= cfg.screening.lookback_blocks_for_volume && current_block
            - cfg.screening.lookback_blocks_for_volume > pool.created_block {
            current_block - cfg.screening.lookback_blocks_for_volume
        } else {
            pool.created_block as int
        }),
        r == first_volume_block(
            cfg.screening.lookback_blocks_for_volume,
            pool.created_block,
            current_block,
        ),
{
    let from: u64 = current_block.saturating_sub(cfg.screening.lookback_blocks_for_volume);
    if from > pool.created_block {
        from
    } else {
        pool.created_block
    }
}

/// Whether GeckoTerminal is asked.
pub open spec fn gecko_wanted(cfg: AppConfig) -> bool {
    trimmed(cfg.screening.gecko_network_id@).len() > 0 && !cfg.screening.hide_geckoterminal
}

/// The GeckoTerminal network to ask, if it is asked at all.
pub fn gecko_network(cfg: &AppConfig) -> (r: Option<String>)
    ensures
        match r {
            Some(n) => gecko_wanted(*cfg) && n@ == trimmed(cfg.screening.gecko_network_id@),
            None => !gecko_wanted(*cfg),
        },
{
    let network = trim(cfg.screening.gecko_network_id.as_str());
    if network.as_str().is_empty() || cfg.screening.hide_geckoterminal {
        None
    } else {
        Some(network)
    }
}

/// What is read of one token of a pool.
#[derive(Debug)]
pub struct TokenFacts {
    pub symbol: String,
    pub decimals: u8,
    pub verified: Option<bool>,
}

/// What is read of a pool whose tokens have prices.
#[derive(Debug)]
pub struct PricedFacts {
    pub price0: Double,
    pub price1: Double,
    pub balance0: U256,
    pub balance1: U256,
    /// None where the swaps could not be read.
    pub window: Option<VolumeWindow>,
    pub honeypot_sellable: Option<bool>,
    pub honeypot_round_trip_loss_percent: Option<Double>,
    /// Total supply of the subject token.
    pub total_supply: Option<U256>,
    pub gecko: Option<GeckoSecurity>,
    pub goplus: Option<GoPlusSecurity>,
}

/// A pool of which nothing is known but its tokens and its age.
pub open spec fn bare_metrics(
    token0: TokenFacts,
    token1: TokenFacts,
    age_hours: Double,
) -> PoolMetrics {
    PoolMetrics {
        token0_symbol: token0.symbol,
        token1_symbol: token1.symbol,
        tvl_usd: None,
        volume_24h_usd: None,
        apr_percent: None,
        age_hours,
        token0_verified: token0.verified,
        token1_verified: token1.verified,
        honeypot_sellable: None,
        honeypot_round_trip_loss_percent: None,
        market_cap_usd: None,
        unique_traders_24h: None,
        holder_count: None,
        top10_holder_pct: None,
        dev_holding_pct: None,
        buy_tax_percent: None,
        sell_tax_percent: None,
        is_mintable: None,
        ownership_renounced: None,
        is_honeypot_goplus: None,
        is_blacklistable: None,
        transfer_pausable: None,
        lp_locked_pct: None,
        gt_score: None,
        gt_score_pool: None,
        gt_score_transaction: None,
        gt_score_creation: None,
        gt_score_info: None,
        gt_score_holders: None,
        gt_verified: None,
        gecko_is_honeypot: None,
        gecko_mint_authority: None,
        gecko_freeze_authority: None,
        gecko_developer_address: None,
        gecko_developer_holding_pct: None,
        gecko_holder_count: None,
        gecko_top10_holder_pct: None,
    }
}

fn bare(token0: TokenFacts, token1: TokenFacts, age_hours: Double) -> (r: PoolMetrics)
    ensures
        r == bare_metrics(token0, token1, age_hours),
{
    PoolMetrics {
        token0_symbol: token0.symbol,
        token1_symbol: token1.symbol,
        tvl_usd: None,
        volume_24h_usd: None,
        apr_percent: None,
        age_hours,
        token0_verified: token0.verified,
        token1_verified: token1.verified,
        honeypot_sellable: None,
        honeypot_round_trip_loss_percent: None,
        market_cap_usd: None,
        unique_traders_24h: None,
        holder_count: None,
        top10_holder_pct: None,
        dev_holding_pct: None,
        buy_tax_percent: None,
        sell_tax_percent: None,
        is_mintable: None,
        ownership_renounced: None,
        is_honeypot_goplus: None,
        is_blacklistable: None,
        transfer_pausable: None,
        lp_locked_pct: None,
        gt_score: None,
        gt_score_pool: None,
        gt_score_transaction: None,
        gt_score_creation: None,
        gt_score_info: None,
        gt_score_holders: None,
        gt_verified: None,
        gecko_is_honeypot: None,
        gecko_mint_authority: None,
        gecko_freeze_authority: None,
        gecko_developer_address: None,
        gecko_developer_holding_pct: None,
        gecko_holder_count: None,
        gecko_top10_holder_pct: None,
    }
}

/// The account of nobody.
pub open spec fn no_account(a: Seq<char>) -> bool {
    a.len() == 0 || a == "0x0000000000000000000000000000000000000000"@
}

/// Whether an authority over a token is held: not where no account is named for it.
pub open spec fn held(a: Option<String>) -> Option<bool> {
    match a {
        Some(text) => Some(!no_account(text@)),
        None => Some(false),
    }
}

/// Whether a token's ownership is renounced: so also where no developer is named.
pub open spec fn given_up(a: Option<String>) -> Option<bool> {
    match a {
        Some(text) => Some(no_account(text@)),
        None => Some(true),
    }
}

fn is_no_account(a: &str) -> (r: bool)
    ensures
        r == no_account(a@),
{
    a.is_empty() || same(a, "0x0000000000000000000000000000000000000000")
}

fn is_held(a: &Option<String>) -> (r: Option<bool>)
    ensures
        r == held(*a),
{
    match a {
        Some(text) => Some(!is_no_account(text.as_str())),
        None => Some(false),
    }
}

fn is_given_up(a: &Option<String>) -> (r: Option<bool>)
    ensures
        r == given_up(*a),
{
    match a {
        Some(text) => Some(is_no_account(text.as_str())),
        None => Some(true),
    }
}

/// A pool's metrics once GeckoTerminal has told of its subject token.
pub open spec fn with_gecko(m: PoolMetrics, g: GeckoSecurity) -> PoolMetrics {
    PoolMetrics {
        gt_score: g.gt_score,
        gt_score_pool: g.gt_score_pool,
        gt_score_transaction: g.gt_score_transaction,
        gt_score_creation: g.gt_score_creation,
        gt_score_info: g.gt_score_info,
        gt_score_holders: g.gt_score_holders,
        gt_verified: g.gt_verified,
        gecko_is_honeypot: g.is_honeypot,
        gecko_developer_holding_pct: g.developer_holding_pct,
        gecko_holder_count: g.holder_count,
        gecko_top10_holder_pct: g.top10_holder_pct,
        holder_count: g.holder_count,
        top10_holder_pct: g.top10_holder_pct,
        dev_holding_pct: g.developer_holding_pct,
        is_honeypot_goplus: g.is_honeypot,
        is_mintable: held(g.mint_authority),
        is_blacklistable: held(g.freeze_authority),
        ownership_renounced: given_up(g.developer_address),
        gecko_mint_authority: g.mint_authority,
        gecko_freeze_authority: g.freeze_authority,
        gecko_developer_address: g.developer_address,
        ..m
    }
}

/// A pool's metrics once GeckoTerminal has told of its subject token.
pub fn add_gecko(m: PoolMetrics, g: GeckoSecurity) -> (r: PoolMetrics)
    ensures
        r == with_gecko(m, g),
{
    let mut m = m;
    m.gt_score = g.gt_score;
    m.gt_score_pool = g.gt_score_pool;
    m.gt_score_transaction = g.gt_score_transaction;
    m.gt_score_creation = g.gt_score_creation;
    m.gt_score_info = g.gt_score_info;
    m.gt_score_holders = g.gt_score_holders;
    m.gt_verified = g.gt_verified;
    m.gecko_is_honeypot = g.is_honeypot;
    m.gecko_developer_holding_pct = g.developer_holding_pct;
    m.gecko_holder_count = g.holder_count;
    m.gecko_top10_holder_pct = g.top10_holder_pct;
    m.holder_count = g.holder_count;
    m.top10_holder_pct = g.top10_holder_pct;
    m.dev_holding_pct = g.developer_holding_pct;
    m.is_honeypot_goplus = g.is_honeypot;
    m.is_mintable = is_held(&g.mint_authority);
    m.is_blacklistable = is_held(&g.freeze_authority);
    m.ownership_renounced = is_given_up(&g.developer_address);
    m.gecko_mint_authority = g.mint_authority;
    m.gecko_freeze_authority = g.freeze_authority;
    m.gecko_developer_address = g.developer_address;
    m
}

/// The first that is known.
pub open spec fn either<T>(a: Option<T>, b: Option<T>) -> Option<T> {
    match a {
        Some(v) => Some(v),
        None => b,
    }
}

fn first_known<T>(a: Option<T>, b: Option<T>) -> (r: Option<T>)
    ensures
        r == either(a, b),
{
    match a {
        Some(v) => Some(v),
        None => b,
    }
}

/// What holds of a flag that GeckoTerminal and GoPlus both tell of. What
/// GeckoTerminal was seen to say stands; what was only inferred from its naming no
/// account yields to GoPlus's own analysis, where there is one.
pub open spec fn settled(named: Option<String>, gecko: Option<bool>, goplus: Option<bool>) -> Option<
    bool,
> {
    if named is Some {
        either(gecko, goplus)
    } else {
        either(goplus, gecko)
    }
}

fn settle(named: &Option<String>, gecko: Option<bool>, goplus: Option<bool>) -> (r: Option<bool>)
    ensures
        r == settled(*named, gecko, goplus),
{
    if named.is_some() {
        first_known(gecko, goplus)
    } else {
        first_known(goplus, gecko)
    }
}

/// A pool's metrics once GoPlus has told of its subject token: everything where
/// GeckoTerminal said nothing, else only what GeckoTerminal left unknown or what was
/// inferred from its silence.
pub open spec fn with_goplus(m: PoolMetrics, s: GoPlusSecurity, gecko_fetched: bool) -> PoolMetrics {
    if !gecko_fetched {
        PoolMetrics {
            holder_count: s.holder_count,
            top10_holder_pct: s.top10_holder_pct,
            dev_holding_pct: s.dev_holding_pct,
            buy_tax_percent: s.buy_tax_percent,
            sell_tax_percent: s.sell_tax_percent,
            is_mintable: s.is_mintable,
            ownership_renounced: s.ownership_renounced,
            is_honeypot_goplus: s.is_honeypot,
            is_blacklistable: s.is_blacklistable,
            transfer_pausable: s.transfer_pausable,
            lp_locked_pct: s.lp_locked_pct,
            ..m
        }
    } else {
        PoolMetrics {
            holder_count: either(m.holder_count, s.holder_count),
            top10_holder_pct: either(m.top10_holder_pct, s.top10_holder_pct),
            dev_holding_pct: either(m.dev_holding_pct, s.dev_holding_pct),
            buy_tax_percent: either(m.buy_tax_percent, s.buy_tax_percent),
            sell_tax_percent: either(m.sell_tax_percent, s.sell_tax_percent),
            is_honeypot_goplus: either(m.is_honeypot_goplus, s.is_honeypot),
            lp_locked_pct: either(m.lp_locked_pct, s.lp_locked_pct),
            transfer_pausable: either(m.transfer_pausable, s.transfer_pausable),
            is_mintable: settled(m.gecko_mint_authority, m.is_mintable, s.is_mintable),
            is_blacklistable: settled(
                m.gecko_freeze_authority,
                m.is_blacklistable,
                s.is_blacklistable,
            ),
            ownership_renounced: settled(
                m.gecko_developer_address,
                m.ownership_renounced,
                s.ownership_renounced,
            ),
            ..m
        }
    }
}

/// A pool's metrics once GoPlus has told of its subject token.
pub fn add_goplus(m: PoolMetrics, s: GoPlusSecurity, gecko_fetched: bool) -> (r: PoolMetrics)
    ensures
        r == with_goplus(m, s, gecko_fetched),
{
    let mut m = m;
    if !gecko_fetched {
        m.holder_count = s.holder_count;
        m.top10_holder_pct = s.top10_holder_pct;
        m.dev_holding_pct = s.dev_holding_pct;
        m.buy_tax_percent = s.buy_tax_percent;
        m.sell_tax_percent = s.sell_tax_percent;
        m.is_mintable = s.is_mintable;
        m.ownership_renounced = s.ownership_renounced;
        m.is_honeypot_goplus = s.is_honeypot;
        m.is_blacklistable = s.is_blacklistable;
        m.transfer_pausable = s.transfer_pausable;
        m.lp_locked_pct = s.lp_locked_pct;
    } else {
        m.holder_count = first_known(m.holder_count, s.holder_count);
        m.top10_holder_pct = first_known(m.top10_holder_pct, s.top10_holder_pct);
        m.dev_holding_pct = first_known(m.dev_holding_pct, s.dev_holding_pct);
        m.buy_tax_percent = first_known(m.buy_tax_percent, s.buy_tax_percent);
        m.sell_tax_percent = first_known(m.sell_tax_percent, s.sell_tax_percent);
        m.is_honeypot_goplus = first_known(m.is_honeypot_goplus, s.is_honeypot);
        m.lp_locked_pct = first_known(m.lp_locked_pct, s.lp_locked_pct);
        m.transfer_pausable = first_known(m.transfer_pausable, s.transfer_pausable);
        m.is_mintable = settle(&m.gecko_mint_authority, m.is_mintable, s.is_mintable);
        m.is_blacklistable = settle(
            &m.gecko_freeze_authority,
            m.is_blacklistable,
            s.is_blacklistable,
        );
        m.ownership_renounced = settle(
            &m.gecko_developer_address,
            m.ownership_renounced,
            s.ownership_renounced,
        );
    }
    m
}

/// A pool's metrics with what the two security services say, where they are asked.
pub open spec fn with_security(
    m: PoolMetrics,
    cfg: AppConfig,
    gecko: Option<GeckoSecurity>,
    goplus: Option<GoPlusSecurity>,
) -> PoolMetrics {
    let heard = gecko_wanted(cfg) && gecko is Some;
    let after_gecko = if heard {
        with_gecko(m, gecko->0)
    } else {
        m
    };
    if !cfg.screening.hide_goplus && goplus is Some {
        with_goplus(after_gecko, goplus->0, heard)
    } else {
        after_gecko
    }
}

fn add_security(
    m: PoolMetrics,
    cfg: &AppConfig,
    gecko: Option<GeckoSecurity>,
    goplus: Option<GoPlusSecurity>,
) -> (r: PoolMetrics)
    ensures
        r == with_security(m, *cfg, gecko, goplus),
{
    let mut m = m;
    let mut heard: bool = false;
    if gecko_network(cfg).is_some() {
        match gecko {
            Some(g) => {
                heard = true;
                m = add_gecko(m, g);
            },
            None => {},
        }
    }
    if !cfg.screening.hide_goplus {
        match goplus {
            Some(s) => {
                m = add_goplus(m, s, heard);
            },
            None => {},
        }
    }
    m
}

/// The fully diluted market cap of a pool's subject token, if it can be told.
pub open spec fn market_cap(
    subject: Option<Address>,
    pool: PoolInfo,
    decimals0: u8,
    decimals1: u8,
    f: PricedFacts,
) -> Option<Double> {
    match subject {
        Some(token) => {
            let price = if token == pool.token0 { f.price0 } else { f.price1 };
            let decimals = if token == pool.token0 { decimals0 } else { decimals1 };
            match f.total_supply {
                Some(supply) => if less(Double { bits: 0 }, price) {
                    Some(product_of(whole_tokens(supply, decimals), price))
                } else {
                    None
                },
                None => None,
            }
        },
        None => None,
    }
}

pub open spec fn window_or_none(f: PricedFacts) -> VolumeWindow {
    match f.window {
        Some(w) => w,
        None => VolumeWindow { volume_usd: Double { bits: 0 }, unique_traders: 0 },
    }
}

/// The TVL of a pool.
pub open spec fn tvl_of(decimals0: u8, decimals1: u8, f: PricedFacts) -> Double {
    sum_of(
        product_of(whole_tokens(f.balance0, decimals0), f.price0),
        product_of(whole_tokens(f.balance1, decimals1), f.price1),
    )
}

/// A pool's metrics where its tokens have prices.
pub open spec fn with_prices(
    m: PoolMetrics,
    cfg: AppConfig,
    pool: PoolInfo,
    decimals0: u8,
    decimals1: u8,
    f: PricedFacts,
) -> PoolMetrics {
    let tvl = tvl_of(decimals0, decimals1, f);
    let priced = PoolMetrics {
        tvl_usd: Some(tvl),
        volume_24h_usd: Some(window_or_none(f).volume_usd),
        apr_percent: Some(apr_of(window_or_none(f).volume_usd, pool.fee, tvl)),
        unique_traders_24h: Some(window_or_none(f).unique_traders),
        honeypot_sellable: f.honeypot_sellable,
        honeypot_round_trip_loss_percent: f.honeypot_round_trip_loss_percent,
        market_cap_usd: market_cap(subject_in(cfg, pool), pool, decimals0, decimals1, f),
        ..m
    };
    if subject_in(cfg, pool) is Some {
        with_security(priced, cfg, f.gecko, f.goplus)
    } else {
        priced
    }
}

fn add_prices(
    m: PoolMetrics,
    cfg: &AppConfig,
    pool: &PoolInfo,
    decimals0: u8,
    decimals1: u8,
    f: PricedFacts,
) -> (r: PoolMetrics)
    requires
        f.balance0.hi == 0,
        f.balance1.hi == 0,
        f.total_supply matches Some(s) ==> s.hi == 0,
    ensures
        r == with_prices(m, *cfg, *pool, decimals0, decimals1, f),
{
    let mut m = m;
    let tvl = in_whole_tokens(f.balance0, decimals0).times(f.price0).plus(
        in_whole_tokens(f.balance1, decimals1).times(f.price1),
    );
    let window = match f.window {
        Some(w) => w,
        None => VolumeWindow { volume_usd: Double { bits: 0 }, unique_traders: 0 },
    };
    m.tvl_usd = Some(tvl);
    m.volume_24h_usd = Some(window.volume_usd);
    m.apr_percent = Some(fee_apr(window.volume_usd, pool.fee, tvl));
    m.unique_traders_24h = Some(window.unique_traders);
    m.honeypot_sellable = f.honeypot_sellable;
    m.honeypot_round_trip_loss_percent = f.honeypot_round_trip_loss_percent;
    match subject_token(cfg, pool) {
        Some(token) => {
            let (price, decimals) = if token == pool.token0 {
                (f.price0, decimals0)
            } else {
                (f.price1, decimals1)
            };
            let cap = match f.total_supply {
                Some(supply) => if (Double { bits: 0 }).less_than(price) {
                    Some(in_whole_tokens(supply, decimals).times(price))
                } else {
                    None
                },
                None => None,
            };
            m.market_cap_usd = cap;
            add_security(m, cfg, f.gecko, f.goplus)
        },
        None => {
            m.market_cap_usd = None;
            m
        },
    }
}

/// What is known of a pool, put together.
pub open spec fn metrics_of(
    cfg: AppConfig,
    pool: PoolInfo,
    now: u64,
    token0: TokenFacts,
    token1: TokenFacts,
    priced: Option<PricedFacts>,
) -> PoolMetrics {
    let bare = bare_metrics(token0, token1, age_of(pool.created_timestamp, now));
    match priced {
        Some(f) => with_prices(bare, cfg, pool, token0.decimals, token1.decimals, f),
        None => bare,
    }
}

/// What is known of a pool, put together from what was read of it. What a hidden
/// service said is not looked at.
pub fn compute_metrics(
    cfg: &AppConfig,
    pool: &PoolInfo,
    now: u64,
    token0: TokenFacts,
    token1: TokenFacts,
    priced: Option<PricedFacts>,
) -> (r: PoolMetrics)
    requires
        priced matches Some(f) ==> f.balance0.hi == 0 && f.balance1.hi == 0 && (
        f.total_supply matches Some(s) ==> s.hi == 0),
    ensures
        r == metrics_of(*cfg, *pool, now, token0, token1, priced),
{
    let decimals0: u8 = token0.decimals;
    let decimals1: u8 = token1.decimals;
    let m = bare(token0, token1, age_hours(pool.created_timestamp, now));
    match priced {
        Some(f) => add_prices(m, cfg, pool, decimals0, decimals1, f),
        None => m,
    }
}

/// What a hidden service would have said makes no difference to a pool's metrics.
pub proof fn law_hidden_services_are_not_read(
    m: PoolMetrics,
    cfg: AppConfig,
    gecko1: Option<GeckoSecurity>,
    gecko2: Option<GeckoSecurity>,
    goplus1: Option<GoPlusSecurity>,
    goplus2: Option<GoPlusSecurity>,
)
    requires
        cfg.screening.hide_geckoterminal || gecko1 == gecko2,
        cfg.screening.hide_goplus || goplus1 == goplus2,
    ensures
        with_security(m, cfg, gecko1, goplus1) == with_security(m, cfg, gecko2, goplus2),
{
}

/// Of what only a hidden service tells, a pool's metrics hold nothing: so nothing of it
/// can be shown.
pub proof fn law_hidden_services_leave_no_data(
    cfg: AppConfig,
    pool: PoolInfo,
    now: u64,
    token0: TokenFacts,
    token1: TokenFacts,
    priced: Option<PricedFacts>,
)
    ensures
        cfg.screening.hide_goplus ==> {
            let m = metrics_of(cfg, pool, now, token0, token1, priced);
            &&& m.lp_locked_pct is None
            &&& m.buy_tax_percent is None
            &&& m.sell_tax_percent is None
            &&& m.transfer_pausable is None
        },
        cfg.screening.hide_geckoterminal ==> {
            let m = metrics_of(cfg, pool, now, token0, token1, priced);
            &&& m.gt_score is None
            &&& m.gt_verified is None
            &&& m.gecko_is_honeypot is None
            &&& m.gecko_holder_count is None
            &&& m.gecko_top10_holder_pct is None
            &&& m.gecko_developer_holding_pct is None
        },
{
}

/// Where GeckoTerminal was heard, what it told stands, and GoPlus fills in what it
/// left unknown: the honeypot verdict, the holders, the taxes, the locked liquidity
/// and whether transfers can be paused.
pub proof fn law_goplus_is_a_fallback(m: PoolMetrics, g: GeckoSecurity, s: GoPlusSecurity)
    ensures
        ({
            let r = with_goplus(with_gecko(m, g), s, true);
            &&& r.is_honeypot_goplus == either(g.is_honeypot, s.is_honeypot)
            &&& r.holder_count == either(g.holder_count, s.holder_count)
            &&& r.top10_holder_pct == either(g.top10_holder_pct, s.top10_holder_pct)
            &&& r.dev_holding_pct == either(g.developer_holding_pct, s.dev_holding_pct)
            &&& r.buy_tax_percent == either(m.buy_tax_percent, s.buy_tax_percent)
            &&& r.sell_tax_percent == either(m.sell_tax_percent, s.sell_tax_percent)
            &&& r.lp_locked_pct == either(m.lp_locked_pct, s.lp_locked_pct)
            &&& r.transfer_pausable == either(m.transfer_pausable, s.transfer_pausable)
            &&& g.mint_authority is Some ==> r.is_mintable == held(g.mint_authority)
            &&& g.freeze_authority is Some ==> r.is_blacklistable == held(g.freeze_authority)
            &&& g.developer_address is Some ==> r.ownership_renounced == given_up(
                g.developer_address,
            )
        }),
{
}

/// Where GeckoTerminal was heard but names no account, GoPlus's analysis decides;
/// without one there is no mint authority, no freeze authority and no owner.
pub proof fn law_silence_yields_to_analysis(m: PoolMetrics, g: GeckoSecurity, s: GoPlusSecurity)
    ensures
        g.mint_authority is None ==> with_gecko(m, g).is_mintable == Some(false) && with_goplus(
            with_gecko(m, g),
            s,
            true,
        ).is_mintable == either(s.is_mintable, Some(false)),
        g.freeze_authority is None ==> with_gecko(m, g).is_blacklistable == Some(false)
            && with_goplus(with_gecko(m, g), s, true).is_blacklistable == either(
            s.is_blacklistable,
            Some(false),
        ),
        g.developer_address is None ==> with_gecko(m, g).ownership_renounced == Some(true)
            && with_goplus(with_gecko(m, g), s, true).ownership_renounced == either(
            s.ownership_renounced,
            Some(true),
        ),
{
}

/// GeckoTerminal is heard only where a network to ask is named: without one, what it
/// would have said makes no difference. Where both services are asked and answer, both
/// are heard.
pub proof fn law_gecko_needs_a_network(
    m: PoolMetrics,
    cfg: AppConfig,
    gecko1: Option<GeckoSecurity>,
    gecko2: Option<GeckoSecurity>,
    goplus: Option<GoPlusSecurity>,
)
    ensures
        trimmed(cfg.screening.gecko_network_id@).len() == 0 ==> with_security(
            m,
            cfg,
            gecko1,
            goplus,
        ) == with_security(m, cfg, gecko2, goplus),
        trimmed(cfg.screening.gecko_network_id@).len() > 0 && !cfg.screening.hide_geckoterminal
            && gecko1 is Some ==> with_security(m, cfg, gecko1, goplus).gt_score
            == gecko1->0.gt_score,
        !cfg.screening.hide_goplus && goplus is Some && m.lp_locked_pct is None ==> with_security(
            m,
            cfg,
            gecko1,
            goplus,
        ).lp_locked_pct == goplus->0.lp_locked_pct,
{
}

} // verus!
