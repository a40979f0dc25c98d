//! Shared data types.
use vstd::prelude::*;
use vstd::string::*;

use crate::address::Address;
use crate::double::Double;

verus! {

#[derive(Debug, Clone, Copy, PartialEq, Eq, Structural)]
pub struct PoolInfo {
    pub address: Address,
    pub token0: Address,
    pub token1: Address,
    pub fee: u32,
    pub created_block: u64,
    pub created_timestamp: u64,
}

#[derive(Debug, Clone)]
pub struct PoolMetrics {
    pub token0_symbol: String,
    pub token1_symbol: String,
    /// None means "could not be priced": neither side is WETH or the stablecoin.
    pub tvl_usd: Option<Double>,
    pub volume_24h_usd: Option<Double>,
    pub apr_percent: Option<Double>,
    pub age_hours: Double,
    pub token0_verified: Option<bool>,
    pub token1_verified: Option<bool>,
    /// Result of the buy-then-sell simulation on the non-reference token.
    pub honeypot_sellable: Option<bool>,
    pub honeypot_round_trip_loss_percent: Option<Double>,
    /// Fully diluted market cap: total supply times price.
    pub market_cap_usd: Option<Double>,
    /// Distinct swap recipients in the volume window.
    pub unique_traders_24h: Option<u64>,
    pub holder_count: Option<u64>,
    pub top10_holder_pct: Option<Double>,
    pub dev_holding_pct: Option<Double>,
    pub buy_tax_percent: Option<Double>,
    pub sell_tax_percent: Option<Double>,
    pub is_mintable: Option<bool>,
    pub ownership_renounced: Option<bool>,
    pub is_honeypot_goplus: Option<bool>,
    pub is_blacklistable: Option<bool>,
    pub transfer_pausable: Option<bool>,
    /// Percent of LP locked; None means "couldn't verify".
    pub lp_locked_pct: Option<Double>,
    /// Overall GeckoTerminal trust score, 0-100.
    pub gt_score: Option<Double>,
    pub gt_score_pool: Option<Double>,
    pub gt_score_transaction: Option<Double>,
    pub gt_score_creation: Option<Double>,
    pub gt_score_info: Option<Double>,
    pub gt_score_holders: Option<Double>,
    pub gt_verified: Option<bool>,
    pub gecko_is_honeypot: Option<bool>,
    pub gecko_mint_authority: Option<String>,
    pub gecko_freeze_authority: Option<String>,
    pub gecko_developer_address: Option<String>,
    pub gecko_developer_holding_pct: Option<Double>,
    pub gecko_holder_count: Option<u64>,
    pub gecko_top10_holder_pct: Option<Double>,
}

#[derive(Debug, Clone)]
pub struct PoolCandidate {
    pub info: PoolInfo,
    pub metrics: PoolMetrics,
}

#[derive(Debug, Clone)]
pub struct ScreenResult {
    pub candidate: PoolCandidate,
    pub passed: bool,
    /// Why the pool passed or failed, in words.
    pub reasons: Vec<String>,
}

/// An LP position, tracked from mint until close; `token_id` is its NFT's.
#[derive(Debug)]
pub struct Position {
    pub token_id: u64,
    pub pool_address: Address,
    pub pool_created_block: u64,
    pub token0: Address,
    pub token1: Address,
    pub token0_symbol: String,
    pub token1_symbol: String,
    pub fee: u32,
    pub tick_lower: i32,
    pub tick_upper: i32,
    pub entry_cost_usd: Double,
    pub entry_timestamp: u64,
    pub mint_tx_hash: String,
    pub closed: bool,
}

impl Clone for Position {
    fn clone(&self) -> (r: Position)
        ensures
            r == *self,
    {
        Position {
            token_id: self.token_id,
            pool_address: self.pool_address,
            pool_created_block: self.pool_created_block,
            token0: self.token0,
            token1: self.token1,
            token0_symbol: self.token0_symbol.clone(),
            token1_symbol: self.token1_symbol.clone(),
            fee: self.fee,
            tick_lower: self.tick_lower,
            tick_upper: self.tick_upper,
            entry_cost_usd: self.entry_cost_usd,
            entry_timestamp: self.entry_timestamp,
            mint_tx_hash: self.mint_tx_hash.clone(),
            closed: self.closed,
        }
    }
}

/// A point-in-time PnL snapshot of an open position.
#[derive(Debug, Clone, Copy, PartialEq, Eq, Structural)]
pub struct PositionPnl {
    pub current_value_usd: Double,
    pub uncollected_fees_usd: Double,
    pub pnl_usd: Double,
    pub pnl_percent: Double,
    pub in_range: bool,
}

#[derive(Debug, Clone, Copy, PartialEq, Eq, Structural)]
pub struct VolumeSpike {
    pub recent_volume_usd: Double,
    pub previous_volume_usd: Double,
    pub ratio: Double,
}

} // verus!
