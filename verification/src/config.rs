//! The configuration and its validation.
use vstd::prelude::*;
use vstd::string::*;

use crate::address::{parse_address, parsed_address, Address};
use crate::double::Double;
use crate::text::{contains, contains_text, lowercase, to_lowercase, trim, trimmed};

verus! {

#[derive(Debug, Clone)]
pub struct ChainConfig {
    pub rpc_url: String,
    pub chain_id: u64,
    /// Uniswap V3 factory contract address.
    pub uniswap_v3_factory: String,
    /// NonfungiblePositionManager contract address of the same deployment.
    pub position_manager: String,
    pub weth_address: String,
    /// The "$1 reference asset" that pools are priced against: USDG on Robinhood
    /// Chain.
    pub usdc_address: String,
    /// Block the factory was deployed at, where a first scan starts.
    pub factory_deployment_block: u64,
    pub blockscout_api_base: String,
    /// Explorer base URL, for transaction links.
    pub explorer_base_url: String,
    /// Uniswap SwapRouter02, which swaps the proceeds of a closed position.
    pub swap_router: String,
    /// Uniswap QuoterV2, which quotes a swap's expected output.
    pub quoter_v2: String,
}

#[derive(Debug, Clone)]
pub struct WalletConfig {
    /// Private key of a dedicated hot wallet.
    pub private_key: String,
    pub default_lp_usd_amount: Double,
    pub slippage_bps: u64,
    pub tick_range_percent: Double,
}

#[derive(Debug, Clone)]
pub struct ScreeningConfig {
    pub enabled: bool,
    pub min_tvl_usd: Double,
    pub min_volume_24h_usd: Double,
    pub min_apr_percent: Double,
    pub max_apr_percent: Double,
    pub min_pool_age_hours: Double,
    pub require_verified_tokens: bool,
    /// Reject a pool whose simulated buy-then-sell round trip loses more.
    pub max_honeypot_loss_percent: Double,
    /// Size of that simulated buy.
    pub honeypot_test_amount_usd: Double,
    pub poll_interval_secs: u64,
    pub lookback_blocks_for_volume: u64,
    pub min_holder_count: u64,
    pub min_unique_traders_24h: u64,
    /// Fail if the top 10 holders hold more than this percent of supply.
    pub max_top10_holder_pct: Double,
    /// Fail if the creator's own holdings exceed this percent.
    pub max_dev_holding_pct: Double,
    pub max_buy_tax_percent: Double,
    pub max_sell_tax_percent: Double,
    pub require_not_mintable: bool,
    pub require_ownership_renounced: bool,
    /// Fail if the contract is blacklist-capable or transfer-pausable.
    pub require_not_blacklistable: bool,
    /// Minimum percent of locked LP; 0 disables the check.
    pub min_lp_locked_pct: Double,
    /// Whether missing GoPlus data fails the checks that need it, rather than
    /// skipping them.
    pub require_goplus_data: bool,
    /// Neither fetch nor mention GoPlus.
    pub hide_goplus: bool,
    /// Minimum gt_score (0-100); 0 disables the check.
    pub min_gt_score: Double,
    pub require_gt_verified: bool,
    /// GeckoTerminal network to query; empty skips GeckoTerminal.
    pub gecko_network_id: String,
    /// Neither fetch nor mention GeckoTerminal.
    pub hide_geckoterminal: bool,
}

#[derive(Debug, Clone)]
pub struct TelegramConfig {
    pub bot_token: String,
    pub chat_id: i64,
}

#[derive(Debug, Clone)]
pub struct MonitoringConfig {
    pub take_profit_percent: Double,
    pub stop_loss_percent: Double,
    pub position_check_interval_secs: u64,
    /// Alert when recent volume is at least this many times the previous window's.
    pub volume_spike_multiplier: Double,
    pub volume_spike_window_hours: Double,
    pub approx_blocks_per_hour: u64,
}

#[derive(Debug, Clone)]
pub struct AppConfig {
    pub chain: ChainConfig,
    pub wallet: WalletConfig,
    pub screening: ScreeningConfig,
    pub monitoring: MonitoringConfig,
    pub telegram: TelegramConfig,
    /// DEXTools API key; empty disables the `/dextools_top10` command.
    pub dextools_api_key: String,
}

/// The two assets that pools are priced against.
#[derive(Debug, Clone, Copy, PartialEq, Eq, Structural)]
pub struct References {
    pub weth: Address,
    pub usdg: Address,
}

/// What is wrong with a configuration.
#[derive(Debug, Clone, Copy, PartialEq, Eq, Structural)]
pub enum ConfigError {
    FactoryNotSet,
    PositionManagerNotSet,
    InvalidFactory,
    InvalidPositionManager,
    InvalidWeth,
    InvalidUsdc,
    InvalidSwapRouter,
    InvalidQuoter,
    PrivateKeyNotSet,
    BotTokenNotSet,
}

impl ConfigError {
    pub open spec fn message(self) -> Seq<char> {
        match self {
            ConfigError::FactoryNotSet => "chain.uniswap_v3_factory is not set. Look up the AMM factory address on robinhoodchain.blockscout.com or the Robinhood Chain developer docs and put it in config.toml."@,
            ConfigError::PositionManagerNotSet => "chain.position_manager is not set. Same source as the factory address."@,
            ConfigError::InvalidFactory => "invalid uniswap_v3_factory address"@,
            ConfigError::InvalidPositionManager => "invalid position_manager address"@,
            ConfigError::InvalidWeth => "invalid weth_address"@,
            ConfigError::InvalidUsdc => "invalid usdc_address"@,
            ConfigError::InvalidSwapRouter => "invalid swap_router address"@,
            ConfigError::InvalidQuoter => "invalid quoter_v2 address"@,
            ConfigError::PrivateKeyNotSet => "wallet.private_key is not set"@,
            ConfigError::BotTokenNotSet => "telegram.bot_token is not set"@,
        }
    }

    /// The error in words.
    pub fn text(self) -> (r: String)
        ensures
            r@ == self.message(),
    {
        match self {
            ConfigError::FactoryNotSet => String::from_str("chain.uniswap_v3_factory is not set. Look up the AMM factory address on robinhoodchain.blockscout.com or the Robinhood Chain developer docs and put it in config.toml."),
            ConfigError::PositionManagerNotSet => String::from_str("chain.position_manager is not set. Same source as the factory address."),
            ConfigError::InvalidFactory => String::from_str("invalid uniswap_v3_factory address"),
            ConfigError::InvalidPositionManager => String::from_str("invalid position_manager address"),
            ConfigError::InvalidWeth => String::from_str("invalid weth_address"),
            ConfigError::InvalidUsdc => String::from_str("invalid usdc_address"),
            ConfigError::InvalidSwapRouter => String::from_str("invalid swap_router address"),
            ConfigError::InvalidQuoter => String::from_str("invalid quoter_v2 address"),
            ConfigError::PrivateKeyNotSet => String::from_str("wallet.private_key is not set"),
            ConfigError::BotTokenNotSet => String::from_str("telegram.bot_token is not set"),
        }
    }
}

/// Whether `s`, which is `lowered` in lower case, stands for a value that was not
/// filled in.
pub open spec fn placeholder_given(s: Seq<char>, lowered: Seq<char>) -> bool {
    ||| trimmed(s).len() == 0
    ||| contains_text(s, "0x0000000000000000000000000000000000000000"@)
    ||| contains_text(lowered, "todo"@)
}

/// Whether `s`, which is `lowered` in lower case, stands for a value that was not
/// filled in: it is blank, it holds the zero address, or it says "todo".
pub fn is_placeholder_given(s: &str, lowered: &str) -> (r: bool)
    ensures
        r == placeholder_given(s@, lowered@),
{
    trim(s).as_str().is_empty() || contains(s, "0x0000000000000000000000000000000000000000") || contains(
        lowered,
        "todo",
    )
}

/// Whether `s` stands for a value that was not filled in.
pub open spec fn placeholder(s: Seq<char>) -> bool {
    placeholder_given(s, lowercase(s))
}

/// Whether `s` stands for a value that was not filled in.
pub fn is_placeholder(s: &str) -> (r: bool)
    ensures
        r == placeholder(s@),
{
    is_placeholder_given(s, to_lowercase(s).as_str())
}

/// The first thing wrong with a configuration, given whether its two contract
/// addresses were filled in.
pub open spec fn config_error(cfg: AppConfig, factory_set: bool, manager_set: bool) -> Option<
    ConfigError,
> {
    if !factory_set {
        Some(ConfigError::FactoryNotSet)
    } else if !manager_set {
        Some(ConfigError::PositionManagerNotSet)
    } else if parsed_address(cfg.chain.uniswap_v3_factory@) is None {
        Some(ConfigError::InvalidFactory)
    } else if parsed_address(cfg.chain.position_manager@) is None {
        Some(ConfigError::InvalidPositionManager)
    } else if parsed_address(cfg.chain.weth_address@) is None {
        Some(ConfigError::InvalidWeth)
    } else if parsed_address(cfg.chain.usdc_address@) is None {
        Some(ConfigError::InvalidUsdc)
    } else if parsed_address(cfg.chain.swap_router@) is None {
        Some(ConfigError::InvalidSwapRouter)
    } else if parsed_address(cfg.chain.quoter_v2@) is None {
        Some(ConfigError::InvalidQuoter)
    } else if trimmed(cfg.wallet.private_key@).len() == 0 {
        Some(ConfigError::PrivateKeyNotSet)
    } else if trimmed(cfg.telegram.bot_token@).len() == 0 {
        Some(ConfigError::BotTokenNotSet)
    } else {
        None
    }
}

/// Whether a validation found the given error, or none.
pub open spec fn reports(r: Result<(), ConfigError>, error: Option<ConfigError>) -> bool {
    match error {
        Some(e) => r == Err::<(), ConfigError>(e),
        None => r is Ok,
    }
}

impl AppConfig {
    /// The rest of the validation, once it is known whether the factory and the
    /// position manager were filled in.
    pub fn validate_given(&self, factory_set: bool, manager_set: bool) -> (r: Result<
        (),
        ConfigError,
    >)
        ensures
            reports(r, config_error(*self, factory_set, manager_set)),
    {
        if !factory_set {
            Err(ConfigError::FactoryNotSet)
        } else if !manager_set {
            Err(ConfigError::PositionManagerNotSet)
        } else if parse_address(self.chain.uniswap_v3_factory.as_str()).is_none() {
            Err(ConfigError::InvalidFactory)
        } else if parse_address(self.chain.position_manager.as_str()).is_none() {
            Err(ConfigError::InvalidPositionManager)
        } else if parse_address(self.chain.weth_address.as_str()).is_none() {
            Err(ConfigError::InvalidWeth)
        } else if parse_address(self.chain.usdc_address.as_str()).is_none() {
            Err(ConfigError::InvalidUsdc)
        } else if parse_address(self.chain.swap_router.as_str()).is_none() {
            Err(ConfigError::InvalidSwapRouter)
        } else if parse_address(self.chain.quoter_v2.as_str()).is_none() {
            Err(ConfigError::InvalidQuoter)
        } else if trim(self.wallet.private_key.as_str()).as_str().is_empty() {
            Err(ConfigError::PrivateKeyNotSet)
        } else if trim(self.telegram.bot_token.as_str()).as_str().is_empty() {
            Err(ConfigError::BotTokenNotSet)
        } else {
            Ok(())
        }
    }

    /// The first thing wrong with this configuration, if any.
    pub fn validate(&self) -> (r: Result<(), ConfigError>)
        ensures
            reports(
                r,
                config_error(
                    *self,
                    !placeholder(self.chain.uniswap_v3_factory@),
                    !placeholder(self.chain.position_manager@),
                ),
            ),
    {
        let factory_set: bool = !is_placeholder(self.chain.uniswap_v3_factory.as_str());
        let manager_set: bool = !is_placeholder(self.chain.position_manager.as_str());
        self.validate_given(factory_set, manager_set)
    }

    /// A configuration as it was read, if nothing is wrong with it.
    pub fn load(parsed: AppConfig) -> (r: Result<AppConfig, ConfigError>)
        ensures
            match config_error(
                parsed,
                !placeholder(parsed.chain.uniswap_v3_factory@),
                !placeholder(parsed.chain.position_manager@),
            ) {
                Some(e) => r == Err::<AppConfig, ConfigError>(e),
                None => r == Ok::<AppConfig, ConfigError>(parsed),
            },
    {
        match parsed.validate() {
            Ok(()) => Ok(parsed),
            Err(e) => Err(e),
        }
    }

    /// WETH and the "$1 reference asset", if both addresses can be read.
    pub open spec fn reference_assets(self) -> Option<References> {
        match (parsed_address(self.chain.weth_address@), parsed_address(self.chain.usdc_address@)) {
            (Some(weth), Some(usdg)) => Some(References { weth, usdg }),
            _ => None,
        }
    }

    /// WETH and the "$1 reference asset", if both addresses can be read.
    pub fn references(&self) -> (r: Option<References>)
        ensures
            r == self.reference_assets(),
    {
        match (
            parse_address(self.chain.weth_address.as_str()),
            parse_address(self.chain.usdc_address.as_str()),
        ) {
            (Some(weth), Some(usdg)) => Some(References { weth, usdg }),
            _ => None,
        }
    }
}

/// Every contract address of a valid configuration can be read.
pub proof fn law_valid_addresses_are_readable(cfg: AppConfig, factory_set: bool, manager_set: bool)
    requires
        config_error(cfg, factory_set, manager_set) is None,
    ensures
        parsed_address(cfg.chain.uniswap_v3_factory@) is Some,
        parsed_address(cfg.chain.position_manager@) is Some,
        parsed_address(cfg.chain.swap_router@) is Some,
        parsed_address(cfg.chain.quoter_v2@) is Some,
        cfg.reference_assets() is Some,
{
}

/// A configuration is valid exactly if its two main contracts are filled in, every
/// contract address can be read, and neither the private key nor the bot token is blank.
pub proof fn law_valid_exactly_if_complete(cfg: AppConfig, factory_set: bool, manager_set: bool)
    ensures
        config_error(cfg, factory_set, manager_set) is None <==> {
            &&& factory_set
            &&& manager_set
            &&& parsed_address(cfg.chain.uniswap_v3_factory@) is Some
            &&& parsed_address(cfg.chain.position_manager@) is Some
            &&& parsed_address(cfg.chain.weth_address@) is Some
            &&& parsed_address(cfg.chain.usdc_address@) is Some
            &&& parsed_address(cfg.chain.swap_router@) is Some
            &&& parsed_address(cfg.chain.quoter_v2@) is Some
            &&& trimmed(cfg.wallet.private_key@).len() > 0
            &&& trimmed(cfg.telegram.bot_token@).len() > 0
        },
{
}

/// The reference assets are WETH and the "$1 reference asset", each under its own
/// address.
pub proof fn law_references_by_name(cfg: AppConfig, weth: Address, usdg: Address)
    requires
        parsed_address(cfg.chain.weth_address@) == Some(weth),
        parsed_address(cfg.chain.usdc_address@) == Some(usdg),
    ensures
        cfg.reference_assets() is Some,
        cfg.reference_assets()->0.weth == weth,
        cfg.reference_assets()->0.usdg == usdg,
{
}

} // verus!
