use robinhood_lp_bot::address::Address;
use robinhood_lp_bot::config::{
    AppConfig, ChainConfig, MonitoringConfig, ScreeningConfig, TelegramConfig, WalletConfig,
};
use robinhood_lp_bot::double::Double;
use robinhood_lp_bot::config::{is_placeholder, is_placeholder_given, ConfigError};

#[allow(dead_code)]
fn d(x: f64) -> Double {
    Double { bits: x.to_bits() }
}

#[allow(dead_code)]
fn f(x: Double) -> f64 {
    f64::from_bits(x.bits)
}

#[allow(dead_code)]
fn address(n: u128) -> Address {
    Address { hi: 0, lo: n }
}

#[allow(dead_code)]
fn config() -> AppConfig {
    let text = |n: u128| address(n).text();
    AppConfig {
        chain: ChainConfig {
            rpc_url: "http://localhost".to_string(),
            chain_id: 4663,
            uniswap_v3_factory: text(1),
            position_manager: text(2),
            weth_address: text(3),
            usdc_address: text(4),
            factory_deployment_block: 77,
            blockscout_api_base: "https://scan.example/api/".to_string(),
            explorer_base_url: "https://scan.example//".to_string(),
            swap_router: text(5),
            quoter_v2: text(6),
        },
        wallet: WalletConfig {
            private_key: "key".to_string(),
            default_lp_usd_amount: d(50.0),
            slippage_bps: 100,
            tick_range_percent: d(20.0),
        },
        screening: ScreeningConfig {
            enabled: true,
            min_tvl_usd: d(10_000.0),
            min_volume_24h_usd: d(5_000.0),
            min_apr_percent: d(20.0),
            max_apr_percent: d(2_000.0),
            min_pool_age_hours: d(1.0),
            require_verified_tokens: true,
            max_honeypot_loss_percent: d(10.0),
            honeypot_test_amount_usd: d(10.0),
            poll_interval_secs: 30,
            lookback_blocks_for_volume: 1_000,
            min_holder_count: 100,
            min_unique_traders_24h: 10,
            max_top10_holder_pct: d(40.0),
            max_dev_holding_pct: d(5.0),
            max_buy_tax_percent: d(5.0),
            max_sell_tax_percent: d(5.0),
            require_not_mintable: true,
            require_ownership_renounced: false,
            require_not_blacklistable: true,
            min_lp_locked_pct: d(0.0),
            require_goplus_data: false,
            hide_goplus: false,
            min_gt_score: d(0.0),
            require_gt_verified: false,
            gecko_network_id: " robinhood ".to_string(),
            hide_geckoterminal: false,
        },
        monitoring: MonitoringConfig {
            take_profit_percent: d(25.0),
            stop_loss_percent: d(15.0),
            position_check_interval_secs: 60,
            volume_spike_multiplier: d(3.0),
            volume_spike_window_hours: d(1.0),
            approx_blocks_per_hour: 100,
        },
        telegram: TelegramConfig { bot_token: "token".to_string(), chat_id: 42 },
        dextools_api_key: "".to_string(),
    }
}

#[test]
fn a_complete_configuration_is_valid() {
    assert!(config().validate().is_ok());
    assert!(AppConfig::load(config()).is_ok());
}

#[test]
fn each_fault_is_reported() {
    let zero = "0x0000000000000000000000000000000000000000".to_string();
    let mut c = config();
    c.chain.uniswap_v3_factory = zero.clone();
    assert_eq!(c.validate(), Err(ConfigError::FactoryNotSet));
    let mut c = config();
    c.chain.uniswap_v3_factory = "TODO: look it up".to_string();
    assert_eq!(c.validate(), Err(ConfigError::FactoryNotSet));
    let mut c = config();
    c.chain.position_manager = "  ".to_string();
    assert_eq!(c.validate(), Err(ConfigError::PositionManagerNotSet));
    let mut c = config();
    c.chain.uniswap_v3_factory = "0x12".to_string();
    assert_eq!(c.validate(), Err(ConfigError::InvalidFactory));
    let mut c = config();
    c.chain.position_manager = "nonsense".to_string();
    assert_eq!(c.validate(), Err(ConfigError::InvalidPositionManager));
    let mut c = config();
    c.chain.weth_address = "".to_string();
    assert_eq!(c.validate(), Err(ConfigError::InvalidWeth));
    let mut c = config();
    c.chain.usdc_address = "x".to_string();
    assert_eq!(c.validate(), Err(ConfigError::InvalidUsdc));
    let mut c = config();
    c.chain.swap_router = "x".to_string();
    assert_eq!(c.validate(), Err(ConfigError::InvalidSwapRouter));
    let mut c = config();
    c.chain.quoter_v2 = "x".to_string();
    assert_eq!(c.validate(), Err(ConfigError::InvalidQuoter));
    let mut c = config();
    c.wallet.private_key = " ".to_string();
    assert_eq!(c.validate(), Err(ConfigError::PrivateKeyNotSet));
    let mut c = config();
    c.telegram.bot_token = "".to_string();
    assert_eq!(c.validate(), Err(ConfigError::BotTokenNotSet));
    assert_eq!(AppConfig::load(c).err(), Some(ConfigError::BotTokenNotSet));
}

#[test]
fn errors_are_put_in_words() {
    assert_eq!(ConfigError::PrivateKeyNotSet.text(), "wallet.private_key is not set");
    assert_eq!(ConfigError::InvalidQuoter.text(), "invalid quoter_v2 address");
}

#[test]
fn placeholders_are_recognised() {
    assert!(is_placeholder("ToDo"));
    assert!(!is_placeholder("0x1"));
    assert!(is_placeholder_given("ToDo", "todo"));
    assert!(!is_placeholder_given("ToDo", "ToDo"));
}

#[test]
fn reference_assets_are_read() {
    let refs = config().references().unwrap();
    assert_eq!(refs.weth, address(3));
    assert_eq!(refs.usdg, address(4));
    let mut c = config();
    c.chain.usdc_address = "x".to_string();
    assert!(c.references().is_none());
}
