use robinhood_lp_bot::address::Address;
use robinhood_lp_bot::config::{
    AppConfig, ChainConfig, MonitoringConfig, ScreeningConfig, TelegramConfig, WalletConfig,
};
use robinhood_lp_bot::double::Double;
use robinhood_lp_bot::models::{PoolCandidate, PoolInfo, PoolMetrics, ScreenResult};
use robinhood_lp_bot::screener::screen;

#[allow(dead_code)]
fn d(x: f64) -> Double {
    Double { bits: x.to_bits() }
}

#[allow(dead_code)]
fn f(x: Double) -> f64 {
    f64::from_bits(x.bits)
}

#[allow(dead_code)]
fn address(n: u128) -> Address {
    Address { hi: 0, lo: n }
}

#[allow(dead_code)]
fn config() -> AppConfig {
    let text = |n: u128| address(n).text();
    AppConfig {
        chain: ChainConfig {
            rpc_url: "http://localhost".to_string(),
            chain_id: 4663,
            uniswap_v3_factory: text(1),
            position_manager: text(2),
            weth_address: text(3),
            usdc_address: text(4),
            factory_deployment_block: 77,
            blockscout_api_base: "https://scan.example/api/".to_string(),
            explorer_base_url: "https://scan.example//".to_string(),
            swap_router: text(5),
            quoter_v2: text(6),
        },
        wallet: WalletConfig {
            private_key: "key".to_string(),
            default_lp_usd_amount: d(50.0),
            slippage_bps: 100,
            tick_range_percent: d(20.0),
        },
        screening: ScreeningConfig {
            enabled: true,
            min_tvl_usd: d(10_000.0),
            min_volume_24h_usd: d(5_000.0),
            min_apr_percent: d(20.0),
            max_apr_percent: d(2_000.0),
            min_pool_age_hours: d(1.0),
            require_verified_tokens: true,
            max_honeypot_loss_percent: d(10.0),
            honeypot_test_amount_usd: d(10.0),
            poll_interval_secs: 30,
            lookback_blocks_for_volume: 1_000,
            min_holder_count: 100,
            min_unique_traders_24h: 10,
            max_top10_holder_pct: d(40.0),
            max_dev_holding_pct: d(5.0),
            max_buy_tax_percent: d(5.0),
            max_sell_tax_percent: d(5.0),
            require_not_mintable: true,
            require_ownership_renounced: false,
            require_not_blacklistable: true,
            min_lp_locked_pct: d(0.0),
            require_goplus_data: false,
            hide_goplus: false,
            min_gt_score: d(0.0),
            require_gt_verified: false,
            gecko_network_id: " robinhood ".to_string(),
            hide_geckoterminal: false,
        },
        monitoring: MonitoringConfig {
            take_profit_percent: d(25.0),
            stop_loss_percent: d(15.0),
            position_check_interval_secs: 60,
            volume_spike_multiplier: d(3.0),
            volume_spike_window_hours: d(1.0),
            approx_blocks_per_hour: 100,
        },
        telegram: TelegramConfig { bot_token: "token".to_string(), chat_id: 42 },
        dextools_api_key: "".to_string(),
    }
}

fn metrics() -> PoolMetrics {
    PoolMetrics {
        token0_symbol: "ABC".to_string(),
        token1_symbol: "WETH".to_string(),
        tvl_usd: Some(d(50_000.0)),
        volume_24h_usd: Some(d(20_000.0)),
        apr_percent: Some(d(43.8)),
        age_hours: d(5.25),
        token0_verified: Some(true),
        token1_verified: Some(true),
        honeypot_sellable: Some(true),
        honeypot_round_trip_loss_percent: Some(d(1.2)),
        market_cap_usd: Some(d(1_000_000.0)),
        unique_traders_24h: Some(40),
        holder_count: Some(500),
        top10_holder_pct: Some(d(20.0)),
        dev_holding_pct: Some(d(1.0)),
        buy_tax_percent: Some(d(1.0)),
        sell_tax_percent: Some(d(2.0)),
        is_mintable: Some(false),
        ownership_renounced: Some(true),
        is_honeypot_goplus: Some(false),
        is_blacklistable: Some(false),
        transfer_pausable: Some(false),
        lp_locked_pct: Some(d(90.0)),
        gt_score: Some(d(80.0)),
        gt_score_pool: None,
        gt_score_transaction: None,
        gt_score_creation: None,
        gt_score_info: None,
        gt_score_holders: None,
        gt_verified: Some(true),
        gecko_is_honeypot: Some(false),
        gecko_mint_authority: None,
        gecko_freeze_authority: None,
        gecko_developer_address: None,
        gecko_developer_holding_pct: None,
        gecko_holder_count: None,
        gecko_top10_holder_pct: None,
    }
}

fn info() -> PoolInfo {
    PoolInfo {
        address: address(0xAB),
        token0: address(8),
        token1: address(3),
        fee: 3000,
        created_block: 10,
        created_timestamp: 100,
    }
}

fn run(m: PoolMetrics, c: &AppConfig) -> ScreenResult {
    screen(PoolCandidate { info: info(), metrics: m }, &c.screening)
}

fn fails(change: fn(&mut PoolMetrics)) -> ScreenResult {
    let mut m = metrics();
    change(&mut m);
    let r = run(m, &config());
    assert!(!r.passed);
    r
}

#[test]
fn a_good_pool_passes() {
    let r = run(metrics(), &config());
    assert!(r.passed);
    assert!(r.reasons.contains(&"TVL $50000 >= min $10000".to_string()));
    assert_eq!(r.candidate.metrics.token0_symbol, "ABC");
}

#[test]
fn unpriceable_pools_fail() {
    let r = fails(|m| m.tvl_usd = None);
    assert!(r.reasons.contains(&"TVL unpriceable (neither side is WETH/USDC)".to_string()));
    fails(|m| m.volume_24h_usd = None);
    fails(|m| m.apr_percent = None);
}

#[test]
fn each_threshold_is_applied() {
    let r = fails(|m| m.tvl_usd = Some(d(9_999.0)));
    assert!(r.reasons.contains(&"TVL $9999 below min $10000".to_string()));
    fails(|m| m.volume_24h_usd = Some(d(4_999.0)));
    fails(|m| m.apr_percent = Some(d(19.9)));
    fails(|m| m.apr_percent = Some(d(2_000.1)));
    fails(|m| m.age_hours = d(0.9));
    fails(|m| m.token1_verified = None);
    fails(|m| m.honeypot_sellable = Some(false));
    fails(|m| m.honeypot_sellable = None);
    fails(|m| m.honeypot_round_trip_loss_percent = Some(d(10.1)));
    fails(|m| m.honeypot_round_trip_loss_percent = None);
    fails(|m| m.is_honeypot_goplus = Some(true));
    fails(|m| m.gecko_is_honeypot = Some(true));
    fails(|m| m.holder_count = Some(99));
    fails(|m| m.unique_traders_24h = Some(9));
    fails(|m| m.top10_holder_pct = Some(d(40.1)));
    fails(|m| m.dev_holding_pct = Some(d(5.1)));
    fails(|m| m.buy_tax_percent = Some(d(5.1)));
    fails(|m| m.sell_tax_percent = Some(d(5.1)));
    fails(|m| m.is_mintable = Some(true));
    fails(|m| m.is_blacklistable = Some(true));
    fails(|m| m.transfer_pausable = Some(true));
}

#[test]
fn a_value_that_is_not_a_number_meets_no_threshold() {
    fails(|m| m.tvl_usd = Some(d(f64::NAN)));
    fails(|m| m.age_hours = d(f64::NAN));
}

fn without_security(m: &mut PoolMetrics) {
    m.holder_count = None;
    m.unique_traders_24h = None;
    m.top10_holder_pct = None;
    m.dev_holding_pct = None;
    m.buy_tax_percent = None;
    m.sell_tax_percent = None;
    m.is_mintable = None;
    m.ownership_renounced = None;
    m.is_blacklistable = None;
    m.transfer_pausable = None;
    m.lp_locked_pct = None;
}

#[test]
fn missing_security_data_is_skipped_unless_required() {
    let mut m = metrics();
    without_security(&mut m);
    let mut c = config();
    assert!(run(m, &c).passed);
    c.screening.require_goplus_data = true;
    let mut m = metrics();
    without_security(&mut m);
    assert!(!run(m, &c).passed);
}

#[test]
fn a_hidden_service_is_not_mentioned() {
    let mut c = config();
    c.screening.hide_goplus = true;
    c.screening.require_goplus_data = true;
    let mut m = metrics();
    without_security(&mut m);
    m.is_honeypot_goplus = Some(true);
    let r = run(m, &c);
    assert!(r.passed);
    assert!(r.reasons.iter().all(|t| !t.contains("GoPlus")));
    c.screening.hide_geckoterminal = true;
    c.screening.min_gt_score = d(99.0);
    let mut m = metrics();
    m.gecko_is_honeypot = Some(true);
    let r = run(m, &c);
    assert!(r.passed);
    assert!(r.reasons.iter().all(|t| !t.contains("gt_score")));
    c.screening.hide_goplus = false;
    c.screening.require_gt_verified = true;
    let mut scored = metrics();
    scored.gt_score = Some(d(1.0));
    scored.gt_verified = Some(false);
    scored.gecko_is_honeypot = Some(true);
    let with_scores = run(scored, &c);
    assert!(with_scores.reasons.iter().all(|t| !t.contains("GeckoTerminal")));
    assert_eq!(with_scores.reasons, run(metrics(), &c).reasons);
}

#[test]
fn scores_and_locks_are_checked_only_above_zero() {
    let mut c = config();
    let mut m = metrics();
    m.gt_score = None;
    m.lp_locked_pct = Some(d(0.0));
    assert!(run(m, &c).passed);
    c.screening.min_gt_score = d(90.0);
    assert!(!run(metrics(), &c).passed);
    c.screening.min_gt_score = d(70.0);
    assert!(run(metrics(), &c).passed);
    c.screening.min_lp_locked_pct = d(95.0);
    assert!(!run(metrics(), &c).passed);
}
