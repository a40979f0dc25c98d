use robinhood_lp_bot::address::Address;
use robinhood_lp_bot::config::{
    AppConfig, ChainConfig, MonitoringConfig, ScreeningConfig, TelegramConfig, WalletConfig,
};
use robinhood_lp_bot::double::Double;
use robinhood_lp_bot::address::U256;
use robinhood_lp_bot::chain::honeypot::{
    check_honeypot, loss_percent, HoneypotCheck, HoneypotStep, Quote, QuoteRequest,
};
use robinhood_lp_bot::chain::metrics::{
    age_hours, compute_metrics, fee_apr, gecko_network, run_honeypot_check, subject_token,
    volume_from_block, PricedFacts, TokenFacts,
};
use robinhood_lp_bot::chain::geckoterminal::GeckoSecurity;
use robinhood_lp_bot::chain::goplus::GoPlusSecurity;
use robinhood_lp_bot::chain::pools::{
    created_pool, discover_new_pools, log_chunks, lookup_pool_by_address, BlockRange, PoolCreated,
};
use robinhood_lp_bot::chain::position::{amounts_for_liquidity, compute_pnl, Holdings};
use robinhood_lp_bot::chain::pricing::{
    eth_price_usd, find_pool_fee, known_side, price_pool_tokens, sqrt_price_x96_to_price,
    token_info, FeeSearch, I256,
};
use robinhood_lp_bot::chain::slippage::{minimum_of, minimum_out};
use robinhood_lp_bot::chain::spike::{
    check_volume_spike, min_meaningful_volume_usd, spike_window_blocks, spike_windows,
};
use robinhood_lp_bot::chain::ticks::{fee_to_tick_spacing, nearest_usable_tick};
use robinhood_lp_bot::chain::volume::{estimate_volume_usd, PoolUnits, SwapEvent, VolumeWindow};
use robinhood_lp_bot::models::PoolInfo;

#[allow(dead_code)]
fn d(x: f64) -> Double {
    Double { bits: x.to_bits() }
}

#[allow(dead_code)]
fn f(x: Double) -> f64 {
    f64::from_bits(x.bits)
}

#[allow(dead_code)]
fn address(n: u128) -> Address {
    Address { hi: 0, lo: n }
}

#[allow(dead_code)]
fn config() -> AppConfig {
    let text = |n: u128| address(n).text();
    AppConfig {
        chain: ChainConfig {
            rpc_url: "http://localhost".to_string(),
            chain_id: 4663,
            uniswap_v3_factory: text(1),
            position_manager: text(2),
            weth_address: text(3),
            usdc_address: text(4),
            factory_deployment_block: 77,
            blockscout_api_base: "https://scan.example/api/".to_string(),
            explorer_base_url: "https://scan.example//".to_string(),
            swap_router: text(5),
            quoter_v2: text(6),
        },
        wallet: WalletConfig {
            private_key: "key".to_string(),
            default_lp_usd_amount: d(50.0),
            slippage_bps: 100,
            tick_range_percent: d(20.0),
        },
        screening: ScreeningConfig {
            enabled: true,
            min_tvl_usd: d(10_000.0),
            min_volume_24h_usd: d(5_000.0),
            min_apr_percent: d(20.0),
            max_apr_percent: d(2_000.0),
            min_pool_age_hours: d(1.0),
            require_verified_tokens: true,
            max_honeypot_loss_percent: d(10.0),
            honeypot_test_amount_usd: d(10.0),
            poll_interval_secs: 30,
            lookback_blocks_for_volume: 1_000,
            min_holder_count: 100,
            min_unique_traders_24h: 10,
            max_top10_holder_pct: d(40.0),
            max_dev_holding_pct: d(5.0),
            max_buy_tax_percent: d(5.0),
            max_sell_tax_percent: d(5.0),
            require_not_mintable: true,
            require_ownership_renounced: false,
            require_not_blacklistable: true,
            min_lp_locked_pct: d(0.0),
            require_goplus_data: false,
            hide_goplus: false,
            min_gt_score: d(0.0),
            require_gt_verified: false,
            gecko_network_id: " robinhood ".to_string(),
            hide_geckoterminal: false,
        },
        monitoring: MonitoringConfig {
            take_profit_percent: d(25.0),
            stop_loss_percent: d(15.0),
            position_check_interval_secs: 60,
            volume_spike_multiplier: d(3.0),
            volume_spike_window_hours: d(1.0),
            approx_blocks_per_hour: 100,
        },
        telegram: TelegramConfig { bot_token: "token".to_string(), chat_id: 42 },
        dextools_api_key: "".to_string(),
    }
}

const SQRT: u128 = 3_961_408_125_713_216_879_677_197_516_800;

fn amount(v: u128) -> U256 {
    U256 { hi: 0, lo: v }
}

fn pool() -> PoolInfo {
    PoolInfo {
        address: address(9),
        token0: address(8),
        token1: address(3),
        fee: 3000,
        created_block: 500,
        created_timestamp: 1_000,
    }
}

#[test]
fn tick_spacing_follows_the_fee_tier() {
    for (fee, spacing) in [(100, 1), (500, 10), (3000, 60), (10000, 200), (2500, 60), (0, 60)] {
        assert_eq!(fee_to_tick_spacing(fee), spacing);
    }
}

#[test]
fn ticks_are_rounded_half_away_from_zero() {
    for tick in [-887_272, -91, -90, -89, -31, -30, -29, -1, 0, 1, 29, 30, 31, 89, 90, 91, 887_272] {
        for spacing in [1, 10, 60, 200, -60] {
            let expected = (tick as f64 / spacing as f64).round() as i32 * spacing;
            assert_eq!(nearest_usable_tick(tick, spacing), expected);
        }
    }
    assert_eq!(nearest_usable_tick(12345, 0), 0);
    assert_eq!(nearest_usable_tick(30, 60), 60);
    assert_eq!(nearest_usable_tick(-30, 60), -60);
}

#[test]
fn the_first_existing_tier_is_found() {
    let zero = address(0);
    assert_eq!(find_pool_fee(&vec![]), FeeSearch::Ask { fee: 500 });
    assert_eq!(find_pool_fee(&vec![zero]), FeeSearch::Ask { fee: 3000 });
    assert_eq!(find_pool_fee(&vec![zero, zero]), FeeSearch::Ask { fee: 10000 });
    assert_eq!(find_pool_fee(&vec![zero, zero, zero]), FeeSearch::Ask { fee: 100 });
    assert_eq!(find_pool_fee(&vec![zero, zero, zero, zero]), FeeSearch::NotFound);
    assert_eq!(find_pool_fee(&vec![zero, address(5)]), FeeSearch::Found { fee: 3000 });
    assert_eq!(find_pool_fee(&vec![address(4), address(5)]), FeeSearch::Found { fee: 500 });
}

#[test]
fn square_root_prices_become_prices() {
    let sqrt = SQRT as f64 / 2f64.powi(96);
    let direct = sqrt * sqrt * 10f64.powi(std::hint::black_box(12));
    assert_eq!(sqrt_price_x96_to_price(amount(SQRT), 18, 6, true), d(direct));
    let other = sqrt * sqrt * 10f64.powi(std::hint::black_box(-12));
    assert_eq!(sqrt_price_x96_to_price(amount(SQRT), 6, 18, false), d(1.0 / other));
}

#[test]
fn eth_is_priced_with_the_decimals_of_each_side() {
    let weth = address(3);
    let usdg = address(4);
    assert_eq!(
        eth_price_usd(weth, weth, amount(SQRT)),
        sqrt_price_x96_to_price(amount(SQRT), 18, 6, true)
    );
    assert_eq!(
        eth_price_usd(weth, usdg, amount(SQRT)),
        sqrt_price_x96_to_price(amount(SQRT), 6, 18, false)
    );
    let raw = 2f64.powi(96) * (1e12 / 2500.0f64).sqrt();
    let price = f(eth_price_usd(weth, usdg, amount(raw as u128)));
    assert!((price - 2500.0).abs() < 0.01);
}

#[test]
fn the_known_side_is_weth_before_usdg() {
    let refs = config().references().unwrap();
    let eth = d(3000.0);
    let side = |a: u128, b: u128| known_side(refs, address(a), address(b), eth);
    assert_eq!(side(3, 4).map(|s| (s.is_token0, f(s.price_usd))), Some((true, 3000.0)));
    assert_eq!(side(4, 3).map(|s| (s.is_token0, f(s.price_usd))), Some((false, 3000.0)));
    assert_eq!(side(4, 9).map(|s| (s.is_token0, f(s.price_usd))), Some((true, 1.0)));
    assert_eq!(side(9, 4).map(|s| (s.is_token0, f(s.price_usd))), Some((false, 1.0)));
    assert!(side(8, 9).is_none());
}

#[test]
fn both_sides_of_a_pool_are_priced() {
    let c = config();
    let sqrt = SQRT as f64 / 2f64.powi(96);
    let ratio = sqrt * sqrt * 10f64.powi(std::hint::black_box(0));
    let eth = d(3000.0);
    let (p0, p1) =
        price_pool_tokens(&c, address(8), address(3), 18, 18, eth, Some(amount(SQRT))).unwrap();
    assert_eq!((p0, p1), (d(3000.0 * ratio), eth));
    let (p0, p1) =
        price_pool_tokens(&c, address(4), address(8), 18, 18, eth, Some(amount(SQRT))).unwrap();
    assert_eq!((p0, p1), (d(1.0), d(1.0 / ratio)));
    assert!(price_pool_tokens(&c, address(8), address(9), 18, 18, eth, Some(amount(SQRT))).is_none());
    assert!(price_pool_tokens(&c, address(8), address(3), 18, 18, eth, None).is_none());
    let mut broken = config();
    broken.chain.weth_address = "x".to_string();
    assert!(
        price_pool_tokens(&broken, address(4), address(8), 18, 18, eth, Some(amount(1))).is_none()
    );
}

#[test]
fn unknown_tokens_get_default_names() {
    assert_eq!(token_info(None, None), ("???".to_string(), 18));
    assert_eq!(token_info(Some("ABC".to_string()), Some(6)), ("ABC".to_string(), 6));
}

#[test]
fn blocks_are_cut_into_chunks() {
    let ends = |from, to| -> Vec<(u64, u64)> {
        log_chunks(from, to).iter().map(|r| (r.from, r.to)).collect()
    };
    assert_eq!(ends(10, 9), vec![]);
    assert_eq!(ends(10, 10), vec![(10, 10)]);
    assert_eq!(ends(0, 5_000), vec![(0, 5_000)]);
    assert_eq!(ends(0, 5_001), vec![(0, 5_000), (5_001, 5_001)]);
    assert_eq!(ends(7, 12_000), vec![(7, 5_007), (5_008, 10_008), (10_009, 12_000)]);
}

#[test]
fn scans_stop_at_the_head() {
    let plan = discover_new_pools(100, 100);
    assert_eq!(plan.ranges, vec![BlockRange { from: 100, to: 100 }]);
    assert_eq!(plan.stop, 100);
    let plan = discover_new_pools(101, 100);
    assert_eq!((plan.ranges.len(), plan.stop), (0, 101));
    let plan = discover_new_pools(99, 100);
    assert_eq!(plan.ranges, vec![BlockRange { from: 99, to: 100 }]);
    assert_eq!(plan.stop, 100);
}

#[test]
fn pools_are_taken_from_events_and_lookups() {
    let event = PoolCreated {
        token0: address(1),
        token1: address(2),
        fee: 500,
        pool: address(3),
        block: 7,
    };
    let known = created_pool(event, Some(99));
    assert_eq!((known.address, known.created_block, known.created_timestamp), (address(3), 7, 99));
    assert_eq!(created_pool(event, None).created_timestamp, 0);
    let looked_up = lookup_pool_by_address(address(3), address(1), address(2), 500);
    assert_eq!((looked_up.created_block, looked_up.created_timestamp), (0, 0));
    assert_eq!((looked_up.token0, looked_up.token1, looked_up.fee), (address(1), address(2), 500));
}

#[test]
fn swap_volume_is_the_mean_of_both_legs() {
    let units = PoolUnits { decimals0: 18, decimals1: 6, price0: d(2.5), price1: d(1.0) };
    let signed = |negative, v| I256 { negative, size: amount(v) };
    let events = vec![
        SwapEvent {
            amount0: signed(false, 4_000_000_000_000_000_000),
            amount1: signed(true, 9_900_000),
            recipient: address(1),
        },
        SwapEvent {
            amount0: signed(true, 1_234_567_890_123_456_789),
            amount1: signed(false, 3_100_000),
            recipient: address(2),
        },
        SwapEvent {
            amount0: signed(true, 1),
            amount1: signed(false, 1),
            recipient: address(1),
        },
    ];
    let ten18 = 10f64.powi(std::hint::black_box(18));
    let ten6 = 10f64.powi(std::hint::black_box(6));
    let mut total = 0.0f64;
    for (a0, a1) in [
        (4e18, -9_900_000.0),
        (-1_234_567_890_123_456_789.0f64, 3_100_000.0),
        (-1.0, 1.0),
    ] {
        let usd0 = (a0 / ten18).abs() * 2.5;
        let usd1 = (a1 / ten6 as f64).abs() * 1.0;
        total += (usd0 + usd1) / 2.0;
    }
    let window = estimate_volume_usd(&events, units);
    assert_eq!(window.volume_usd, d(total));
    assert_eq!(window.unique_traders, 2);
    let none = estimate_volume_usd(&Vec::new(), units);
    assert_eq!((none.volume_usd, none.unique_traders), (d(0.0), 0));
}

#[test]
fn round_trips_are_judged() {
    let ask = |buy, sell| check_honeypot(address(8), address(3), 3000, amount(1_000), buy, sell);
    let out = |v| Quote::Out { amount: amount(v) };
    let bad = HoneypotStep::Verdict {
        check: HoneypotCheck { sellable: false, round_trip_loss_percent: None },
    };
    assert_eq!(
        ask(Quote::NotAsked, Quote::NotAsked),
        HoneypotStep::Ask {
            quote: QuoteRequest {
                token_in: address(3),
                token_out: address(8),
                fee: 3000,
                amount_in: amount(1_000),
            }
        }
    );
    assert_eq!(ask(Quote::Failed, Quote::NotAsked), bad);
    assert_eq!(ask(out(0), Quote::NotAsked), bad);
    assert_eq!(
        ask(out(50), Quote::NotAsked),
        HoneypotStep::Ask {
            quote: QuoteRequest {
                token_in: address(8),
                token_out: address(3),
                fee: 3000,
                amount_in: amount(50),
            }
        }
    );
    assert_eq!(ask(out(50), Quote::Failed), bad);
    assert_eq!(
        ask(out(50), out(940)),
        HoneypotStep::Verdict {
            check: HoneypotCheck {
                sellable: true,
                round_trip_loss_percent: Some(d((1000.0 - 940.0) / 1000.0 * 100.0)),
            }
        }
    );
    assert_eq!(loss_percent(1_000, 1_100), d(0.0));
    assert_eq!(loss_percent(0, 5), d(0.0));
}

#[test]
fn the_round_trip_is_sized_in_the_reference_asset() {
    let c = config();
    let test = run_honeypot_check(&c, &pool(), 6, 18, d(0.5), d(3000.0)).unwrap();
    assert_eq!((test.token, test.reference, test.fee), (address(8), address(3), 3000));
    let raw = 10.0 / 3000.0 * 10f64.powi(std::hint::black_box(18));
    assert_eq!(test.amount_in, amount(raw as u128));
    assert!(run_honeypot_check(&c, &pool(), 6, 18, d(0.5), d(0.0)).is_none());
    assert!(run_honeypot_check(&c, &pool(), 6, 0, d(0.5), d(3000.0)).is_none());
    assert!(run_honeypot_check(&c, &pool(), 6, 18, d(0.5), d(f64::NAN)).is_none());
    let both = PoolInfo { token0: address(4), ..pool() };
    assert!(run_honeypot_check(&c, &both, 6, 18, d(1.0), d(3000.0)).is_none());
    let turned = PoolInfo { token0: address(4), token1: address(8), ..pool() };
    let test = run_honeypot_check(&c, &turned, 6, 18, d(1.0), d(0.5)).unwrap();
    assert_eq!((test.token, test.reference), (address(8), address(4)));
    assert_eq!(test.amount_in, amount(10_000_000));
}

#[test]
fn the_subject_is_not_a_reference_asset() {
    let c = config();
    assert_eq!(subject_token(&c, &pool()), Some(address(8)));
    let both = PoolInfo { token0: address(4), token1: address(3), ..pool() };
    assert_eq!(subject_token(&c, &both), None);
    let second = PoolInfo { token0: address(4), token1: address(8), ..pool() };
    assert_eq!(subject_token(&c, &second), Some(address(8)));
}

#[test]
fn ages_and_returns_are_computed() {
    assert_eq!(age_hours(1_000, 1_000 + 5_400), d(1.5));
    assert_eq!(age_hours(0, 5_400), d(0.0));
    assert_eq!(age_hours(9_000, 5_400), d(0.0));
    let expected: f64 = (20_000.0 * (3000.0 / 1_000_000.0) / 150_000.0) * 365.0 * 100.0;
    assert_eq!(fee_apr(d(20_000.0), 3000, d(150_000.0)), d(expected));
    assert_eq!(fee_apr(d(20_000.0), 3000, d(0.0)), d(0.0));
    let c = config();
    assert_eq!(volume_from_block(&c, &pool(), 1_200), 500);
    assert_eq!(volume_from_block(&c, &pool(), 2_200), 1_200);
    assert_eq!(volume_from_block(&c, &pool(), 200), 500);
}

fn gecko() -> GeckoSecurity {
    GeckoSecurity {
        gt_score: Some(d(75.0)),
        gt_score_pool: None,
        gt_score_transaction: None,
        gt_score_creation: None,
        gt_score_info: None,
        gt_score_holders: None,
        gt_verified: Some(true),
        is_honeypot: Some(false),
        mint_authority: None,
        freeze_authority: Some("0x0000000000000000000000000000000000000000".to_string()),
        developer_address: Some("0x12".to_string()),
        developer_holding_pct: Some(d(2.0)),
        holder_count: Some(500),
        top10_holder_pct: Some(d(20.0)),
    }
}

fn goplus() -> GoPlusSecurity {
    GoPlusSecurity {
        holder_count: Some(900),
        top10_holder_pct: Some(d(30.0)),
        dev_holding_pct: Some(d(1.0)),
        buy_tax_percent: Some(d(3.0)),
        sell_tax_percent: Some(d(4.0)),
        is_open_source: Some(true),
        is_mintable: Some(true),
        ownership_renounced: Some(true),
        is_honeypot: Some(true),
        is_blacklistable: Some(true),
        transfer_pausable: Some(false),
        lp_locked_pct: Some(d(80.0)),
    }
}

fn facts(with_gecko: bool, with_goplus: bool) -> PricedFacts {
    PricedFacts {
        price0: d(0.5),
        price1: d(3000.0),
        balance0: amount(200_000_000_000),
        balance1: amount(30_000_000_000_000_000_000),
        window: Some(VolumeWindow { volume_usd: d(20_000.0), unique_traders: 12 }),
        honeypot_sellable: Some(true),
        honeypot_round_trip_loss_percent: Some(d(1.0)),
        total_supply: Some(amount(1_000_000_000_000)),
        gecko: if with_gecko { Some(gecko()) } else { None },
        goplus: if with_goplus { Some(goplus()) } else { None },
    }
}

fn tokens() -> (TokenFacts, TokenFacts) {
    (
        TokenFacts { symbol: "ABC".to_string(), decimals: 6, verified: Some(true) },
        TokenFacts { symbol: "WETH".to_string(), decimals: 18, verified: None },
    )
}

#[test]
fn metrics_are_put_together() {
    let (t0, t1) = tokens();
    let m = compute_metrics(&config(), &pool(), 4_600, t0, t1, Some(facts(false, true)));
    assert_eq!((m.token0_symbol.as_str(), m.token1_symbol.as_str()), ("ABC", "WETH"));
    assert_eq!((m.token0_verified, m.token1_verified), (Some(true), None));
    assert_eq!(m.age_hours, d(1.0));
    let tvl = 200_000.0 * 0.5 + 30.0 * 3000.0;
    assert_eq!(m.tvl_usd, Some(d(tvl)));
    assert_eq!(m.volume_24h_usd, Some(d(20_000.0)));
    assert_eq!(m.apr_percent, Some(fee_apr(d(20_000.0), 3000, d(tvl))));
    assert_eq!(m.unique_traders_24h, Some(12));
    assert_eq!(m.market_cap_usd, Some(d(1_000_000.0 * 0.5)));
    assert_eq!(m.holder_count, Some(900));
    assert_eq!(m.is_mintable, Some(true));
    assert_eq!(m.gt_score, None);
    assert_eq!(m.lp_locked_pct, Some(d(80.0)));
}

#[test]
fn goplus_fills_in_what_gecko_leaves_open() {
    let (t0, t1) = tokens();
    let m = compute_metrics(&config(), &pool(), 4_600, t0, t1, Some(facts(true, true)));
    assert_eq!(m.gt_score, Some(d(75.0)));
    assert_eq!(m.holder_count, Some(500));
    assert_eq!(m.gecko_holder_count, Some(500));
    assert_eq!(m.top10_holder_pct, Some(d(20.0)));
    assert_eq!(m.is_honeypot_goplus, Some(false));
    assert_eq!(m.is_mintable, Some(true));
    assert_eq!(m.is_blacklistable, Some(false));
    assert_eq!(m.ownership_renounced, Some(false));
    assert_eq!(m.buy_tax_percent, Some(d(3.0)));
    assert_eq!(m.transfer_pausable, Some(false));
    assert_eq!(m.gecko_developer_address, Some("0x12".to_string()));
}

#[test]
fn goplus_fills_in_every_field_that_gecko_leaves_open() {
    let known = |change: &dyn Fn(&mut GeckoSecurity)| {
        let (t0, t1) = tokens();
        let mut f = facts(true, true);
        let mut g = gecko();
        change(&mut g);
        f.gecko = Some(g);
        compute_metrics(&config(), &pool(), 4_600, t0, t1, Some(f))
    };
    assert_eq!(known(&|g| g.is_honeypot = None).is_honeypot_goplus, Some(true));
    assert_eq!(known(&|g| g.is_honeypot = None).gecko_is_honeypot, None);
    assert_eq!(known(&|g| g.holder_count = None).holder_count, Some(900));
    assert_eq!(known(&|g| g.top10_holder_pct = None).top10_holder_pct, Some(d(30.0)));
    assert_eq!(known(&|g| g.developer_holding_pct = None).dev_holding_pct, Some(d(1.0)));
    assert_eq!(known(&|g| g.developer_address = None).ownership_renounced, Some(true));
    assert_eq!(known(&|g| g.freeze_authority = None).is_blacklistable, Some(true));
    assert_eq!(known(&|g| g.mint_authority = Some("0x5".to_string())).is_mintable, Some(true));
    assert_eq!(known(&|g| g.mint_authority = Some("".to_string())).is_mintable, Some(false));
}

#[test]
fn an_account_that_is_not_named_does_not_exist() {
    let (t0, t1) = tokens();
    let mut f = facts(true, false);
    let mut g = gecko();
    g.freeze_authority = None;
    g.developer_address = None;
    f.gecko = Some(g);
    let m = compute_metrics(&config(), &pool(), 4_600, t0, t1, Some(f));
    assert_eq!(m.is_mintable, Some(false));
    assert_eq!(m.is_blacklistable, Some(false));
    assert_eq!(m.ownership_renounced, Some(true));
    assert_eq!((m.transfer_pausable, m.buy_tax_percent), (None, None));
}

#[test]
fn hidden_services_leave_no_trace() {
    let mut c = config();
    c.screening.hide_geckoterminal = true;
    c.screening.hide_goplus = true;
    let (t0, t1) = tokens();
    let m = compute_metrics(&c, &pool(), 4_600, t0, t1, Some(facts(true, true)));
    assert_eq!(m.gt_score, None);
    assert_eq!(m.holder_count, None);
    assert_eq!(m.is_mintable, None);
    assert_eq!(gecko_network(&c), None);
    assert_eq!(gecko_network(&config()), Some("robinhood".to_string()));
    c.screening.hide_geckoterminal = false;
    c.screening.gecko_network_id = "  ".to_string();
    assert_eq!(gecko_network(&c), None);
}

#[test]
fn an_unpriced_pool_has_only_its_age() {
    let (t0, t1) = tokens();
    let m = compute_metrics(&config(), &pool(), 4_600, t0, t1, None);
    assert_eq!(m.age_hours, d(1.0));
    assert_eq!(m.tvl_usd, None);
    assert_eq!(m.honeypot_sellable, None);
    let (t0, t1) = tokens();
    let mut unread = facts(false, false);
    unread.window = None;
    unread.total_supply = None;
    let m = compute_metrics(&config(), &pool(), 4_600, t0, t1, Some(unread));
    assert_eq!(m.volume_24h_usd, Some(d(0.0)));
    assert_eq!(m.apr_percent, Some(d(0.0)));
    assert_eq!(m.market_cap_usd, None);
}

#[test]
fn liquidity_becomes_amounts() {
    let l = 1_000_000_000u128;
    let (pa, pb) = (0.9f64, 1.1f64);
    for p in [0.5f64, 0.9, 1.0, 1.1, 1.5] {
        let expected = if p <= pa {
            (l as f64 * (1.0 / pa - 1.0 / pb), 0.0)
        } else if p >= pb {
            (0.0, l as f64 * (pb - pa))
        } else {
            (l as f64 * (1.0 / p - 1.0 / pb), l as f64 * (p - pa))
        };
        let (a0, a1) = amounts_for_liquidity(l, d(p), d(pa), d(pb));
        assert_eq!((f(a0), f(a1)), expected);
        assert_eq!(amounts_for_liquidity(l, d(p), d(pb), d(pa)), (a0, a1));
    }
}

#[test]
fn profit_is_measured_against_the_entry_cost() {
    let h = Holdings {
        tick_lower: -100,
        tick_upper: 100,
        liquidity: 1_000_000_000_000,
        owed0: 5_000_000,
        owed1: 2_000_000,
        current_tick: 99,
        sqrt_price_x96: amount(1 << 96),
        sqrt_lower: d(0.9),
        sqrt_upper: d(1.1),
        decimals0: 6,
        decimals1: 6,
    };
    let ten6 = 10f64.powi(std::hint::black_box(6));
    let l = 1e12;
    let amount0 = l * (1.0 / 1.0 - 1.0 / 1.1) / ten6;
    let amount1 = l * (1.0 - 0.9) / ten6;
    let (owed0, owed1) = (5_000_000.0 / ten6, 2_000_000.0 / ten6);
    let value = (amount0 + owed0) * 1.0 + (amount1 + owed1) * 0.5;
    let pnl = value - 100_000.0;
    let r = compute_pnl(d(100_000.0), h, Some((d(1.0), d(0.5)))).unwrap();
    assert_eq!(r.current_value_usd, d(value));
    assert_eq!(r.uncollected_fees_usd, d(owed0 * 1.0 + owed1 * 0.5));
    assert_eq!(r.pnl_usd, d(pnl));
    assert_eq!(r.pnl_percent, d(pnl / 100_000.0 * 100.0));
    assert!(r.in_range);
    let out = compute_pnl(d(0.0), Holdings { current_tick: 100, ..h }, Some((d(1.0), d(0.5))));
    assert_eq!(out.map(|p| (p.in_range, p.pnl_percent)), Some((false, d(0.0))));
    assert!(compute_pnl(d(1.0), h, None).is_none());
}

#[test]
fn minimums_leave_the_tolerance() {
    for amount in [0u128, 1, 999, 1_000_000, 12_345_678_901_234_567_890, u128::MAX] {
        for bps in [0u64, 1, 50, 100, 9_999, 10_000, 20_000, u64::MAX] {
            let slippage = bps as f64 / 10_000.0;
            let expected = (amount as f64 * (1.0 - slippage)) as u128;
            assert_eq!(minimum_out(amount, bps), expected);
            if bps > 0 {
                assert!(minimum_out(amount, bps) <= amount);
            }
            let estimate = amount as f64 / 3.0;
            let expected = (estimate * (1.0 - slippage)).max(0.0) as u128;
            assert_eq!(minimum_of(d(estimate), bps), expected);
        }
    }
    assert_eq!(minimum_out(1_000_000, 100), 990_000);
    assert_eq!(minimum_out(9_007_199_254_740_995, 0), 9_007_199_254_740_996);
}

#[test]
fn spikes_are_measured_against_the_previous_window() {
    let c = config();
    assert_eq!(min_meaningful_volume_usd(&c), d(5_000.0 / 24.0));
    let mut small = config();
    small.screening.min_volume_24h_usd = d(240.0);
    assert_eq!(min_meaningful_volume_usd(&small), d(50.0));
    let spike = check_volume_spike(&c, d(900.0), d(300.0)).unwrap();
    assert_eq!((f(spike.recent_volume_usd), f(spike.ratio)), (900.0, 3.0));
    assert!(check_volume_spike(&c, d(899.0), d(300.0)).is_none());
    assert!(check_volume_spike(&c, d(200.0), d(1.0)).is_none());
    let fresh = check_volume_spike(&c, d(1_000.0), d(0.0)).unwrap();
    assert_eq!(fresh.ratio, d(1_000.0 / (5_000.0 / 24.0)));
    let mut eager = config();
    eager.monitoring.volume_spike_multiplier = d(100.0);
    let first = check_volume_spike(&eager, d(1_000.0), d(0.0)).unwrap();
    assert_eq!(first.ratio, d(1_000.0 / (5_000.0 / 24.0)));
    assert!(check_volume_spike(&eager, d(1_000.0), d(11.0)).is_none());
    assert!(check_volume_spike(&eager, d(200.0), d(0.0)).is_none());
    assert!(check_volume_spike(&eager, d(f64::NAN), d(0.0)).is_none());
}

#[test]
fn spike_windows_lie_behind_each_other() {
    let c = config();
    assert_eq!(spike_window_blocks(&c), 100);
    let w = spike_windows(&c, 300, 500).unwrap();
    assert_eq!(w.recent, BlockRange { from: 400, to: 500 });
    assert_eq!(w.previous, BlockRange { from: 300, to: 399 });
    assert!(spike_windows(&c, 301, 500).is_none());
    let w = spike_windows(&c, 0, 50).unwrap();
    assert_eq!(w.previous, BlockRange { from: 0, to: 0 });
    let mut none = config();
    none.monitoring.volume_spike_window_hours = d(0.0);
    assert!(spike_windows(&none, 0, 500).is_none());
}
