use robinhood_lp_bot::address::Address;
use robinhood_lp_bot::config::{
    AppConfig, ChainConfig, MonitoringConfig, ScreeningConfig, TelegramConfig, WalletConfig,
};
use robinhood_lp_bot::double::Double;
use robinhood_lp_bot::address::U256;
use robinhood_lp_bot::chain::autoswap::{
    swap_proceeds_to_usdg, swap_proceeds_to_weth, swap_single, Action, AutoSwap, Event, SwapResult,
};
use robinhood_lp_bot::chain::lp::{
    add_liquidity, approve_if_needed, close_position, closed, collect_params, collected,
    deadline_in, decrease_params, explorer_tx_url, first_decoded, minted, range_ratio,
    CloseProgress, CloseStep, PoolState,
};
use robinhood_lp_bot::chain::position::amounts_for_liquidity;
use robinhood_lp_bot::chain::slippage::{minimum_of, minimum_out};

#[allow(dead_code)]
fn d(x: f64) -> Double {
    Double { bits: x.to_bits() }
}

#[allow(dead_code)]
fn f(x: Double) -> f64 {
    f64::from_bits(x.bits)
}

#[allow(dead_code)]
fn address(n: u128) -> Address {
    Address { hi: 0, lo: n }
}

#[allow(dead_code)]
fn config() -> AppConfig {
    let text = |n: u128| address(n).text();
    AppConfig {
        chain: ChainConfig {
            rpc_url: "http://localhost".to_string(),
            chain_id: 4663,
            uniswap_v3_factory: text(1),
            position_manager: text(2),
            weth_address: text(3),
            usdc_address: text(4),
            factory_deployment_block: 77,
            blockscout_api_base: "https://scan.example/api/".to_string(),
            explorer_base_url: "https://scan.example//".to_string(),
            swap_router: text(5),
            quoter_v2: text(6),
        },
        wallet: WalletConfig {
            private_key: "key".to_string(),
            default_lp_usd_amount: d(50.0),
            slippage_bps: 100,
            tick_range_percent: d(20.0),
        },
        screening: ScreeningConfig {
            enabled: true,
            min_tvl_usd: d(10_000.0),
            min_volume_24h_usd: d(5_000.0),
            min_apr_percent: d(20.0),
            max_apr_percent: d(2_000.0),
            min_pool_age_hours: d(1.0),
            require_verified_tokens: true,
            max_honeypot_loss_percent: d(10.0),
            honeypot_test_amount_usd: d(10.0),
            poll_interval_secs: 30,
            lookback_blocks_for_volume: 1_000,
            min_holder_count: 100,
            min_unique_traders_24h: 10,
            max_top10_holder_pct: d(40.0),
            max_dev_holding_pct: d(5.0),
            max_buy_tax_percent: d(5.0),
            max_sell_tax_percent: d(5.0),
            require_not_mintable: true,
            require_ownership_renounced: false,
            require_not_blacklistable: true,
            min_lp_locked_pct: d(0.0),
            require_goplus_data: false,
            hide_goplus: false,
            min_gt_score: d(0.0),
            require_gt_verified: false,
            gecko_network_id: " robinhood ".to_string(),
            hide_geckoterminal: false,
        },
        monitoring: MonitoringConfig {
            take_profit_percent: d(25.0),
            stop_loss_percent: d(15.0),
            position_check_interval_secs: 60,
            volume_spike_multiplier: d(3.0),
            volume_spike_window_hours: d(1.0),
            approx_blocks_per_hour: 100,
        },
        telegram: TelegramConfig { bot_token: "token".to_string(), chat_id: 42 },
        dextools_api_key: "".to_string(),
    }
}

fn amount(v: u128) -> U256 {
    U256 { hi: 0, lo: v }
}

fn swapped(token_in: u128, amount_in: u128, amount_out: u128) -> Event {
    Event::Swap {
        result: Ok(SwapResult {
            tx_hash: "0x1".to_string(),
            token_in: address(token_in),
            amount_in: amount(amount_in),
            amount_out: amount(amount_out),
        }),
    }
}

fn failed(reason: &str) -> Event {
    Event::Swap { result: Err(reason.to_string()) }
}

fn to_usdg(t0: u128, a0: u128, t1: u128, a1: u128) -> AutoSwap {
    swap_proceeds_to_usdg(&config(), address(t0), amount(a0), address(t1), amount(a1), 3000).unwrap()
}

fn swap(token_in: u128, token_out: u128, fee: u32, v: u128) -> Action {
    Action::Swap {
        token_in: address(token_in),
        token_out: address(token_out),
        fee,
        amount_in: amount(v),
    }
}

fn find(a: u128, b: u128) -> Action {
    Action::FindPool { token_a: address(a), token_b: address(b) }
}

#[test]
fn a_leg_in_usdg_is_left_alone() {
    let s = to_usdg(4, 10, 8, 0);
    assert_eq!(s.action(), Action::Finished);
    let o = s.outcome();
    assert!(o.swaps.is_empty() && o.failed_legs.is_empty());
}

#[test]
fn a_token_paired_with_usdg_is_swapped_in_its_pool() {
    let mut s = to_usdg(8, 10, 4, 20);
    assert_eq!(s.action(), swap(8, 4, 3000, 10));
    s.advance(swapped(8, 10, 9));
    assert_eq!(s.action(), Action::Finished);
    let o = s.outcome();
    assert_eq!((o.swaps.len(), o.failed_legs.len()), (1, 0));
}

#[test]
fn a_token_paired_with_weth_takes_two_hops() {
    let mut s = to_usdg(8, 10, 3, 20);
    assert_eq!(s.action(), swap(8, 3, 3000, 10));
    s.advance(swapped(8, 10, 7));
    assert_eq!(s.action(), find(3, 4));
    s.advance(Event::Pool { found: Ok(Some(500)) });
    assert_eq!(s.action(), swap(3, 4, 500, 7));
    s.advance(swapped(3, 7, 21_000));
    assert_eq!(s.action(), find(3, 4));
    s.advance(Event::Pool { found: Ok(Some(500)) });
    assert_eq!(s.action(), swap(3, 4, 500, 20));
    s.advance(swapped(3, 20, 60_000));
    assert_eq!(s.action(), Action::Finished);
    let o = s.outcome();
    assert_eq!((o.swaps.len(), o.failed_legs.len()), (3, 0));
}

#[test]
fn a_failing_leg_does_not_block_the_other() {
    let mut s = to_usdg(8, 10, 3, 20);
    s.advance(failed("reverted"));
    assert_eq!(s.action(), find(3, 4));
    s.advance(Event::Pool { found: Ok(Some(500)) });
    s.advance(swapped(3, 20, 60_000));
    let o = s.outcome();
    assert_eq!((o.swaps.len(), o.failed_legs.len()), (1, 1));
    let leg = &o.failed_legs[0];
    assert_eq!((leg.stuck_token, leg.stuck_amount), (address(8), amount(10)));
    assert_eq!(leg.reason, "reverted");
}

#[test]
fn a_broken_second_hop_leaves_the_bridge_asset() {
    let mut s = to_usdg(8, 10, 3, 0);
    s.advance(swapped(8, 10, 7));
    s.advance(Event::Pool { found: Ok(None) });
    assert_eq!(s.action(), Action::Finished);
    let o = s.outcome();
    assert_eq!((o.failed_legs[0].stuck_token, o.failed_legs[0].stuck_amount), (address(3), amount(7)));
    assert_eq!(o.failed_legs[0].reason, "no WETH/USDG pool found to complete the two-hop swap");
    let mut s = to_usdg(8, 10, 3, 0);
    s.advance(swapped(8, 10, 7));
    s.advance(Event::Pool { found: Err("rpc".to_string()) });
    assert_eq!(s.outcome().failed_legs[0].reason, "rpc");
}

#[test]
fn weth_without_a_pool_is_stuck() {
    let mut s = to_usdg(3, 5, 4, 0);
    s.advance(Event::Pool { found: Ok(None) });
    let o = s.outcome();
    assert_eq!(o.failed_legs[0].reason, "no WETH/USDG pool found");
    let refs = config();
    let mut s =
        swap_proceeds_to_weth(&refs, address(4), amount(5), address(3), amount(6), 500).unwrap();
    assert_eq!(s.action(), find(4, 3));
    s.advance(Event::Pool { found: Ok(None) });
    assert_eq!(s.action(), Action::Finished);
    assert_eq!(s.outcome().failed_legs[0].reason, "no USDG/WETH pool found");
}

#[test]
fn a_pool_without_reference_assets_has_no_route() {
    let s = to_usdg(8, 10, 9, 20);
    assert_eq!(s.action(), Action::Finished);
    let o = s.outcome();
    assert_eq!(o.failed_legs.len(), 2);
    assert_eq!(
        o.failed_legs[1].reason,
        "pool doesn't pair with WETH or USDG on either side — no auto-route available"
    );
}

#[test]
fn an_event_that_answers_nothing_changes_nothing() {
    let mut s = to_usdg(8, 10, 4, 0);
    s.advance(Event::Pool { found: Ok(Some(500)) });
    assert_eq!(s.action(), swap(8, 4, 3000, 10));
    let mut broken = config();
    broken.chain.weth_address = "x".to_string();
    assert!(swap_proceeds_to_usdg(&broken, address(8), amount(1), address(4), amount(1), 1).is_none());
    assert!(swap_proceeds_to_weth(&broken, address(8), amount(1), address(4), amount(1), 1).is_none());
}

#[test]
fn a_swap_has_a_minimum_and_an_approval() {
    let c = config();
    let order =
        |allowance| swap_single(&c, address(8), address(4), 500, amount(10), address(7), amount(1_000), allowance);
    let o = order(amount(9));
    assert_eq!(o.approve, Some(amount(10)));
    assert_eq!(o.params.amount_out_minimum, amount(990));
    assert_eq!(o.params.recipient, address(7));
    assert_eq!(o.params.sqrt_price_limit_x96, amount(0));
    assert_eq!(order(amount(10)).approve, None);
}

#[test]
fn a_position_is_sized_around_the_current_price() {
    let c = config();
    let pool = PoolState {
        token0: address(8),
        token1: address(3),
        fee: 3000,
        sqrt_price_x96: amount(1 << 96),
        tick: 1_234,
        decimals0: 6,
        decimals1: 18,
    };
    let size = |prices| add_liquidity(&c, pool, prices, d(50.0), 1_823, address(7), 1_000);
    let p = size(Some((d(0.5), d(3_000.0))));
    let half = 50.0 / 2.0;
    let a0 = (half / 0.5 * 10f64.powi(std::hint::black_box(6))) as u128;
    let a1 = (half / 3_000.0 * 10f64.powi(std::hint::black_box(18))) as u128;
    assert_eq!(a0, 50_000_000);
    assert_eq!((p.amount0_desired, p.amount1_desired), (amount(a0), amount(a1)));
    assert_eq!(p.amount0_min, amount(minimum_out(a0, 100)));
    assert_eq!(p.amount1_min, amount(minimum_out(a1, 100)));
    assert_eq!((p.tick_lower, p.tick_upper), (-600, 3_060));
    assert_eq!(p.deadline, amount(1_600));
    assert_eq!((p.token0, p.token1, p.fee, p.recipient), (address(8), address(3), 3000, address(7)));
    assert_eq!(range_ratio(&c), d(1.0 + 20.0 / 100.0));
    assert_eq!(deadline_in(5, 6), amount(11));
    let logs = vec![(address(1), Some(5u64)), (address(2), None), (address(2), Some(9)), (address(2), Some(10))];
    let r = minted(&c, p, "0xfeed".to_string(), address(2), &logs);
    assert_eq!(r.token_id, Some(9));
    assert_eq!(r.explorer_tx_url, "https://scan.example/tx/0xfeed");
    assert_eq!((r.tick_lower, r.fee), (-600, 3000));
    assert_eq!(first_decoded(address(3), &logs), None);
    let by_ratio = size(None);
    let price = 1.0 * 10f64.powi(std::hint::black_box(-12));
    let a0 = (half * 10f64.powi(std::hint::black_box(6))) as u128;
    let a1 = (half * price * 10f64.powi(std::hint::black_box(18))) as u128;
    assert_eq!((a0, a1), (25_000_000, 25_000_000));
    assert_eq!(
        (by_ratio.amount0_desired, by_ratio.amount1_desired),
        (amount(a0), amount(a1))
    );
    assert_eq!(by_ratio.amount0_min, amount(minimum_out(a0, 100)));
    for unusable in [0.0, -1.0, f64::NAN, f64::INFINITY] {
        assert_eq!(size(Some((d(unusable), d(1.0)))), by_ratio);
        assert_eq!(size(Some((d(1.0), d(unusable)))), by_ratio);
    }
}

#[test]
fn half_of_a_position_goes_into_each_token() {
    let pool = PoolState {
        token0: address(3),
        token1: address(4),
        fee: 500,
        sqrt_price_x96: amount(3_961_408_125_713_216_879_677_197),
        tick: -198_079,
        decimals0: 18,
        decimals1: 6,
    };
    let prices = Some((d(2_500.0), d(1.0)));
    let p = add_liquidity(&config(), pool, prices, d(100.0), 1_823, address(7), 1_000);
    assert_eq!(p.amount0_desired, amount(20_000_000_000_000_000));
    assert_eq!(p.amount1_desired, amount(50_000_000));
}

#[test]
fn a_swap_is_recorded_with_its_quote() {
    let r = robinhood_lp_bot::chain::autoswap::swapped("0xfeed".to_string(), address(8), amount(10), amount(940));
    assert_eq!(r.tx_hash, "0xfeed");
    assert_eq!((r.token_in, r.amount_in, r.amount_out), (address(8), amount(10), amount(940)));
}

#[test]
fn amounts_follow_the_price() {
    let at = |p: f64| {
        let r = amounts_for_liquidity(1_000_000, d(p), d(0.5), d(2.0));
        (f(r.0), f(r.1))
    };
    assert_eq!(at(0.25), (1_500_000.0, 0.0));
    assert_eq!(at(0.5), at(0.25));
    assert_eq!(at(1.0), (500_000.0, 500_000.0));
    assert_eq!(at(2.0), (0.0, 1_500_000.0));
    assert_eq!(at(4.0), at(2.0));
    let mut p = 0.25;
    while p < 4.0 {
        let (next0, next1) = at(p * 1.1);
        assert!(next0 <= at(p).0 && next1 >= at(p).1);
        p *= 1.1;
    }
    for p in [0.25, 1.0, 4.0] {
        let swapped_ends = amounts_for_liquidity(1_000_000, d(p), d(2.0), d(0.5));
        assert_eq!((f(swapped_ends.0), f(swapped_ends.1)), at(p));
        assert_eq!(amounts_for_liquidity(0, d(p), d(0.5), d(2.0)), (d(0.0), d(0.0)));
    }
    let tiny = d(f64::from_bits(1));
    assert!(f(amounts_for_liquidity(1, tiny, tiny, tiny).0).is_nan());
}

#[test]
fn approvals_are_asked_for_where_the_allowance_is_short() {
    assert_eq!(approve_if_needed(amount(5), amount(5)), None);
    assert_eq!(approve_if_needed(amount(4), amount(5)), Some(amount(5)));
}

#[test]
fn closing_goes_through_its_steps() {
    let mut p = CloseProgress {
        liquidity: 5,
        price_known: false,
        decreased: false,
        collected: None,
        swapped: false,
        burned: false,
    };
    assert_eq!(close_position(p), CloseStep::ReadPrice);
    p.price_known = true;
    assert_eq!(close_position(p), CloseStep::Decrease);
    p.decreased = true;
    assert_eq!(close_position(p), CloseStep::Collect);
    p.collected = Some((amount(1), amount(0)));
    assert_eq!(close_position(p), CloseStep::Swap { amount0: amount(1), amount1: amount(0) });
    p.swapped = true;
    assert_eq!(close_position(p), CloseStep::Burn);
    p.burned = true;
    assert_eq!(close_position(p), CloseStep::Done);
    let empty = CloseProgress {
        liquidity: 0,
        price_known: false,
        decreased: false,
        collected: Some((amount(0), amount(0))),
        swapped: false,
        burned: false,
    };
    assert_eq!(close_position(empty), CloseStep::Burn);
}

#[test]
fn liquidity_is_taken_out_at_a_minimum() {
    let c = config();
    let p = decrease_params(&c, 9, 1_000_000_000, amount(1 << 96), d(0.9), d(1.1), 100);
    let (e0, e1) = amounts_for_liquidity(1_000_000_000, d(1.0), d(0.9), d(1.1));
    assert_eq!(p.amount0_min, amount(minimum_of(e0, 100)));
    assert_eq!(p.amount1_min, amount(minimum_of(e1, 100)));
    assert_eq!(p.amount1_min, amount((f(e1) * (1.0 - 0.01)).max(0.0) as u128));
    assert_eq!((p.token_id, p.liquidity, p.deadline), (amount(9), 1_000_000_000, amount(700)));
    let q = collect_params(9, address(7));
    assert_eq!((q.token_id, q.amount0_max, q.amount1_max), (amount(9), u128::MAX, u128::MAX));
    let logs = vec![(address(1), Some((amount(1), amount(2)))), (address(2), Some((amount(3), amount(4))))];
    assert_eq!(collected(address(2), &logs), (amount(3), amount(4)));
    assert_eq!(collected(address(3), &logs), (amount(0), amount(0)));
    let r = closed(&c, "0x1".to_string(), Vec::new(), Vec::new());
    assert_eq!(r.explorer_tx_url, "https://scan.example/tx/0x1");
    assert_eq!(explorer_tx_url(&c, "0x2"), "https://scan.example/tx/0x2");
}
