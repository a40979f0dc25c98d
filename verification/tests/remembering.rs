use robinhood_lp_bot::address::Address;
use robinhood_lp_bot::config::{
    AppConfig, ChainConfig, MonitoringConfig, ScreeningConfig, TelegramConfig, WalletConfig,
};
use robinhood_lp_bot::double::Double;
use robinhood_lp_bot::chain::pools::discover_new_pools;
use robinhood_lp_bot::cycles::{
    after_limit_alert, after_pnl, after_spike_alert, after_spike_check, block_to_note,
    conclude_scan, conclude_screening, limit_hit, monitor_position, pool_of, scan_from_block, should_screen, Hit, MonitorAction,
};
use robinhood_lp_bot::models::{Position, VolumeSpike};
use robinhood_lp_bot::telegram::check::conclude_check;
use robinhood_lp_bot::storage::{StateFile, Storage};

#[allow(dead_code)]
fn d(x: f64) -> Double {
    Double { bits: x.to_bits() }
}

#[allow(dead_code)]
fn f(x: Double) -> f64 {
    f64::from_bits(x.bits)
}

#[allow(dead_code)]
fn address(n: u128) -> Address {
    Address { hi: 0, lo: n }
}

#[allow(dead_code)]
fn config() -> AppConfig {
    let text = |n: u128| address(n).text();
    AppConfig {
        chain: ChainConfig {
            rpc_url: "http://localhost".to_string(),
            chain_id: 4663,
            uniswap_v3_factory: text(1),
            position_manager: text(2),
            weth_address: text(3),
            usdc_address: text(4),
            factory_deployment_block: 77,
            blockscout_api_base: "https://scan.example/api/".to_string(),
            explorer_base_url: "https://scan.example//".to_string(),
            swap_router: text(5),
            quoter_v2: text(6),
        },
        wallet: WalletConfig {
            private_key: "key".to_string(),
            default_lp_usd_amount: d(50.0),
            slippage_bps: 100,
            tick_range_percent: d(20.0),
        },
        screening: ScreeningConfig {
            enabled: true,
            min_tvl_usd: d(10_000.0),
            min_volume_24h_usd: d(5_000.0),
            min_apr_percent: d(20.0),
            max_apr_percent: d(2_000.0),
            min_pool_age_hours: d(1.0),
            require_verified_tokens: true,
            max_honeypot_loss_percent: d(10.0),
            honeypot_test_amount_usd: d(10.0),
            poll_interval_secs: 30,
            lookback_blocks_for_volume: 1_000,
            min_holder_count: 100,
            min_unique_traders_24h: 10,
            max_top10_holder_pct: d(40.0),
            max_dev_holding_pct: d(5.0),
            max_buy_tax_percent: d(5.0),
            max_sell_tax_percent: d(5.0),
            require_not_mintable: true,
            require_ownership_renounced: false,
            require_not_blacklistable: true,
            min_lp_locked_pct: d(0.0),
            require_goplus_data: false,
            hide_goplus: false,
            min_gt_score: d(0.0),
            require_gt_verified: false,
            gecko_network_id: " robinhood ".to_string(),
            hide_geckoterminal: false,
        },
        monitoring: MonitoringConfig {
            take_profit_percent: d(25.0),
            stop_loss_percent: d(15.0),
            position_check_interval_secs: 60,
            volume_spike_multiplier: d(3.0),
            volume_spike_window_hours: d(1.0),
            approx_blocks_per_hour: 100,
        },
        telegram: TelegramConfig { bot_token: "token".to_string(), chat_id: 42 },
        dextools_api_key: "".to_string(),
    }
}

fn position(token_id: u64) -> Position {
    Position {
        token_id,
        pool_address: address(0xAB),
        pool_created_block: 5,
        token0: address(8),
        token1: address(3),
        token0_symbol: "ABC".to_string(),
        token1_symbol: "WETH".to_string(),
        fee: 3000,
        tick_lower: -60,
        tick_upper: 60,
        entry_cost_usd: d(50.0),
        entry_timestamp: 9,
        mint_tx_hash: "0x1".to_string(),
        closed: false,
    }
}

#[test]
fn a_fresh_state_remembers_nothing() {
    let s = Storage::load_or_default(None);
    assert_eq!(s.last_scanned_block(), 0);
    assert!(!s.already_alerted(address(1)));
    assert!(s.open_positions().is_empty());
    assert!(s.get_position(1).is_none());
    assert!(!s.already_tpsl_alerted(1));
    assert!(!s.spike_alert_on_cooldown(address(1), 5, 100));
}

#[test]
fn what_was_kept_is_loaded() {
    let mut newer = position(1);
    newer.fee = 500;
    let s = Storage::load_or_default(Some(StateFile {
        last_scanned_block: 12,
        alerted_pools: vec![address(1), address(2), address(1)],
        positions: vec![(1, position(1)), (2, position(2)), (1, newer)],
        tpsl_alerted: vec![7, 7],
        last_spike_alert_block: vec![(address(1), 5), (address(1), 9)],
    }));
    assert_eq!(s.last_scanned_block(), 12);
    assert!(s.already_alerted(address(1)) && s.already_alerted(address(2)));
    assert_eq!(s.state.alerted_pools.len(), 2);
    assert_eq!(s.state.positions.len(), 2);
    assert_eq!(s.get_position(1).unwrap().fee, 500);
    assert!(s.already_tpsl_alerted(7));
    assert!(s.spike_alert_on_cooldown(address(1), 18, 10));
    assert!(!s.spike_alert_on_cooldown(address(1), 19, 10));
}

#[test]
fn what_is_noted_is_remembered() {
    let mut s = Storage::load_or_default(None);
    s.set_last_scanned_block(7);
    s.mark_alerted(address(1));
    s.mark_alerted(address(1));
    assert_eq!(s.last_scanned_block(), 7);
    assert!(s.already_alerted(address(1)) && !s.already_alerted(address(2)));
    assert_eq!(s.state.alerted_pools.len(), 1);
    s.mark_tpsl_alerted(3);
    assert!(s.already_tpsl_alerted(3) && !s.already_tpsl_alerted(4));
    s.mark_spike_alerted(address(5), 100);
    assert!(s.spike_alert_on_cooldown(address(5), 149, 50));
    assert!(!s.spike_alert_on_cooldown(address(5), 150, 50));
    assert!(s.spike_alert_on_cooldown(address(5), 90, 1));
    assert!(!s.spike_alert_on_cooldown(address(5), 90, 0));
    s.mark_spike_alerted(address(5), 200);
    assert!(s.spike_alert_on_cooldown(address(5), 249, 50));
}

#[test]
fn positions_are_opened_and_closed() {
    let mut s = Storage::load_or_default(None);
    s.add_position(position(1));
    s.add_position(position(2));
    assert_eq!(s.open_positions().len(), 2);
    s.mark_position_closed(1);
    s.mark_position_closed(99);
    let open = s.open_positions();
    assert_eq!(open.len(), 1);
    assert_eq!(open[0].token_id, 2);
    let closed = s.get_position(1).unwrap();
    assert!(closed.closed);
    assert_eq!(closed.mint_tx_hash, "0x1");
    let mut again = position(2);
    again.fee = 100;
    s.add_position(again);
    assert_eq!(s.state.positions.len(), 2);
    assert_eq!(s.get_position(2).unwrap().fee, 100);
}

#[test]
fn scans_resume_behind_the_last_block() {
    let mut s = Storage::load_or_default(None);
    assert_eq!(scan_from_block(&s, &config()), 77);
    s.set_last_scanned_block(500);
    assert_eq!(scan_from_block(&s, &config()), 501);
}

#[test]
fn a_passed_pool_is_noted_once_its_alert_is_sent() {
    let mut s = Storage::load_or_default(None);
    assert!(conclude_screening(&mut s, address(1), true, false));
    assert!(!s.already_alerted(address(1)));
    assert!(!conclude_screening(&mut s, address(1), true, true));
    assert!(s.already_alerted(address(1)));
    assert!(!conclude_screening(&mut s, address(2), false, false));
    assert!(s.already_alerted(address(2)));
}

#[test]
fn a_pool_on_record_is_not_screened_again() {
    let mut s = Storage::load_or_default(None);
    assert!(should_screen(&s, address(1)));
    conclude_screening(&mut s, address(1), true, false);
    assert!(should_screen(&s, address(1)));
    conclude_screening(&mut s, address(1), true, true);
    assert!(!should_screen(&s, address(1)) && should_screen(&s, address(2)));
    conclude_screening(&mut s, address(2), false, false);
    assert!(!should_screen(&s, address(2)));
    conclude_check(&mut s, address(3), false);
    assert!(should_screen(&s, address(3)));
    conclude_check(&mut s, address(3), true);
    assert!(!should_screen(&s, address(3)) && s.already_alerted(address(3)));
    assert_eq!(s.state.alerted_pools.len(), 3);
}

#[test]
fn a_pool_whose_alert_was_not_sent_is_scanned_again() {
    let c = config();
    let mut s = Storage::load_or_default(None);
    let plan = discover_new_pools(scan_from_block(&s, &c), 1_000);
    assert_eq!(block_to_note(0, &plan, &vec![]), 1_000);
    assert_eq!(block_to_note(0, &plan, &vec![900, 400, 600]), 399);
    assert_eq!(block_to_note(0, &plan, &vec![77, 0]), 0);
    conclude_scan(&mut s, &plan, &vec![900, 400]);
    assert_eq!(s.last_scanned_block(), 399);
    assert_eq!(scan_from_block(&s, &c), 400);
    let plan = discover_new_pools(scan_from_block(&s, &c), 1_000);
    conclude_scan(&mut s, &plan, &vec![]);
    assert_eq!(scan_from_block(&s, &c), 1_001);
}

#[test]
fn a_chain_that_stands_still_is_not_skipped_over() {
    let c = config();
    let mut s = Storage::load_or_default(None);
    s.set_last_scanned_block(500);
    let plan = discover_new_pools(scan_from_block(&s, &c), 500);
    assert!(plan.ranges.is_empty());
    conclude_scan(&mut s, &plan, &vec![]);
    assert_eq!(scan_from_block(&s, &c), 501);
    let plan = discover_new_pools(scan_from_block(&s, &c), 501);
    assert_eq!((plan.ranges.len(), plan.ranges[0].from, plan.ranges[0].to), (1, 501, 501));
    conclude_scan(&mut s, &plan, &vec![]);
    assert_eq!(scan_from_block(&s, &c), 502);
}

#[test]
fn limits_are_hit_at_their_values() {
    let c = config();
    assert_eq!(limit_hit(&c, d(25.0)), Some(Hit::TakeProfit));
    assert_eq!(limit_hit(&c, d(24.9)), None);
    assert_eq!(limit_hit(&c, d(-15.0)), Some(Hit::StopLoss));
    assert_eq!(limit_hit(&c, d(-14.9)), None);
    assert_eq!(limit_hit(&c, d(f64::NAN)), None);
    assert_eq!(Hit::TakeProfit.text(), "Take-profit");
    assert_eq!(Hit::StopLoss.text(), "Stop-loss");
}

#[test]
fn a_position_is_monitored_step_by_step() {
    let c = config();
    let p = position(4);
    let mut s = Storage::load_or_default(None);
    assert!(matches!(monitor_position(&s, &c, &p, 1_000), MonitorAction::ComputePnl));
    assert!(matches!(after_pnl(&s, &c, &p, 1_000, None), MonitorAction::CheckSpike));
    assert!(matches!(after_pnl(&s, &c, &p, 1_000, Some(d(1.0))), MonitorAction::CheckSpike));
    match after_pnl(&s, &c, &p, 1_000, Some(d(30.0))) {
        MonitorAction::SendLimitAlert { message } => {
            assert!(message.text.starts_with("🎯 *Take-profit hit*"));
            assert_eq!(message.button.unwrap().data, "closepos:4");
        }
        other => panic!("{:?}", other),
    }
    assert!(matches!(
        after_limit_alert(&mut s, &c, &p, 1_000, false),
        MonitorAction::CheckSpike
    ));
    assert!(!s.already_tpsl_alerted(4));
    after_limit_alert(&mut s, &c, &p, 1_000, true);
    assert!(matches!(monitor_position(&s, &c, &p, 1_000), MonitorAction::CheckSpike));
    let spike = VolumeSpike {
        recent_volume_usd: d(900.0),
        previous_volume_usd: d(300.0),
        ratio: d(3.0),
    };
    assert!(matches!(after_spike_check(&p, None), MonitorAction::NextPosition));
    assert!(matches!(after_spike_check(&p, Some(spike)), MonitorAction::SendSpikeAlert { .. }));
    after_spike_alert(&mut s, &p, 1_000, false);
    assert!(matches!(monitor_position(&s, &c, &p, 1_001), MonitorAction::CheckSpike));
    after_spike_alert(&mut s, &p, 1_000, true);
    assert!(matches!(monitor_position(&s, &c, &p, 1_099), MonitorAction::NextPosition));
    assert!(matches!(monitor_position(&s, &c, &p, 1_100), MonitorAction::CheckSpike));
    let pool = pool_of(&p);
    assert_eq!((pool.address, pool.created_block, pool.created_timestamp), (address(0xAB), 5, 0));
}
