use robinhood_lp_bot::address::Address;
use robinhood_lp_bot::config::{
    AppConfig, ChainConfig, MonitoringConfig, ScreeningConfig, TelegramConfig, WalletConfig,
};
use robinhood_lp_bot::double::Double;
use robinhood_lp_bot::address::U256;
use robinhood_lp_bot::chain::autoswap::{FailedLeg, SwapResult};
use robinhood_lp_bot::chain::dexscreener::{
    DexScreenerPair, Liquidity, PriceChange, TokenInfo, TxnCount, Txns, Volume,
};
use robinhood_lp_bot::chain::dextools::{DextoolsRankedPool, DextoolsToken};
use robinhood_lp_bot::chain::lp::{CloseResult, LpResult};
use robinhood_lp_bot::models::{
    PoolCandidate, PoolInfo, PoolMetrics, Position, PositionPnl, ScreenResult, VolumeSpike,
};
use robinhood_lp_bot::screener::screen;
use robinhood_lp_bot::storage::Storage;
use robinhood_lp_bot::telegram::alerts::{
    close_button, format_alert, format_position_line, handle_positions_command, send_alert,
    send_spike_alert, send_tp_sl_alert,
};
use robinhood_lp_bot::telegram::check::{
    check_report, failed_metrics, handle_check_command, unreadable_pool, CheckRequest,
};
use robinhood_lp_bot::telegram::lookup::{
    dexscreener_pair_message, handle_dexscreener_command, search_failed, search_messages,
    LookupRequest,
};
use robinhood_lp_bot::telegram::ranking::{
    any_v3, busy_pools, dextools_error, dextools_messages, handle_dextools_top10_command,
    handle_uniswap_top10_command, hot_uniswap_pools, is_uniswap_pool, is_uniswap_v3, keep_busiest,
    liquidity_score,
};
use robinhood_lp_bot::telegram::routing::{
    is_owner, route_callback, route_message, sender_chat, Command, Tap,
};
use robinhood_lp_bot::telegram::sorting::{descending_key, sort_candidates, Candidate};
use robinhood_lp_bot::telegram::status::{handle_status_command, handle_toggle_command};
use robinhood_lp_bot::telegram::taps::{
    add_lp_message, close_message, conclude_add_lp, conclude_close, handle_add_lp_tap,
    handle_close_tap, opened_position, AddLpOrder, CloseTap,
};
use robinhood_lp_bot::telegram::units::{
    age_seconds, avg_trade, fmt_bool, fmt_compact, fmt_compact_nk, format_age_ms, pct_of_24h,
    short_age,
};

#[allow(dead_code)]
fn d(x: f64) -> Double {
    Double { bits: x.to_bits() }
}

#[allow(dead_code)]
fn f(x: Double) -> f64 {
    f64::from_bits(x.bits)
}

#[allow(dead_code)]
fn address(n: u128) -> Address {
    Address { hi: 0, lo: n }
}

#[allow(dead_code)]
fn config() -> AppConfig {
    let text = |n: u128| address(n).text();
    AppConfig {
        chain: ChainConfig {
            rpc_url: "http://localhost".to_string(),
            chain_id: 4663,
            uniswap_v3_factory: text(1),
            position_manager: text(2),
            weth_address: text(3),
            usdc_address: text(4),
            factory_deployment_block: 77,
            blockscout_api_base: "https://scan.example/api/".to_string(),
            explorer_base_url: "https://scan.example//".to_string(),
            swap_router: text(5),
            quoter_v2: text(6),
        },
        wallet: WalletConfig {
            private_key: "key".to_string(),
            default_lp_usd_amount: d(50.0),
            slippage_bps: 100,
            tick_range_percent: d(20.0),
        },
        screening: ScreeningConfig {
            enabled: true,
            min_tvl_usd: d(10_000.0),
            min_volume_24h_usd: d(5_000.0),
            min_apr_percent: d(20.0),
            max_apr_percent: d(2_000.0),
            min_pool_age_hours: d(1.0),
            require_verified_tokens: true,
            max_honeypot_loss_percent: d(10.0),
            honeypot_test_amount_usd: d(10.0),
            poll_interval_secs: 30,
            lookback_blocks_for_volume: 1_000,
            min_holder_count: 100,
            min_unique_traders_24h: 10,
            max_top10_holder_pct: d(40.0),
            max_dev_holding_pct: d(5.0),
            max_buy_tax_percent: d(5.0),
            max_sell_tax_percent: d(5.0),
            require_not_mintable: true,
            require_ownership_renounced: false,
            require_not_blacklistable: true,
            min_lp_locked_pct: d(0.0),
            require_goplus_data: false,
            hide_goplus: false,
            min_gt_score: d(0.0),
            require_gt_verified: false,
            gecko_network_id: " robinhood ".to_string(),
            hide_geckoterminal: false,
        },
        monitoring: MonitoringConfig {
            take_profit_percent: d(25.0),
            stop_loss_percent: d(15.0),
            position_check_interval_secs: 60,
            volume_spike_multiplier: d(3.0),
            volume_spike_window_hours: d(1.0),
            approx_blocks_per_hour: 100,
        },
        telegram: TelegramConfig { bot_token: "token".to_string(), chat_id: 42 },
        dextools_api_key: "".to_string(),
    }
}

fn metrics() -> PoolMetrics {
    PoolMetrics {
        token0_symbol: "ABC".to_string(),
        token1_symbol: "WETH".to_string(),
        tvl_usd: Some(d(50_000.0)),
        volume_24h_usd: Some(d(20_000.0)),
        apr_percent: Some(d(43.8)),
        age_hours: d(5.25),
        token0_verified: Some(true),
        token1_verified: Some(true),
        honeypot_sellable: Some(true),
        honeypot_round_trip_loss_percent: Some(d(1.2)),
        market_cap_usd: Some(d(1_000_000.0)),
        unique_traders_24h: Some(40),
        holder_count: Some(500),
        top10_holder_pct: Some(d(20.0)),
        dev_holding_pct: Some(d(1.0)),
        buy_tax_percent: Some(d(1.0)),
        sell_tax_percent: Some(d(2.0)),
        is_mintable: Some(false),
        ownership_renounced: Some(true),
        is_honeypot_goplus: Some(false),
        is_blacklistable: Some(false),
        transfer_pausable: Some(false),
        lp_locked_pct: Some(d(90.0)),
        gt_score: Some(d(80.0)),
        gt_score_pool: None,
        gt_score_transaction: None,
        gt_score_creation: None,
        gt_score_info: None,
        gt_score_holders: None,
        gt_verified: Some(true),
        gecko_is_honeypot: Some(false),
        gecko_mint_authority: None,
        gecko_freeze_authority: None,
        gecko_developer_address: None,
        gecko_developer_holding_pct: None,
        gecko_holder_count: None,
        gecko_top10_holder_pct: None,
    }
}

fn info() -> PoolInfo {
    PoolInfo {
        address: address(0xAB),
        token0: address(8),
        token1: address(3),
        fee: 3000,
        created_block: 10,
        created_timestamp: 100,
    }
}

fn amount(v: u128) -> U256 {
    U256 { hi: 0, lo: v }
}

fn position(token_id: u64) -> Position {
    Position {
        token_id,
        pool_address: address(0xAB),
        pool_created_block: 0,
        token0: address(8),
        token1: address(3),
        token0_symbol: "ABC".to_string(),
        token1_symbol: "WETH".to_string(),
        fee: 3000,
        tick_lower: -60,
        tick_upper: 60,
        entry_cost_usd: d(50.0),
        entry_timestamp: 9,
        mint_tx_hash: "0x1".to_string(),
        closed: false,
    }
}

fn result(m: PoolMetrics) -> ScreenResult {
    let mut r = screen(PoolCandidate { info: info(), metrics: m }, &config().screening);
    r.reasons = vec!["one".to_string(), "two".to_string()];
    r
}

#[test]
fn an_alert_lists_what_is_known() {
    let expected = [
        "🟢 *Pool passed screening*",
        "*Pair:* ABC/WETH",
        "*Address:* `0x00000000000000000000000000000000000000ab`",
        "*Fee tier:* 0.30%",
        "*TVL:* $50000",
        "*Market cap (FDV):* $1000000",
        "*24h volume:* $20000",
        "*Est. fee APR:* 43.8%",
        "*Holders:* 500",
        "*Unique traders (24h, approx.):* 40",
        "*Top-10 holders:* 20.0% of supply",
        "*Dev/creator holdings:* 1.0%",
        "*Buy/sell tax:* 1.0% / 2.0%",
        "*Ownership renounced:* yes",
        "*Mintable:* no",
        "*LP locked (GoPlus):* 90.0%",
        "*Honeypot check:* passed (simulated round-trip loss 1.2%)",
        "*Age:* 5.2h",
        "",
        "*Why it passed:*",
        "• one",
        "• two",
        "",
        "⚠️ This is an automated screen, not financial advice. Verify the pool yourself before adding liquidity — tapping the button below will sign and send a real transaction.",
    ]
    .join("\n");
    let r = result(metrics());
    assert_eq!(format_alert(&r), expected);
    let message = send_alert(&r);
    assert_eq!(message.text, expected);
    assert!(message.markdown);
    let button = message.button.unwrap();
    assert_eq!(button.label, "✅ Add LP now");
    assert_eq!(button.data, "addlp:0x00000000000000000000000000000000000000ab");
}

#[test]
fn an_alert_leaves_out_what_is_unknown() {
    let mut m = metrics();
    m.market_cap_usd = None;
    m.holder_count = None;
    m.sell_tax_percent = None;
    m.ownership_renounced = Some(false);
    m.is_mintable = Some(true);
    m.honeypot_sellable = None;
    let text = format_alert(&result(m));
    assert!(!text.contains("Market cap") && !text.contains("Holders:*") && !text.contains("tax"));
    assert!(!text.contains("Honeypot"));
    assert!(text.contains("*Ownership renounced:* ⚠️ no\n*Mintable:* ⚠️ yes"));
}

#[test]
fn limit_and_spike_alerts_offer_to_close() {
    let m = send_tp_sl_alert(&position(7), d(-15.04), "Stop-loss");
    assert_eq!(
        m.text,
        "🎯 *Stop-loss hit*\n*Pair:* ABC/WETH\n*Position:* `#7`\n*PnL:* -15.0%\n\nTap below to close and collect principal + fees. This sends a real transaction."
    );
    assert_eq!(m.button.unwrap().data, "closepos:7");
    let spike = VolumeSpike {
        recent_volume_usd: d(900.4),
        previous_volume_usd: d(300.6),
        ratio: d(2.96),
    };
    let m = send_spike_alert(&position(7), &spike);
    assert_eq!(
        m.text,
        "📈 *Volume spike detected*\n*Pair:* ABC/WETH\n*Position:* `#7`\nRecent-window volume: $900\nPrevious window: $301\n*Ratio:* 3.0x\n\nWorth a look — could be a good exit or a warning sign depending on direction. Tap below if you'd like to close this position."
    );
    assert_eq!(m.button.unwrap().label, "🔴 Close position");
    assert_eq!(close_button(12), "closepos:12");
}

#[test]
fn positions_are_listed() {
    let none = handle_positions_command(&Vec::new(), &Vec::new());
    assert_eq!((none.text.as_str(), none.markdown), ("No open positions.", false));
    let pnl = PositionPnl {
        current_value_usd: d(55.0),
        uncollected_fees_usd: d(1.0),
        pnl_usd: d(5.0),
        pnl_percent: d(10.0),
        in_range: true,
    };
    let list = handle_positions_command(&vec![position(1), position(2)], &vec![Some(pnl), None]);
    assert_eq!(
        list.text,
        "*Open positions:*\n\n*#1* ABC/WETH — entry $50.00\nPnL: +10.0% (+5.00 USD) · in range\n\n*#2* ABC/WETH — entry $50.00\nPnL: unavailable · unknown\n"
    );
    assert_eq!(
        format_position_line(&position(3), Some(d(-1.0)), Some(d(-0.5)), Some(false)),
        "*#3* ABC/WETH — entry $50.00\nPnL: -1.0% (-0.50 USD) · OUT OF RANGE"
    );
}

#[test]
fn only_the_owner_is_obeyed() {
    let c = config();
    let text = |t: &str| Some(t.to_string());
    assert!(is_owner(&c, 42) && !is_owner(&c, 43));
    for (said, command) in [
        ("  /positions", Command::Positions),
        ("/pnl now", Command::Positions),
        ("/check 0x1", Command::Check),
        ("/toggle", Command::ToggleScreening),
        ("/toggle_screening\n", Command::ToggleScreening),
        ("/status", Command::Status),
        ("/screening_status", Command::Status),
        ("/dexscreener ABC", Command::DexScreener),
        ("/dextools_top10", Command::DextoolsTop10),
        ("/uniswap_top10", Command::UniswapTop10),
        ("/status now", Command::Ignore),
        ("hello", Command::Ignore),
    ] {
        assert_eq!(route_message(&c, 42, &text(said)), command);
        assert_eq!(route_message(&c, 43, &text(said)), Command::Ignore);
    }
    assert_eq!(route_message(&c, 42, &None), Command::Ignore);
    for data in ["addlp:0x1", "closepos:1", "copyaddr:0x1"] {
        assert!(matches!(route_callback(&c, Some(43), 42, &text(data)), Tap::Ignore));
        assert!(matches!(route_callback(&c, None, 43, &text(data)), Tap::Ignore));
        assert!(!matches!(route_callback(&c, None, 42, &text(data)), Tap::Ignore));
    }
    assert_eq!(sender_chat(Some(-5), 42), -5);
    assert_eq!(sender_chat(None, 42), 42);
}

#[test]
fn buttons_lead_back_to_what_they_stand_for() {
    let c = config();
    let data = send_alert(&result(metrics())).button.unwrap().data;
    match route_callback(&c, Some(42), 1, &Some(data)) {
        Tap::AddLp { pool_hex } => assert_eq!(handle_add_lp_tap(&c, &pool_hex).unwrap(), order()),
        other => panic!("{:?}", other),
    }
    let mut s = Storage::load_or_default(None);
    s.add_position(position(7));
    match route_callback(&c, Some(42), 1, &Some(close_button(7))) {
        Tap::Close { token_id } => match handle_close_tap(&s, &token_id) {
            CloseTap::Close { token_id, pool_address } => {
                assert_eq!((token_id, pool_address), (7, address(0xAB)))
            }
            other => panic!("{:?}", other),
        },
        other => panic!("{:?}", other),
    }
    match route_callback(&c, Some(42), 1, &Some("copyaddr:0xabc".to_string())) {
        Tap::CopyAddress { address } => assert_eq!(address, "0xabc"),
        other => panic!("{:?}", other),
    }
    assert!(matches!(route_callback(&c, Some(42), 1, &Some("other".to_string())), Tap::Ignore));
}

#[test]
fn unreadable_taps_are_answered() {
    let e = handle_add_lp_tap(&config(), "nonsense").unwrap_err();
    assert_eq!(
        (e.text.as_str(), e.markdown),
        ("Couldn't parse the pool address from that button — please check config/logs.", false)
    );
    let s = Storage::load_or_default(None);
    let say = |t: &str| match handle_close_tap(&s, t) {
        CloseTap::Say { message } => message.text,
        other => panic!("{:?}", other),
    };
    assert_eq!(say("x"), "Couldn't parse that position ID.");
    assert_eq!(
        say("9"),
        "Don't have position `#9` on record — can't determine its pool to close it safely."
    );
}

fn order() -> AddLpOrder {
    AddLpOrder { pool: address(0xAB), usd_amount: d(50.0) }
}

fn lp(token_id: Option<u64>) -> LpResult {
    LpResult {
        tx_hash: "0xfeed".to_string(),
        explorer_tx_url: "https://scan/tx/0xfeed".to_string(),
        token_id,
        token0: address(8),
        token1: address(3),
        fee: 3000,
        tick_lower: -60,
        tick_upper: 60,
    }
}

#[test]
fn added_liquidity_is_reported_and_kept() {
    assert_eq!(
        add_lp_message("0xab", &Ok(lp(Some(5)))).text,
        "✅ LP transaction sent\n[View on explorer](https://scan/tx/0xfeed)\nTracking as position `#5` — use /positions to check PnL any time."
    );
    assert!(add_lp_message("0xab", &Ok(lp(None))).text.contains("Couldn't parse a position ID"));
    assert_eq!(
        add_lp_message("0xab", &Err("boom".to_string())).text,
        "❌ Failed to add LP for `0xab`:\n`boom`"
    );
    let p = opened_position(order(), &lp(Some(5)), "A".to_string(), "B".to_string(), 77).unwrap();
    assert_eq!((p.token_id, p.pool_address, p.entry_timestamp), (5, address(0xAB), 77));
    assert_eq!((p.entry_cost_usd, p.closed, p.mint_tx_hash.as_str()), (d(50.0), false, "0xfeed"));
    assert!(opened_position(order(), &lp(None), "A".to_string(), "B".to_string(), 7).is_none());
}

#[test]
fn a_position_is_kept_exactly_where_its_id_is_known() {
    let mut s = Storage::load_or_default(None);
    s.add_position(position(1));
    let keep = |s: &mut Storage, result: Result<LpResult, String>| {
        conclude_add_lp(s, order(), &result, "A".to_string(), "B".to_string(), 77)
    };
    keep(&mut s, Err("boom".to_string()));
    keep(&mut s, Ok(lp(None)));
    assert_eq!(s.state.positions.len(), 1);
    keep(&mut s, Ok(lp(Some(5))));
    assert_eq!(s.state.positions.len(), 2);
    let p = s.get_position(5).unwrap();
    assert_eq!((p.token_id, p.pool_address, p.pool_created_block), (5, address(0xAB), 0));
    assert_eq!((p.token0, p.token1, p.fee), (address(8), address(3), 3000));
    assert_eq!((p.tick_lower, p.tick_upper), (-60, 60));
    assert_eq!((p.token0_symbol.as_str(), p.token1_symbol.as_str()), ("A", "B"));
    assert_eq!((p.entry_cost_usd, p.entry_timestamp, p.closed), (d(50.0), 77, false));
    assert_eq!(p.mint_tx_hash, "0xfeed");
}

#[test]
fn a_position_is_closed_on_record_once_its_close_succeeded() {
    let mut s = Storage::load_or_default(None);
    s.add_position(position(7));
    s.add_position(position(8));
    conclude_close(&mut s, 7, false);
    assert_eq!(s.open_positions().len(), 2);
    conclude_close(&mut s, 9, true);
    assert_eq!(s.open_positions().len(), 2);
    conclude_close(&mut s, 7, true);
    assert_eq!(s.open_positions().len(), 1);
    assert!(s.get_position(7).unwrap().closed && !s.get_position(8).unwrap().closed);
}

#[test]
fn a_close_is_reported() {
    let close = |swaps, failed_legs| {
        Ok(CloseResult {
            tx_hash: "0x1".to_string(),
            explorer_tx_url: "https://scan/tx/0x1".to_string(),
            swaps,
            failed_legs,
        })
    };
    assert_eq!(
        close_message(5, &close(vec![], vec![])).text,
        "✅ Position `#5` closed.\n[View on explorer](https://scan/tx/0x1)\nProceeds were already USDG — no swap needed."
    );
    let swap = SwapResult {
        tx_hash: "0x2".to_string(),
        token_in: address(8),
        amount_in: amount(1),
        amount_out: amount(990),
    };
    let leg = FailedLeg {
        stuck_token: address(9),
        stuck_amount: amount(12),
        reason: "reverted".to_string(),
    };
    assert_eq!(
        close_message(5, &close(vec![swap], vec![leg])).text,
        "✅ Position `#5` closed.\n[View on explorer](https://scan/tx/0x1)\n🔄 Auto-swapped proceeds to USDG (1 swap(s)):\n  `0x0000000000000000000000000000000000000008` → ~990 out\n\n⚠️ *Some proceeds couldn't be auto-swapped* (likely the token turned into a honeypot after screening — force-closed rather than blocking the whole close):\n  `0x0000000000000000000000000000000000000009` — 12 left in wallet as-is\n    reason: reverted\nCheck /positions and your wallet balance — you may want to try swapping this manually or just hold it."
    );
    assert!(close_message(5, &Err("boom".to_string()))
        .text
        .starts_with("❌ Failed to close position `#5`:\n`boom`\n\nNote: if liquidity"));
}

#[test]
fn a_pool_is_checked_by_hand() {
    let say = |t: &str| match handle_check_command(t) {
        CheckRequest::Say { message } => message.text,
        other => panic!("{:?}", other),
    };
    assert_eq!(
        say("/check"),
        "Usage: `/check <pool_address>`\nExample: `/check 0x1234…abcd`"
    );
    assert_eq!(say("/check  zzz "), "❌ Invalid address: `zzz`");
    match handle_check_command("/check 0x00000000000000000000000000000000000000ab extra") {
        CheckRequest::Check { pool_hex, pool, first } => {
            assert_eq!(pool, address(0xAB));
            assert_eq!(pool_hex, "0x00000000000000000000000000000000000000ab");
            assert_eq!(first.text, format!("🔍 Looking up pool `{}`…", pool_hex));
        }
        other => panic!("{:?}", other),
    }
    assert_eq!(unreadable_pool("0x1", "e").text, "❌ Could not read pool contract `0x1`:\n`e`");
    assert_eq!(failed_metrics("0x1", "e").text, "❌ Failed to compute metrics for `0x1`:\n`e`");
}

#[test]
fn a_check_is_reported() {
    let m = check_report("0xab", &result(metrics()));
    assert_eq!(
        m.text,
        "*Pool:* `0xab`\n*Pair:* ABC/WETH (fee 0.30%)\n*TVL:* $50000\n*24h volume:* $20000\n*Est. fee APR:* 43.8%\n*Age:* 5.2h\n*Token0 verified:* ✅\n*Token1 verified:* ✅\n\n🟢 *PASSED screening*\n*Reasons:*\n• one\n• two"
    );
    assert_eq!(m.button.unwrap().data, "addlp:0xab");
    let mut bad = metrics();
    bad.tvl_usd = None;
    bad.token1_verified = None;
    let m = check_report("0xab", &result(bad));
    assert!(m.button.is_none());
    assert!(m.text.contains("*Token1 verified:* ❌\n\n🔴 *FAILED screening*"));
    assert!(!m.text.contains("*TVL:*"));
}

#[test]
fn screening_is_switched_and_shown() {
    let c = config();
    let (on, m) = handle_toggle_command(&c, false);
    assert!(on);
    assert_eq!(
        m.text,
        "🟢 ON\n\nAuto-screening is now *enabled*. The bot will discover and screen new pools every 30s."
    );
    let (on, m) = handle_toggle_command(&c, true);
    assert!(!on && m.text.starts_with("🔴 OFF\n\nAuto-screening is now *disabled*."));
    let status = handle_status_command(&c).text;
    assert!(status.starts_with(
        "*Bot status:*\n\n*Auto-screening:* 🟢 ON\n*Poll interval:* 30s\n*Min TVL:* $10000\n*Min volume:* $5000\n*Min APR:* 20%\n*Max APR:* 2000%\n*Min age:* 1h\n*Verified tokens required:* yes\n\n*Commands:*\n"
    ));
    assert!(status.ends_with("`/positions` — list open positions"));
    assert_eq!(status.lines().count(), 18);
}

#[test]
fn amounts_are_shortened() {
    for (v, long, short) in [
        (5_040_000.0, "5.04M", "$5.0M"),
        (45_100.0, "45.1K", "$45K"),
        (10_000.0, "10.0K", "$10K"),
        (9_999.4, "9,999", "$10K"),
        (9_999.6, "10,000", "$10K"),
        (1_057.0, "1,057", "$1K"),
        (850.0, "850", "$850"),
        (2.5, "2", "$2"),
        (1.0, "1", "$1"),
        (0.5, "<1", "$0"),
        (-3.0, "<1", "$-3"),
        (2_500_000_000.0, "2.50B", "$2.5B"),
        (999.6, "1,000", "$1000"),
    ] {
        assert_eq!(fmt_compact(d(v)), long);
        assert_eq!(fmt_compact_nk(d(v)), short);
    }
    assert_eq!(avg_trade(d(1_000.0), 3, 1), "250");
    assert_eq!(avg_trade(d(4_228.0), 3, 1), "1,057");
    assert_eq!(avg_trade(d(1_000.0), 0, 0), "—");
    assert_eq!(pct_of_24h(d(50.0), d(200.0)), "25.0%");
    assert_eq!(pct_of_24h(d(50.0), d(0.0)), "—");
    assert_eq!(fmt_bool(Some(true), "y", "n", "u"), "y");
    assert_eq!(fmt_bool(Some(false), "y", "n", "u"), "n");
    assert_eq!(fmt_bool(None, "y", "n", "u"), "u");
}

#[test]
fn ages_are_shortened() {
    let now = 10_000_000_000u64;
    let ago = |s: u64| Some(now - s * 1000);
    for (s, long, short) in [
        (59, "<1m", "<1m"),
        (90, "2m", "2m"),
        (5_400, "1.5h", "2h"),
        (86_400, "1d", "1d"),
        (2_592_000, "1.0mo", "30d"),
    ] {
        assert_eq!(format_age_ms(ago(s), now), long);
        assert_eq!(short_age(age_seconds(ago(s), now)), short);
    }
    assert_eq!(format_age_ms(None, now), "unknown");
    assert_eq!(short_age(None), "?");
    assert_eq!(age_seconds(Some(now + 5), now), Some(0));
    assert_eq!(age_seconds(Some(now - 1_999), now), Some(1));
}

fn pair(address: &str, h24: f64, h1: f64) -> DexScreenerPair {
    let token = |s: &str| TokenInfo {
        address: "a".to_string(),
        name: "n".to_string(),
        symbol: s.to_string(),
    };
    let count = |buys, sells| TxnCount { buys, sells };
    DexScreenerPair {
        chain_id: "robinhood".to_string(),
        dex_id: "Uniswap".to_string(),
        labels: Some(vec!["x".to_string(), "V3".to_string()]),
        pair_address: address.to_string(),
        base_token: token("ABC"),
        quote_token: token("WETH"),
        price_usd: "0.01".to_string(),
        txns: Txns { h24: count(1_200, 800), h6: count(30, 20), h1: count(1, 1), m5: count(0, 0) },
        volume: Volume { h24: d(h24), h6: d(60_000.0), h1: d(h1), m5: d(0.0) },
        price_change: PriceChange { h24: Some(d(-3.456)) },
        liquidity: Some(Liquidity { usd: d(45_100_000.0) }),
        fdv: Some(d(5_040_000.0)),
        market_cap: None,
        pair_created_at: Some(1_000),
        url: "https://dex/1".to_string(),
    }
}

#[test]
fn a_pair_is_shown_with_its_windows() {
    let expected = [
        "📊 *#3 ABC / WETH* · robinhood · Age: *2h* · Price: *0.01*".replace("2h", "2.0h"),
        "0xAB".to_string(),
        "```".to_string(),
        format!("{:>3} {:>8} {:>8} {:>10} {:>10} {:>7}", "TF", "Buys", "Sells", "Volume", "AvgTrade", "vs24h"),
        format!("{:>3} {:>8} {:>8} {:>10} {:>10} {:>7}", "24h", "1,200", "800", "240.0K", "120", "—"),
        format!("{:>3} {:>8} {:>8} {:>10} {:>10} {:>7}", "6h", "30", "20", "60.0K", "1,200", "25.0%"),
        format!("{:>3} {:>8} {:>8} {:>10} {:>10} {:>7}", "1h", "1", "1", "500", "250", "0.2%"),
        format!("{:>3} {:>8} {:>8} {:>10} {:>10} {:>7}", "5m", "0", "0", "<1", "—", "0.0%"),
        "```".to_string(),
        "💧 45.10M · 🏦 5.04M · 24h 🔴 -3.46%".to_string(),
        "[Open on DexScreener](https://dex/1)".to_string(),
    ]
    .join("\n");
    let p = pair("0xAB", 240_000.0, 500.0);
    assert_eq!(dexscreener_pair_message(2, &p, 1_000 + 7_200_000), expected);
    let mut bare = pair("0xAB", 240_000.0, 500.0);
    bare.liquidity = None;
    bare.fdv = None;
    bare.price_change.h24 = None;
    assert_eq!(dexscreener_pair_message(0, &bare, 1_000).lines().count(), 10);
}

#[test]
fn searches_are_read_and_answered() {
    match handle_dexscreener_command("/dexscreener  FRANK  coin") {
        LookupRequest::Search { query, first } => {
            assert_eq!(query, "FRANK coin");
            assert_eq!(first.text, "🔍 Searching DexScreener for `FRANK coin`…");
        }
        other => panic!("{:?}", other),
    }
    match handle_dexscreener_command("/dexscreener") {
        LookupRequest::Say { message } => assert!(message.text.starts_with("Usage: `/dexscreener")),
        other => panic!("{:?}", other),
    }
    assert_eq!(search_failed("e").text, "❌ DexScreener search failed:\n`e`");
    let quiet = search_messages("ABC", &vec![pair("a", 199_999.0, 0.0)], 5);
    assert_eq!(quiet.len(), 1);
    assert_eq!(
        quiet[0].text,
        "No results with >=$200k 24h volume found for `ABC` on DexScreener."
    );
    let mut many = vec![pair("quiet", 1.0, 0.0)];
    for i in 0..7 {
        many.push(pair(&format!("p{}", i), 200_000.0, 0.0));
    }
    let shown = search_messages("ABC", &many, 5);
    assert_eq!(shown.len(), 5);
    assert!(shown[0].text.starts_with("📊 *#1 "));
    assert_eq!(shown[4].button.as_ref().unwrap().data, "copyaddr:p4");
    assert_eq!(shown[4].button.as_ref().unwrap().label, "📋 Copy pool address");
}

fn ranked(rank: u64, address: &str, exchange: &str, fee: f64) -> DextoolsRankedPool {
    let token = |s: &str| DextoolsToken {
        address: "t".to_string(),
        symbol: s.to_string(),
        name: "n".to_string(),
    };
    DextoolsRankedPool {
        rank,
        address: address.to_string(),
        exchange_name: exchange.to_string(),
        exchange_factory: "f".to_string(),
        creation_time: "c".to_string(),
        creation_block: 1,
        main_token: token("ABC"),
        side_token: token("WETH"),
        fee: d(fee),
    }
}

#[test]
fn the_dextools_ranking_is_filtered_and_sorted() {
    let mut c = config();
    let (go, m) = handle_dextools_top10_command(&c);
    assert!(!go && m.text.starts_with("❌ DexTools API key not configured.\nAdd `dextools_api_key = \"your-key\"`"));
    c.dextools_api_key = " k ".to_string();
    let (go, m) = handle_dextools_top10_command(&c);
    assert!(go && m.text == "🔍 Scanning DexTools top pools for Robinhood chain…" && !m.markdown);
    assert_eq!(dextools_error("e").text, "❌ DexTools API error:\n`e`");
    let none = hot_uniswap_pools(&Vec::new()).unwrap_err();
    assert_eq!(none.text, "No hot pools found on DexTools for Robinhood chain.");
    let other = hot_uniswap_pools(&vec![ranked(1, "0xA", "Sushi", 1.0)]).unwrap_err();
    assert_eq!(other.text, "No Uniswap v3 pools in the DexTools hot list for Robinhood chain.");
    assert!(is_uniswap_pool("uniswap v3", d(0.3)) && !is_uniswap_pool("uniswap v3", d(0.0)));
    let pools = vec![
        ranked(3, "0xA", "UniSwap", 1.0),
        ranked(9, "0xB", "Sushi", 1.0),
        ranked(1, "0xC", "uniswap", 1.0),
        ranked(1, "0xD", "uniswap", 1.0),
        ranked(2, "0xE", "uniswap", 1.0),
    ];
    let places = hot_uniswap_pools(&pools).unwrap();
    assert_eq!(places, vec![0, 2, 3, 4]);
    let busy = |h1| Some(pair("x", 0.0, h1));
    let quiet = busy_pools(&pools, &vec![0], &vec![busy(199_999.0)], 1_000).unwrap_err();
    assert_eq!(
        quiet.text,
        "No Uniswap v3 pools on Robinhood chain with >=$200k 1h volume found on DexScreener."
    );
    let found = busy_pools(
        &pools,
        &places,
        &vec![busy(200_000.0), busy(300_000.0), busy(400_000.0), None],
        1_000 + 120_000,
    )
    .unwrap();
    assert_eq!(found.len(), 3);
    let shown = dextools_messages(
        &pools,
        &found,
        &vec![Some(d(70.0)), Some(d(90.0)), Some(d(80.0))],
        &vec![Some(3), Some(0), Some(1)],
    );
    assert_eq!(shown.len(), 3);
    assert_eq!(
        shown[0].text,
        "📊 *#1 ABC / WETH*\nM$5.0M V$300K L$45.1M S90 🛡️ A2m\n0xc"
    );
    assert_eq!(shown[0].button.as_ref().unwrap().data, "copyaddr:0xc");
    assert_eq!(
        shown[1].text,
        "📊 *#2 ABC / WETH*\nM$5.0M V$400K L$45.1M S80 🛡️1 A2m\n0xd"
    );
    assert!(shown[2].text.contains("0xa"));
    let failed = dextools_messages(
        &pools,
        &found,
        &vec![Some(d(69.9)), None, Some(d(80.0))],
        &vec![Some(0), Some(0), None],
    );
    assert_eq!(failed.len(), 1);
    assert_eq!(
        failed[0].text,
        "No pools passed all filters (Uniswap v3 + >=$200k 1h vol + score >=70 + audit issues <=3)."
    );
}

#[test]
fn uniswap_pools_are_deduplicated_filtered_and_sorted() {
    let texts = |pairs: Vec<DexScreenerPair>| -> Vec<String> {
        handle_uniswap_top10_command(&pairs, 1_000 + 120_000).iter().map(|m| m.text.clone()).collect()
    };
    assert_eq!(
        texts(vec![]),
        vec!["No Uniswap v3 pools found on Robinhood chain via DexScreener."]
    );
    assert_eq!(
        texts(vec![pair("a", 99_999.0, 0.0)]),
        vec!["No Uniswap v3 pools on Robinhood chain with >=$100k 24h volume."]
    );
    assert_eq!(
        texts(vec![pair("a", 100_000.0, 0.0)]),
        vec!["No pools passed all filters (Uniswap v3 + >=$100k 24h vol + mcap >=$20k + score >=50)."]
    );
    let shown = texts(vec![
        pair("0xA", 60_000_000.0, 0.0),
        pair("0xB", 80_000_000.0, 0.0),
        pair("0xa", 90_000_000.0, 0.0),
    ]);
    assert_eq!(
        shown,
        vec![
            "📊 *#1 ABC / WETH*\nM$5.0M V$90.0M L$45.1M S100 A2m\n0xa",
            "📊 *#2 ABC / WETH*\nM$5.0M V$80.0M L$45.1M S100 A2m\n0xb",
        ]
    );
    let mut many = Vec::new();
    for i in 0..12 {
        many.push(pair(&format!("p{}", i), 100_000_000.0 + i as f64, 0.0));
    }
    let shown = texts(many);
    assert_eq!(shown.len(), 10);
    assert!(shown[0].ends_with("p11") && shown[9].ends_with("p2"));
}

#[test]
fn the_busiest_pair_of_an_address_is_kept() {
    let pairs = vec![
        pair("x", 1.0, 0.0),
        pair("y", 5.0, 0.0),
        pair("x", 2.0, 0.0),
        pair("x", 2.0, 0.0),
        pair("y", 4.0, 0.0),
    ];
    let names: Vec<String> = pairs.iter().map(|p| p.pair_address.clone()).collect();
    assert_eq!(keep_busiest(&pairs, &names), vec![2, 1]);
    assert!(is_uniswap_v3(&pairs[0]));
    let mut v2 = pair("x", 1.0, 0.0);
    v2.labels = Some(vec!["v2".to_string()]);
    assert!(!is_uniswap_v3(&v2));
    v2.labels = None;
    assert!(!is_uniswap_v3(&v2));
    let mut other = pair("x", 1.0, 0.0);
    other.dex_id = "sushi".to_string();
    assert!(!is_uniswap_v3(&other));
    assert!(any_v3(&vec!["a".to_string(), "uni-v3".to_string()]) && !any_v3(&vec!["V3".to_string()]));
    let vol: f64 = 300_000.0;
    let liq: f64 = 200_000.0;
    let full = |x: f64| (x * 100.0).min(100.0);
    let expected = full(vol / 1_000_000.0) * 0.6 + full(liq / 500_000.0) * 0.4;
    assert_eq!(liquidity_score(d(vol), d(liq)), d(expected.min(100.0)));
    assert_eq!(liquidity_score(d(1_000_000.0), d(500_000.0)), d(100.0));
    assert_eq!(liquidity_score(d(1_000_000.0), d(250_000.0)), d(80.0));
    assert_eq!(liquidity_score(d(1e12), d(1e12)), d(100.0));
    assert_eq!(liquidity_score(d(1e12), d(0.0)), d(0.0));
}

#[test]
fn candidates_are_sorted_stably() {
    let candidate = |place, key| Candidate {
        place,
        market_cap: d(0.0),
        liquidity: d(0.0),
        age_secs: None,
        volume: d(0.0),
        score: d(0.0),
        audit_issues: 0,
        key,
    };
    let sorted = sort_candidates(&vec![
        candidate(0, 5),
        candidate(1, 2),
        candidate(2, 5),
        candidate(3, 1),
        candidate(4, 2),
    ]);
    let places: Vec<usize> = sorted.iter().map(|c| c.place).collect();
    assert_eq!(places, vec![3, 1, 4, 0, 2]);
    assert!(descending_key(d(2.0)) < descending_key(d(1.0)));
    assert!(descending_key(d(f64::INFINITY)) < descending_key(d(1e300)));
}
