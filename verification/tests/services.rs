use robinhood_lp_bot::address::Address;
use robinhood_lp_bot::chain::dexscreener::{
    fetch_pair, pair_url, DexScreenerPair, DexScreenerResponse, Liquidity, PriceChange, TokenInfo,
    TxnCount, Txns, Volume,
};
use robinhood_lp_bot::chain::geckoterminal::{
    fetch_token_info, info_url, parse_pct, RawDistribution, RawHolders, RawScoreDetails,
    RawTokenAttributes,
};
use robinhood_lp_bot::chain::goplus::{
    fetch_token_security, is_nobody, parse_bool, parse_pct_fraction, security_url, RawHolder,
    RawResponse, RawTokenSecurity,
};
use robinhood_lp_bot::chain::reply::{read_reply, Reply};
use robinhood_lp_bot::chain::safety::{
    is_contract_verified, verification_url, BlockscoutContractResp,
};
use robinhood_lp_bot::double::Double;

fn d(x: f64) -> Double {
    Double { bits: x.to_bits() }
}

fn refused<T>(code: u16) -> Reply<T> {
    Reply::Refused { code, status: "503 Service Unavailable".to_string(), text: "busy".to_string() }
}

#[test]
fn flags_are_read() {
    assert_eq!(parse_bool(&Some("1".to_string())), Some(true));
    assert_eq!(parse_bool(&Some("0".to_string())), Some(false));
    assert_eq!(parse_bool(&Some("yes".to_string())), None);
    assert_eq!(parse_bool(&None), None);
}

#[test]
fn fractions_become_percents() {
    assert_eq!(parse_pct_fraction(Some(d(0.05))), Some(d(0.05 * 100.0)));
    assert_eq!(parse_pct_fraction(Some(d(f64::NAN))), None);
    assert_eq!(parse_pct_fraction(Some(d(f64::INFINITY))), None);
    assert_eq!(parse_pct_fraction(None), None);
    assert_eq!(parse_pct(Some(d(45.23))), Some(d(45.23)));
    assert_eq!(parse_pct(Some(d(f64::NEG_INFINITY))), None);
}

fn holder(percent: f64, locked: Option<i32>) -> RawHolder {
    RawHolder { percent: Some(d(percent)), is_locked: locked }
}

fn raw() -> RawTokenSecurity {
    let mut holders = Vec::new();
    for _ in 0..12 {
        holders.push(holder(0.01, None));
    }
    RawTokenSecurity {
        holder_count: Some("1234".to_string()),
        holders: Some(holders),
        creator_percent: Some(d(f64::NAN)),
        owner_percent: Some(d(0.02)),
        buy_tax: Some(d(0.05)),
        sell_tax: None,
        is_open_source: Some("1".to_string()),
        is_mintable: Some("0".to_string()),
        owner_address: Some("0X0000000000000000000000000000000000000000".to_string()),
        is_honeypot: Some("0".to_string()),
        is_blacklisted: Some("".to_string()),
        transfer_pausable: Some("1".to_string()),
        lp_holders: Some(vec![holder(0.5, Some(1)), holder(0.3, Some(0)), holder(0.1, Some(1))]),
    }
}

#[test]
fn goplus_data_is_interpreted() {
    let token = Address { hi: 0, lo: 0xAB };
    let reply = Reply::Read { body: RawResponse { code: 1, result: vec![(token.text(), raw())] } };
    let s = fetch_token_security(token, &reply).unwrap();
    assert_eq!(s.holder_count, Some(1234));
    let ten: f64 = (0..10).map(|_| 0.01 * 100.0).sum();
    assert_eq!(s.top10_holder_pct, Some(d(ten)));
    assert_eq!(s.dev_holding_pct, Some(d(0.02 * 100.0)));
    assert_eq!(s.buy_tax_percent, Some(d(0.05 * 100.0)));
    assert_eq!(s.sell_tax_percent, None);
    assert_eq!(s.is_open_source, Some(true));
    assert_eq!(s.is_mintable, Some(false));
    assert_eq!(s.ownership_renounced, Some(true));
    assert_eq!(s.is_honeypot, Some(false));
    assert_eq!(s.is_blacklistable, None);
    assert_eq!(s.transfer_pausable, Some(true));
    assert_eq!(s.lp_locked_pct, Some(d(0.5 * 100.0 + 0.1 * 100.0)));
}

#[test]
fn a_share_that_is_unknown_leaves_the_sum_unknown() {
    let token = Address { hi: 0, lo: 0xAB };
    let read = |change: &dyn Fn(&mut RawTokenSecurity)| {
        let mut r = raw();
        change(&mut r);
        let body = RawResponse { code: 1, result: vec![(token.text(), r)] };
        fetch_token_security(token, &Reply::Read { body }).unwrap()
    };
    let unknown = RawHolder { percent: None, is_locked: Some(1) };
    assert_eq!(read(&|r| r.holders = Some(vec![holder(f64::NAN, None)])).top10_holder_pct, None);
    assert_eq!(
        read(&|r| r.holders = Some(vec![holder(0.1, None), unknown])).top10_holder_pct,
        None
    );
    assert_eq!(read(&|r| r.holders = Some(vec![])).top10_holder_pct, Some(d(0.0)));
    let eleventh = read(&|r| r.holders.as_mut().unwrap()[10] = unknown);
    assert!(eleventh.top10_holder_pct.is_some());
    assert_eq!(
        read(&|r| r.lp_holders = Some(vec![holder(0.5, Some(1)), unknown])).lp_locked_pct,
        None
    );
    assert_eq!(
        read(&|r| r.lp_holders = Some(vec![holder(0.5, Some(1)), holder(f64::NAN, Some(0))]))
            .lp_locked_pct,
        Some(d(50.0))
    );
}

#[test]
fn goplus_without_an_entry_says_nothing() {
    let token = Address { hi: 0, lo: 0xAB };
    let other = Address { hi: 0, lo: 0xAC };
    let body = |code| RawResponse { code, result: vec![(token.text(), raw())] };
    assert!(fetch_token_security(other, &Reply::Read { body: body(1) }).is_none());
    assert!(fetch_token_security(token, &Reply::Read { body: body(2) }).is_none());
    assert!(fetch_token_security(token, &Reply::Failed).is_none());
    assert!(fetch_token_security(token, &Reply::Unreadable).is_none());
    assert!(fetch_token_security(token, &refused(503)).is_none());
    assert_eq!(
        security_url(4663, token),
        "https://api.gopluslabs.io/api/v1/token_security/4663?contract_addresses=0x00000000000000000000000000000000000000ab"
    );
}

#[test]
fn nobody_owns_a_renounced_contract() {
    assert!(is_nobody(""));
    assert!(is_nobody("0x0000000000000000000000000000000000000000"));
    assert!(!is_nobody("0x0000000000000000000000000000000000000001"));
}

#[test]
fn gecko_data_is_interpreted() {
    let body = RawTokenAttributes {
        gt_score: Some(d(80.0)),
        gt_score_details: Some(RawScoreDetails {
            pool: Some(d(1.0)),
            transaction: Some(d(2.0)),
            creation: Some(d(3.0)),
            info: Some(d(4.0)),
            holders: None,
        }),
        gt_verified: Some(true),
        is_honeypot: Some(false),
        mint_authority: Some("0x1".to_string()),
        freeze_authority: None,
        developer_address: Some("".to_string()),
        developer_holding_percentage: Some(d(1.5)),
        holders: Some(RawHolders {
            count: Some(9),
            distribution_percentage: Some(RawDistribution { top_10: Some(d(45.23)) }),
        }),
    };
    let g = fetch_token_info(Reply::Read { body }).unwrap();
    assert_eq!(g.gt_score, Some(d(80.0)));
    assert_eq!(g.gt_score_transaction, Some(d(2.0)));
    assert_eq!(g.gt_score_holders, None);
    assert_eq!(g.mint_authority, Some("0x1".to_string()));
    assert_eq!(g.developer_holding_pct, Some(d(1.5)));
    assert_eq!(g.holder_count, Some(9));
    assert_eq!(g.top10_holder_pct, Some(d(45.23)));
    assert!(fetch_token_info(refused(429)).is_none());
    assert!(fetch_token_info(Reply::Failed).is_none());
    assert_eq!(
        info_url("robinhood", Address { hi: 0, lo: 1 }),
        "https://api.geckoterminal.com/api/v2/networks/robinhood/tokens/0x0000000000000000000000000000000000000001/info"
    );
}

#[test]
fn verification_is_read_from_blockscout() {
    let said = |v| Reply::Read { body: BlockscoutContractResp { is_verified: v } };
    assert_eq!(is_contract_verified(&said(Some(true))), Some(true));
    assert_eq!(is_contract_verified(&said(Some(false))), Some(false));
    assert_eq!(is_contract_verified(&said(None)), Some(false));
    assert_eq!(is_contract_verified(&refused(404)), Some(false));
    assert_eq!(is_contract_verified(&refused(500)), None);
    assert_eq!(is_contract_verified(&Reply::Failed), None);
    assert_eq!(is_contract_verified(&Reply::Unreadable), None);
    assert_eq!(
        verification_url("https://scan/api//", Address { hi: 0, lo: 1 }),
        "https://scan/api/smart-contracts/0x0000000000000000000000000000000000000001"
    );
}

fn pair(address: &str) -> DexScreenerPair {
    let token = TokenInfo {
        address: "a".to_string(),
        name: "n".to_string(),
        symbol: "s".to_string(),
    };
    let none = TxnCount { buys: 0, sells: 0 };
    DexScreenerPair {
        chain_id: "robinhood".to_string(),
        dex_id: "uniswap".to_string(),
        labels: None,
        pair_address: address.to_string(),
        base_token: token.clone(),
        quote_token: token,
        price_usd: "1".to_string(),
        txns: Txns { h24: none, h6: none, h1: none, m5: none },
        volume: Volume { h24: d(0.0), h6: d(0.0), h1: d(0.0), m5: d(0.0) },
        price_change: PriceChange { h24: None },
        liquidity: Some(Liquidity { usd: d(1.0) }),
        fdv: None,
        market_cap: None,
        pair_created_at: None,
        url: "u".to_string(),
    }
}

#[test]
fn the_single_pair_goes_before_the_list() {
    let both = DexScreenerResponse {
        pairs: Some(vec![pair("x"), pair("y")]),
        pair: Some(pair("z")),
    };
    assert_eq!(both.first_pair().unwrap().pair_address, "z");
    let list = DexScreenerResponse { pairs: Some(vec![pair("x"), pair("y")]), pair: None };
    let found = fetch_pair(Reply::Read { body: list }).unwrap();
    assert_eq!(found.unwrap().pair_address, "x");
    let empty = DexScreenerResponse { pairs: Some(Vec::new()), pair: None };
    assert!(empty.first_pair().is_none());
    let nothing = DexScreenerResponse { pairs: None, pair: None };
    assert!(nothing.first_pair().is_none());
}

#[test]
fn refusals_are_put_in_words() {
    assert_eq!(read_reply::<u8>(Reply::Failed, "S").unwrap_err(), "S request failed");
    assert_eq!(read_reply::<u8>(Reply::Unreadable, "S").unwrap_err(), "S JSON parse failed");
    assert_eq!(read_reply(Reply::Read { body: 5u8 }, "S").unwrap(), 5);
    assert_eq!(
        fetch_pair(refused(503)).unwrap_err(),
        "DexScreener returned 503 Service Unavailable: busy"
    );
    assert_eq!(
        pair_url("robinhood", "0x1"),
        "https://api.dexscreener.com/latest/dex/pairs/robinhood/0x1"
    );
}
