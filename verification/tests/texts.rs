use robinhood_lp_bot::address::{parse_address, Address, U256};
use robinhood_lp_bot::chain::dextools::{
    audit_issue_count, lowered_issue_count, DexToolsClient, DextoolsTax, DextoolsTokenAudit,
};
use robinhood_lp_bot::decimal::{fmt_num, parse_u64};
use robinhood_lp_bot::text::{
    contains, join, join_from, push_padded, same, split_white_space, starts_with, strip_prefix,
    trim, trim_end_slashes,
};

#[test]
fn addresses_are_read_and_written() {
    let text = "0x1f7d7550b1b028f7571e69a784071f0205fd2efa";
    let a = parse_address(text).unwrap();
    assert_eq!(a, Address { hi: 0x1f7d7550, lo: 0xb1b028f7571e69a784071f0205fd2efa });
    assert_eq!(a.text(), text);
    assert_eq!(parse_address("0x1F7D7550B1B028F7571E69A784071F0205FD2EFA"), Some(a));
    assert_eq!(parse_address("1f7d7550b1b028f7571e69a784071f0205fd2efa"), Some(a));
    assert_eq!(parse_address("0x1f7d"), None);
    assert_eq!(parse_address("0xzz7d7550b1b028f7571e69a784071f0205fd2efa"), None);
    assert_eq!(parse_address(""), None);
    assert_eq!(Address { hi: 0, lo: 7 }.text(), "0x0000000000000000000000000000000000000007");
}

#[test]
fn every_address_is_read_back() {
    for a in [
        Address { hi: 0, lo: 0 },
        Address { hi: u32::MAX, lo: u128::MAX },
        Address { hi: 1, lo: 0xabcdef },
    ] {
        assert_eq!(parse_address(&a.text()), Some(a));
    }
}

#[test]
fn amounts_are_written_in_decimal() {
    assert_eq!(U256 { hi: 0, lo: 0 }.text(), "0");
    assert_eq!(U256 { hi: 0, lo: u128::MAX }.text(), u128::MAX.to_string());
    assert_eq!(U256 { hi: 1, lo: 0 }.text(), "340282366920938463463374607431768211456");
    assert!(U256 { hi: 0, lo: u128::MAX }.less_than(U256 { hi: 1, lo: 0 }));
    assert!(!U256 { hi: 1, lo: 0 }.less_than(U256 { hi: 1, lo: 0 }));
}

#[test]
fn numbers_are_read_as_the_standard_library_does() {
    for text in [
        "0", "7", "+7", "-7", "", "+", "007", "18446744073709551615", "18446744073709551616", "1 ",
        "1e3", "12a",
    ] {
        assert_eq!(parse_u64(text), text.parse::<u64>().ok());
    }
}

#[test]
fn thousands_are_set_apart() {
    assert_eq!(fmt_num(0), "0");
    assert_eq!(fmt_num(999), "999");
    assert_eq!(fmt_num(1_000), "1,000");
    assert_eq!(fmt_num(1_234_567), "1,234,567");
    assert_eq!(fmt_num(u64::MAX), "18,446,744,073,709,551,615");
}

#[test]
fn white_space_is_trimmed_and_split_as_the_standard_library_does() {
    for text in ["", "  ", " a b ", "\u{2003}x\u{a0}y\n", "/check   0x1", "\u{85}q\u{3000}"] {
        assert_eq!(trim(text), text.trim());
        let words: Vec<String> = text.split_whitespace().map(|w| w.to_string()).collect();
        assert_eq!(split_white_space(text), words);
    }
}

#[test]
fn prefixes_and_parts_are_found() {
    assert!(starts_with("/positions now", "/positions"));
    assert!(!starts_with("/pos", "/positions"));
    assert_eq!(strip_prefix("addlp:0x1", "addlp:"), Some("0x1".to_string()));
    assert_eq!(strip_prefix("closepos:1", "addlp:"), None);
    assert!(contains("xuniswapx", "uniswap"));
    assert!(contains("abc", ""));
    assert!(!contains("unisw", "uniswap"));
    assert!(same("a", "a") && !same("a", "A"));
    assert_eq!(trim_end_slashes("https://x//"), "https://x");
    assert_eq!(trim_end_slashes("///"), "");
}

#[test]
fn texts_are_joined_and_padded() {
    let parts = vec!["a".to_string(), "b".to_string(), "c".to_string()];
    assert_eq!(join(&parts, ", "), "a, b, c");
    assert_eq!(join_from(&parts, 1, " "), "b c");
    assert_eq!(join(&Vec::new(), ", "), "");
    let mut text = "|".to_string();
    push_padded(&mut text, "—", 4);
    push_padded(&mut text, "longer", 3);
    assert_eq!(text, format!("|{:>4}{:>3}", "—", "longer"));
}

fn audit(flag: &str, good: &str) -> DextoolsTokenAudit {
    let tax = DextoolsTax { min: None, max: None, status: "unknown".to_string() };
    DextoolsTokenAudit {
        is_open_source: good.to_string(),
        is_honeypot: flag.to_string(),
        is_mintable: flag.to_string(),
        is_proxy: flag.to_string(),
        slippage_modifiable: flag.to_string(),
        is_blacklisted: flag.to_string(),
        sell_tax: tax.clone(),
        buy_tax: tax,
        is_contract_renounced: good.to_string(),
        is_potentially_scam: flag.to_string(),
        updated_at: "".to_string(),
    }
}

#[test]
fn audit_issues_are_counted_in_any_case() {
    assert_eq!(audit_issue_count(&audit("no", "yes")), 0);
    assert_eq!(audit_issue_count(&audit("YES", "No")), 8);
    assert_eq!(audit_issue_count(&audit("Yes", "yes")), 6);
    assert_eq!(audit_issue_count(&audit("unknown", "NO")), 2);
    assert_eq!(lowered_issue_count(&audit("YES", "NO")), 0);
    assert_eq!(lowered_issue_count(&audit("yes", "no")), 8);
}

#[test]
fn dextools_requests_are_built() {
    let client = DexToolsClient::new("k".to_string());
    let hot = client.fetch_hotpools("robinhood");
    assert_eq!(hot.url, "https://api.dextools.io/v2/ranking/robinhood/hotpools");
    assert_eq!(hot.api_key_header, "Bearer k");
    assert_eq!(
        client.fetch_pool_score("robinhood", "0x1").url,
        "https://api.dextools.io/v2/pool/robinhood/0x1/score"
    );
    assert_eq!(
        client.fetch_token_audit("robinhood", "0x2").url,
        "https://api.dextools.io/v2/token/robinhood/0x2/audit"
    );
}
