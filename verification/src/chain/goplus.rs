//! Token security data of GoPlus.
use vstd::prelude::*;
use vstd::string::*;

use crate::address::{address_text, Address};
use crate::chain::reply::Reply;
use crate::decimal::{decimal, parse_u64, parsed_u64, push_decimal};
use crate::double::{product_of, sum_of, Double};
use crate::numbers::HUNDRED;
use crate::text::{lowercase, same, to_lowercase};

verus! {

/// What GoPlus knows of a token. None means "unknown", not "safe".
#[derive(Debug, Clone, Copy, PartialEq, Eq, Structural)]
pub struct GoPlusSecurity {
    pub holder_count: Option<u64>,
    /// Share of supply of the ten largest holders, in percent.
    pub top10_holder_pct: Option<Double>,
    /// Holdings of the creator, in percent of supply.
    pub dev_holding_pct: Option<Double>,
    pub buy_tax_percent: Option<Double>,
    pub sell_tax_percent: Option<Double>,
    pub is_open_source: Option<bool>,
    /// True means that some privileged caller can mint.
    pub is_mintable: Option<bool>,
    /// True means that nobody holds the contract's owner role.
    pub ownership_renounced: Option<bool>,
    pub is_honeypot: Option<bool>,
    /// True means that the contract can keep addresses from transferring.
    pub is_blacklistable: Option<bool>,
    pub transfer_pausable: Option<bool>,
    /// Percent of LP tokens in addresses that GoPlus knows as locked.
    pub lp_locked_pct: Option<Double>,
}

/// A holder, with its share of supply as the number that GoPlus's text reads as.
#[derive(Debug, Clone, Copy, PartialEq, Eq, Structural)]
pub struct RawHolder {
    pub percent: Option<Double>,
    pub is_locked: Option<i32>,
}

/// A token's entry in GoPlus's answer, where flags are texts and shares are the
/// numbers that the texts read as.
#[derive(Debug)]
pub struct RawTokenSecurity {
    pub holder_count: Option<String>,
    pub holders: Option<Vec<RawHolder>>,
    pub creator_percent: Option<Double>,
    pub owner_percent: Option<Double>,
    pub buy_tax: Option<Double>,
    pub sell_tax: Option<Double>,
    pub is_open_source: Option<String>,
    pub is_mintable: Option<String>,
    pub owner_address: Option<String>,
    pub is_honeypot: Option<String>,
    pub is_blacklisted: Option<String>,
    pub transfer_pausable: Option<String>,
    pub lp_holders: Option<Vec<RawHolder>>,
}

/// GoPlus's answer: entries by the token's address in lower case.
#[derive(Debug)]
pub struct RawResponse {
    pub code: i32,
    pub result: Vec<(String, RawTokenSecurity)>,
}

pub open spec fn parsed_bool(s: Option<String>) -> Option<bool> {
    match s {
        Some(t) => if t@ == "1"@ {
            Some(true)
        } else if t@ == "0"@ {
            Some(false)
        } else {
            None
        },
        None => None,
    }
}

/// A flag that is written as "1" or "0"; anything else is unknown.
pub fn parse_bool(s: &Option<String>) -> (r: Option<bool>)
    ensures
        r == parsed_bool(*s),
{
    match s {
        Some(t) => if same(t.as_str(), "1") {
            Some(true)
        } else if same(t.as_str(), "0") {
            Some(false)
        } else {
            None
        },
        None => None,
    }
}

pub open spec fn percent_of(fraction: Option<Double>) -> Option<Double> {
    match fraction {
        Some(v) => if v.finite() {
            Some(product_of(v, Double { bits: HUNDRED }))
        } else {
            None
        },
        None => None,
    }
}

/// A fraction in percent; what is not a finite number is unknown.
pub fn parse_pct_fraction(fraction: Option<Double>) -> (r: Option<Double>)
    ensures
        r == percent_of(fraction),
{
    match fraction {
        Some(v) => if v.is_finite() {
            Some(v.times(Double { bits: HUNDRED }))
        } else {
            None
        },
        None => None,
    }
}

/// The shares of the first `n` holders, added up; of the locked ones where
/// `locked_only`. Unknown as soon as one of these shares is.
pub open spec fn share_sum(holders: Seq<RawHolder>, n: nat, locked_only: bool) -> Option<Double>
    decreases n,
{
    if n == 0 {
        Some(Double { bits: 0 })
    } else {
        let before = share_sum(holders, (n - 1) as nat, locked_only);
        let h = holders[n - 1];
        if locked_only && h.is_locked != Some(1i32) {
            before
        } else {
            match (before, percent_of(h.percent)) {
                (Some(sum), Some(p)) => Some(sum_of(sum, p)),
                _ => None,
            }
        }
    }
}

/// Where one of the shares is unknown, so is the sum, of however many more.
proof fn lemma_unknown_stays(holders: Seq<RawHolder>, k: nat, n: nat, locked_only: bool)
    requires
        share_sum(holders, k, locked_only) is None,
        k <= n,
    ensures
        share_sum(holders, n, locked_only) is None,
    decreases n,
{
    if k < n {
        lemma_unknown_stays(holders, k, (n - 1) as nat, locked_only);
    }
}

fn add_shares(holders: &Vec<RawHolder>, n: usize, locked_only: bool) -> (r: Option<Double>)
    requires
        n <= holders@.len(),
    ensures
        r == share_sum(holders@, n as nat, locked_only),
{
    let mut sum = Double { bits: 0 };
    let mut i: usize = 0;
    while i < n
        invariant
            i <= n <= holders@.len(),
            share_sum(holders@, i as nat, locked_only) == Some(sum),
        decreases n - i,
    {
        let h = holders[i];
        let counted = match h.is_locked {
            Some(flag) => !locked_only || flag == 1,
            None => !locked_only,
        };
        if counted {
            match parse_pct_fraction(h.percent) {
                Some(p) => {
                    sum = sum.plus(p);
                },
                None => {
                    proof {
                        lemma_unknown_stays(holders@, (i + 1) as nat, n as nat, locked_only);
                    }
                    return None;
                },
            }
        }
        i = i + 1;
    }
    Some(sum)
}

/// Whether an owner's address, in lower case, stands for nobody.
pub open spec fn nobody(lowered: Seq<char>) -> bool {
    lowered.len() == 0 || lowered == "0x0000000000000000000000000000000000000000"@
}

/// Whether an owner's address, in lower case, stands for nobody: it is empty or the
/// zero address.
pub fn is_nobody(lowered: &str) -> (r: bool)
    ensures
        r == nobody(lowered@),
{
    lowered.is_empty() || same(lowered, "0x0000000000000000000000000000000000000000")
}

/// What GoPlus's entry says of a token.
pub open spec fn security_of(raw: RawTokenSecurity) -> GoPlusSecurity {
    GoPlusSecurity {
        holder_count: match raw.holder_count {
            Some(t) => parsed_u64(t@),
            None => None,
        },
        top10_holder_pct: match raw.holders {
            Some(hs) => share_sum(
                hs@,
                if hs@.len() > 10 {
                    10
                } else {
                    hs@.len()
                },
                false,
            ),
            None => None,
        },
        dev_holding_pct: match percent_of(raw.creator_percent) {
            Some(p) => Some(p),
            None => percent_of(raw.owner_percent),
        },
        buy_tax_percent: percent_of(raw.buy_tax),
        sell_tax_percent: percent_of(raw.sell_tax),
        is_open_source: parsed_bool(raw.is_open_source),
        is_mintable: parsed_bool(raw.is_mintable),
        ownership_renounced: match raw.owner_address {
            Some(a) => Some(nobody(lowercase(a@))),
            None => None,
        },
        is_honeypot: parsed_bool(raw.is_honeypot),
        is_blacklistable: parsed_bool(raw.is_blacklisted),
        transfer_pausable: parsed_bool(raw.transfer_pausable),
        lp_locked_pct: match raw.lp_holders {
            Some(hs) => share_sum(hs@, hs@.len(), true),
            None => None,
        },
    }
}

/// What GoPlus's entry says of a token.
pub fn interpret(raw: &RawTokenSecurity) -> (r: GoPlusSecurity)
    ensures
        r == security_of(*raw),
{
    let holder_count = match &raw.holder_count {
        Some(t) => parse_u64(t.as_str()),
        None => None,
    };
    let top10_holder_pct = match &raw.holders {
        Some(hs) => add_shares(
            hs,
            if hs.len() > 10 {
                10
            } else {
                hs.len()
            },
            false,
        ),
        None => None,
    };
    let dev_holding_pct = match parse_pct_fraction(raw.creator_percent) {
        Some(p) => Some(p),
        None => parse_pct_fraction(raw.owner_percent),
    };
    let ownership_renounced = match &raw.owner_address {
        Some(a) => Some(is_nobody(to_lowercase(a.as_str()).as_str())),
        None => None,
    };
    let lp_locked_pct = match &raw.lp_holders {
        Some(hs) => add_shares(hs, hs.len(), true),
        None => None,
    };
    GoPlusSecurity {
        holder_count,
        top10_holder_pct,
        dev_holding_pct,
        buy_tax_percent: parse_pct_fraction(raw.buy_tax),
        sell_tax_percent: parse_pct_fraction(raw.sell_tax),
        is_open_source: parse_bool(&raw.is_open_source),
        is_mintable: parse_bool(&raw.is_mintable),
        ownership_renounced,
        is_honeypot: parse_bool(&raw.is_honeypot),
        is_blacklistable: parse_bool(&raw.is_blacklisted),
        transfer_pausable: parse_bool(&raw.transfer_pausable),
        lp_locked_pct,
    }
}

/// Where GoPlus answers for `token` on chain `chain_id`.
pub fn security_url(chain_id: u64, token: Address) -> (r: String)
    ensures
        r@ == "https://api.gopluslabs.io/api/v1/token_security/"@ + decimal(chain_id as nat)
            + "?contract_addresses="@ + address_text(token),
{
    let mut url = String::from_str("https://api.gopluslabs.io/api/v1/token_security/");
    push_decimal(&mut url, chain_id as u128);
    url.append("?contract_addresses=");
    url.append(token.text().as_str());
    url
}

/// The first entry from `from` on that stands under `key`.
pub open spec fn entry_from(
    result: Seq<(String, RawTokenSecurity)>,
    key: Seq<char>,
    from: nat,
) -> Option<RawTokenSecurity>
    decreases result.len() - from,
{
    if from >= result.len() {
        None
    } else if result[from as int].0@ == key {
        Some(result[from as int].1)
    } else {
        entry_from(result, key, from + 1)
    }
}

/// What GoPlus's answer says of `token`.
pub open spec fn security_found(token: Address, reply: Reply<RawResponse>) -> Option<
    GoPlusSecurity,
> {
    match reply {
        Reply::Read { body } => if body.code != 1 {
            None
        } else {
            security_under(body.result@, address_text(token), 0)
        },
        _ => None,
    }
}

/// The security data that stands under `key`.
pub open spec fn security_under(result: Seq<(String, RawTokenSecurity)>, key: Seq<char>, from: nat) -> Option<
    GoPlusSecurity,
> {
    match entry_from(result, key, from) {
        Some(raw) => Some(security_of(raw)),
        None => None,
    }
}

fn look_up(result: &Vec<(String, RawTokenSecurity)>, key: &str) -> (r: Option<GoPlusSecurity>)
    ensures
        r == security_under(result@, key@, 0),
{
    let mut i: usize = 0;
    while i < result.len()
        invariant
            i <= result@.len(),
            entry_from(result@, key@, 0) == entry_from(result@, key@, i as nat),
        decreases result@.len() - i,
    {
        let entry = &result[i];
        if same(entry.0.as_str(), key) {
            return Some(interpret(&entry.1));
        }
        i = i + 1;
    }
    None
}

/// What GoPlus's answer says of `token`: nothing where the request failed, the
/// answer is not a success or has no entry for the token.
pub fn fetch_token_security(token: Address, reply: &Reply<RawResponse>) -> (r: Option<
    GoPlusSecurity,
>)
    ensures
        r == security_found(token, *reply),
{
    match reply {
        Reply::Read { body } => if body.code != 1 {
            None
        } else {
            look_up(&body.result, token.text().as_str())
        },
        _ => None,
    }
}

} // verus!
