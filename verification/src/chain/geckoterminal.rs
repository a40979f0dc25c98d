//! Token security data of GeckoTerminal.
use vstd::prelude::*;
use vstd::string::*;

use crate::address::{address_text, Address};
use crate::chain::reply::Reply;
use crate::double::Double;

verus! {

/// What GeckoTerminal knows of a token. None means "unknown", not "safe".
#[derive(Debug)]
pub struct GeckoSecurity {
    /// Overall trust score, 0-100.
    pub gt_score: Option<Double>,
    pub gt_score_pool: Option<Double>,
    pub gt_score_transaction: Option<Double>,
    pub gt_score_creation: Option<Double>,
    pub gt_score_info: Option<Double>,
    pub gt_score_holders: Option<Double>,
    pub gt_verified: Option<bool>,
    pub is_honeypot: Option<bool>,
    pub mint_authority: Option<String>,
    pub freeze_authority: Option<String>,
    pub developer_address: Option<String>,
    /// Holdings of the developer, in percent of supply.
    pub developer_holding_pct: Option<Double>,
    pub holder_count: Option<u64>,
    pub top10_holder_pct: Option<Double>,
}

/// GeckoTerminal's answer. Shares are the numbers that its texts read as.
#[derive(Debug)]
pub struct RawTokenAttributes {
    pub gt_score: Option<Double>,
    pub gt_score_details: Option<RawScoreDetails>,
    pub gt_verified: Option<bool>,
    pub is_honeypot: Option<bool>,
    pub mint_authority: Option<String>,
    pub freeze_authority: Option<String>,
    pub developer_address: Option<String>,
    pub developer_holding_percentage: Option<Double>,
    pub holders: Option<RawHolders>,
}

#[derive(Debug, Clone, Copy, PartialEq, Eq, Structural)]
pub struct RawScoreDetails {
    pub pool: Option<Double>,
    pub transaction: Option<Double>,
    pub creation: Option<Double>,
    pub info: Option<Double>,
    pub holders: Option<Double>,
}

#[derive(Debug, Clone, Copy, PartialEq, Eq, Structural)]
pub struct RawHolders {
    pub count: Option<u64>,
    pub distribution_percentage: Option<RawDistribution>,
}

#[derive(Debug, Clone, Copy, PartialEq, Eq, Structural)]
pub struct RawDistribution {
    pub top_10: Option<Double>,
}

pub open spec fn finite_only(v: Option<Double>) -> Option<Double> {
    match v {
        Some(x) => if x.finite() {
            Some(x)
        } else {
            None
        },
        None => None,
    }
}

/// A share; what is not a finite number is unknown.
pub fn parse_pct(v: Option<Double>) -> (r: Option<Double>)
    ensures
        r == finite_only(v),
{
    match v {
        Some(x) => if x.is_finite() {
            Some(x)
        } else {
            None
        },
        None => None,
    }
}

/// Where GeckoTerminal answers for a token.
pub fn info_url(network_id: &str, token: Address) -> (r: String)
    ensures
        r@ == "https://api.geckoterminal.com/api/v2/networks/"@ + network_id@ + "/tokens/"@
            + address_text(token) + "/info"@,
{
    let mut url = String::from_str("https://api.geckoterminal.com/api/v2/networks/");
    url.append(network_id);
    url.append("/tokens/");
    url.append(token.text().as_str());
    url.append("/info");
    url
}

pub open spec fn details_or_none(raw: RawTokenAttributes) -> RawScoreDetails {
    match raw.gt_score_details {
        Some(d) => d,
        None => RawScoreDetails {
            pool: None,
            transaction: None,
            creation: None,
            info: None,
            holders: None,
        },
    }
}

/// What GeckoTerminal's answer says of a token.
pub open spec fn gecko_security_of(raw: RawTokenAttributes) -> GeckoSecurity {
    GeckoSecurity {
        gt_score: raw.gt_score,
        gt_score_pool: details_or_none(raw).pool,
        gt_score_transaction: details_or_none(raw).transaction,
        gt_score_creation: details_or_none(raw).creation,
        gt_score_info: details_or_none(raw).info,
        gt_score_holders: details_or_none(raw).holders,
        gt_verified: raw.gt_verified,
        is_honeypot: raw.is_honeypot,
        mint_authority: raw.mint_authority,
        freeze_authority: raw.freeze_authority,
        developer_address: raw.developer_address,
        developer_holding_pct: finite_only(raw.developer_holding_percentage),
        holder_count: match raw.holders {
            Some(h) => h.count,
            None => None,
        },
        top10_holder_pct: match raw.holders {
            Some(h) => match h.distribution_percentage {
                Some(d) => finite_only(d.top_10),
                None => None,
            },
            None => None,
        },
    }
}

/// What GeckoTerminal's answer says of a token: nothing where the request failed or
/// the answer is not a success.
pub fn fetch_token_info(reply: Reply<RawTokenAttributes>) -> (r: Option<GeckoSecurity>)
    ensures
        r == (match reply {
            Reply::Read { body } => Some(gecko_security_of(body)),
            _ => None,
        }),
{
    match reply {
        Reply::Read { body } => {
            let details = match body.gt_score_details {
                Some(d) => d,
                None => RawScoreDetails {
                    pool: None,
                    transaction: None,
                    creation: None,
                    info: None,
                    holders: None,
                },
            };
            let holder_count = match body.holders {
                Some(h) => h.count,
                None => None,
            };
            let top10 = match body.holders {
                Some(h) => match h.distribution_percentage {
                    Some(d) => parse_pct(d.top_10),
                    None => None,
                },
                None => None,
            };
            Some(
                GeckoSecurity {
                    gt_score: body.gt_score,
                    gt_score_pool: details.pool,
                    gt_score_transaction: details.transaction,
                    gt_score_creation: details.creation,
                    gt_score_info: details.info,
                    gt_score_holders: details.holders,
                    gt_verified: body.gt_verified,
                    is_honeypot: body.is_honeypot,
                    mint_authority: body.mint_authority,
                    freeze_authority: body.freeze_authority,
                    developer_address: body.developer_address,
                    developer_holding_pct: parse_pct(body.developer_holding_percentage),
                    holder_count,
                    top10_holder_pct: top10,
                },
            )
        },
        _ => None,
    }
}

} // verus!
