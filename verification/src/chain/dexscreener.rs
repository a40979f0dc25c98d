//! The DexScreener API.
use vstd::prelude::*;
use vstd::string::*;

use crate::chain::reply::{read_reply, refusal, Reply};
use crate::double::Double;

verus! {

/// A pair as DexScreener lists it.
#[derive(Debug, Clone)]
pub struct DexScreenerPair {
    pub chain_id: String,
    pub dex_id: String,
    pub labels: Option<Vec<String>>,
    pub pair_address: String,
    pub base_token: TokenInfo,
    pub quote_token: TokenInfo,
    pub price_usd: String,
    pub txns: Txns,
    pub volume: Volume,
    pub price_change: PriceChange,
    pub liquidity: Option<Liquidity>,
    pub fdv: Option<Double>,
    pub market_cap: Option<Double>,
    /// When the pair was created, in milliseconds.
    pub pair_created_at: Option<u64>,
    pub url: String,
}

#[derive(Debug, Clone)]
pub struct TokenInfo {
    pub address: String,
    pub name: String,
    pub symbol: String,
}

/// Volume in USD over the last day, six hours, hour and five minutes.
#[derive(Debug, Clone, Copy, PartialEq, Eq, Structural)]
pub struct Volume {
    pub h24: Double,
    pub h6: Double,
    pub h1: Double,
    pub m5: Double,
}

#[derive(Debug, Clone, Copy, PartialEq, Eq, Structural)]
pub struct TxnCount {
    pub buys: u64,
    pub sells: u64,
}

/// Transactions over the last day, six hours, hour and five minutes.
#[derive(Debug, Clone, Copy, PartialEq, Eq, Structural)]
pub struct Txns {
    pub h24: TxnCount,
    pub h6: TxnCount,
    pub h1: TxnCount,
    pub m5: TxnCount,
}

#[derive(Debug, Clone, Copy, PartialEq, Eq, Structural)]
pub struct PriceChange {
    pub h24: Option<Double>,
}

#[derive(Debug, Clone, Copy, PartialEq, Eq, Structural)]
pub struct Liquidity {
    pub usd: Double,
}

/// DexScreener's answer, which holds a pair or a list of pairs.
#[derive(Debug, Clone)]
pub struct DexScreenerResponse {
    pub pairs: Option<Vec<DexScreenerPair>>,
    pub pair: Option<DexScreenerPair>,
}

/// The pair of an answer, or else the first of its list.
pub open spec fn first_of(response: DexScreenerResponse) -> Option<DexScreenerPair> {
    match response.pair {
        Some(p) => Some(p),
        None => match response.pairs {
            Some(list) => if list@.len() > 0 {
                Some(list@[0])
            } else {
                None
            },
            None => None,
        },
    }
}

impl DexScreenerResponse {
    /// The pair of an answer, or else the first of its list.
    pub fn first_pair(self) -> (r: Option<DexScreenerPair>)
        ensures
            r == first_of(self),
    {
        match self.pair {
            Some(p) => Some(p),
            None => match self.pairs {
                Some(list) => {
                    let mut list = list;
                    if list.len() > 0 {
                        Some(list.remove(0))
                    } else {
                        None
                    }
                },
                None => None,
            },
        }
    }
}

/// Where DexScreener answers for a pair.
pub fn pair_url(chain_id: &str, pair_address: &str) -> (r: String)
    ensures
        r@ == "https://api.dexscreener.com/latest/dex/pairs/"@ + chain_id@ + "/"@ + pair_address@,
{
    let mut url = String::from_str("https://api.dexscreener.com/latest/dex/pairs/");
    url.append(chain_id);
    url.append("/");
    url.append(pair_address);
    url
}

/// The pair that DexScreener's answer holds, if any, or why there is no answer.
pub fn fetch_pair(reply: Reply<DexScreenerResponse>) -> (r: Result<Option<DexScreenerPair>, String>)
    ensures
        match (reply, r) {
            (Reply::Read { body }, Ok(found)) => found == first_of(body),
            (Reply::Read { .. }, Err(_)) => false,
            (_, Ok(_)) => false,
            (_, Err(e)) => e@ == refusal(reply, "DexScreener"@),
        },
{
    match read_reply(reply, "DexScreener") {
        Ok(response) => Ok(response.first_pair()),
        Err(e) => Err(e),
    }
}

/// The single pair of an answer comes before its list, of which the first counts; without
/// either there is none.
pub proof fn law_single_pair_comes_first(response: DexScreenerResponse)
    ensures
        response.pair is Some ==> first_of(response) == response.pair,
        response.pair is None && response.pairs is Some && response.pairs->0@.len() > 0
            ==> first_of(response) == Some(response.pairs->0@[0]),
        response.pair is None && (response.pairs is None || response.pairs->0@.len() == 0)
            ==> first_of(response) is None,
{
}

} // verus!
