//! The DEXTools API.
use vstd::prelude::*;
use vstd::string::*;

use crate::double::Double;
use crate::text::{lowercase, same, to_lowercase};

verus! {

/// A request to the DEXTools API: its URL and its `x-api-key` header.
#[derive(Debug)]
pub struct DextoolsRequest {
    pub url: String,
    pub api_key_header: String,
}

/// DEXTools API v2 client.
pub struct DexToolsClient {
    pub api_key: String,
    pub base_url: String,
}

/// A pool of the hot-pools ranking.
#[derive(Debug, Clone)]
pub struct DextoolsRankedPool {
    pub rank: u64,
    pub address: String,
    pub exchange_name: String,
    pub exchange_factory: String,
    pub creation_time: String,
    pub creation_block: u64,
    pub main_token: DextoolsToken,
    pub side_token: DextoolsToken,
    pub fee: Double,
}

/// A token of a pool.
#[derive(Debug, Clone)]
pub struct DextoolsToken {
    pub address: String,
    pub symbol: String,
    pub name: String,
}

/// Score of a pool.
#[derive(Debug, Clone, Copy, PartialEq, Eq, Structural)]
pub struct DextoolsPoolScore {
    pub dext_score: DextScore,
}

#[derive(Debug, Clone, Copy, PartialEq, Eq, Structural)]
pub struct DextScore {
    pub information: Double,
    pub holders: Double,
    pub pool: Double,
    pub transactions: Double,
    pub creation: Double,
    pub total: Double,
}

/// Security snapshot of a token.
#[derive(Debug, Clone)]
pub struct DextoolsTokenAudit {
    pub is_open_source: String,
    pub is_honeypot: String,
    pub is_mintable: String,
    pub is_proxy: String,
    pub slippage_modifiable: String,
    pub is_blacklisted: String,
    pub sell_tax: DextoolsTax,
    pub buy_tax: DextoolsTax,
    pub is_contract_renounced: String,
    pub is_potentially_scam: String,
    pub updated_at: String,
}

#[derive(Debug, Clone)]
pub struct DextoolsTax {
    pub min: Option<Double>,
    pub max: Option<Double>,
    pub status: String,
}

impl DexToolsClient {
    pub fn new(api_key: String) -> (r: DexToolsClient)
        ensures
            r.api_key@ == api_key@,
            r.base_url@ == "https://api.dextools.io"@,
    {
        DexToolsClient { api_key, base_url: String::from_str("https://api.dextools.io") }
    }

    /// The value of the `x-api-key` header.
    pub fn auth_header(&self) -> (r: String)
        ensures
            r@ == "Bearer "@ + self.api_key@,
    {
        let mut header = String::from_str("Bearer ");
        header.append(self.api_key.as_str());
        header
    }

    /// The request for the hot pools of a chain.
    pub fn fetch_hotpools(&self, chain: &str) -> (r: DextoolsRequest)
        ensures
            r.url@ == self.base_url@ + "/v2/ranking/"@ + chain@ + "/hotpools"@,
            r.api_key_header@ == "Bearer "@ + self.api_key@,
    {
        let mut url = self.base_url.clone();
        url.append("/v2/ranking/");
        url.append(chain);
        url.append("/hotpools");
        DextoolsRequest { url, api_key_header: self.auth_header() }
    }

    /// The request for the score of a pool.
    pub fn fetch_pool_score(&self, chain: &str, address: &str) -> (r: DextoolsRequest)
        ensures
            r.url@ == self.base_url@ + "/v2/pool/"@ + chain@ + "/"@ + address@ + "/score"@,
            r.api_key_header@ == "Bearer "@ + self.api_key@,
    {
        let mut url = self.base_url.clone();
        url.append("/v2/pool/");
        url.append(chain);
        url.append("/");
        url.append(address);
        url.append("/score");
        DextoolsRequest { url, api_key_header: self.auth_header() }
    }

    /// The request for the audit of a token.
    pub fn fetch_token_audit(&self, chain: &str, address: &str) -> (r: DextoolsRequest)
        ensures
            r.url@ == self.base_url@ + "/v2/token/"@ + chain@ + "/"@ + address@ + "/audit"@,
            r.api_key_header@ == "Bearer "@ + self.api_key@,
    {
        let mut url = self.base_url.clone();
        url.append("/v2/token/");
        url.append(chain);
        url.append("/");
        url.append(address);
        url.append("/audit");
        DextoolsRequest { url, api_key_header: self.auth_header() }
    }
}

/// One if a flag says what counts against the token.
pub open spec fn one_if(b: bool) -> int {
    if b {
        1
    } else {
        0
    }
}

/// How many of the flags, in lower case, count against the token.
pub open spec fn issues_given(a: DextoolsTokenAudit) -> int {
    one_if(a.is_honeypot@ == "yes"@) + one_if(a.is_mintable@ == "yes"@) + one_if(
        a.is_proxy@ == "yes"@,
    ) + one_if(a.slippage_modifiable@ == "yes"@) + one_if(a.is_blacklisted@ == "yes"@) + one_if(
        a.is_potentially_scam@ == "yes"@,
    ) + one_if(a.is_contract_renounced@ == "no"@) + one_if(a.is_open_source@ == "no"@)
}

/// How many flags of an audit, whose texts are in lower case, count against the
/// token.
pub fn lowered_issue_count(a: &DextoolsTokenAudit) -> (r: u32)
    ensures
        r == issues_given(*a),
        r <= 8,
{
    let mut issues: u32 = 0;
    if same(a.is_honeypot.as_str(), "yes") {
        issues = issues + 1;
    }
    if same(a.is_mintable.as_str(), "yes") {
        issues = issues + 1;
    }
    if same(a.is_proxy.as_str(), "yes") {
        issues = issues + 1;
    }
    if same(a.slippage_modifiable.as_str(), "yes") {
        issues = issues + 1;
    }
    if same(a.is_blacklisted.as_str(), "yes") {
        issues = issues + 1;
    }
    if same(a.is_potentially_scam.as_str(), "yes") {
        issues = issues + 1;
    }
    if same(a.is_contract_renounced.as_str(), "no") {
        issues = issues + 1;
    }
    if same(a.is_open_source.as_str(), "no") {
        issues = issues + 1;
    }
    issues
}

/// How many of an audit's flags count against the token.
pub open spec fn issues_of(a: DextoolsTokenAudit) -> int {
    one_if(lowercase(a.is_honeypot@) == "yes"@) + one_if(lowercase(a.is_mintable@) == "yes"@)
        + one_if(lowercase(a.is_proxy@) == "yes"@) + one_if(
        lowercase(a.slippage_modifiable@) == "yes"@,
    ) + one_if(lowercase(a.is_blacklisted@) == "yes"@) + one_if(
        lowercase(a.is_potentially_scam@) == "yes"@,
    ) + one_if(lowercase(a.is_contract_renounced@) == "no"@) + one_if(
        lowercase(a.is_open_source@) == "no"@,
    )
}

/// How many of an audit's flags count against the token, from 0 (clean) to 8.
pub fn audit_issue_count(a: &DextoolsTokenAudit) -> (r: u32)
    ensures
        r == issues_of(*a),
        r <= 8,
{
    lowered_issue_count(
        &DextoolsTokenAudit {
            is_open_source: to_lowercase(a.is_open_source.as_str()),
            is_honeypot: to_lowercase(a.is_honeypot.as_str()),
            is_mintable: to_lowercase(a.is_mintable.as_str()),
            is_proxy: to_lowercase(a.is_proxy.as_str()),
            slippage_modifiable: to_lowercase(a.slippage_modifiable.as_str()),
            is_blacklisted: to_lowercase(a.is_blacklisted.as_str()),
            sell_tax: a.sell_tax.clone(),
            buy_tax: a.buy_tax.clone(),
            is_contract_renounced: to_lowercase(a.is_contract_renounced.as_str()),
            is_potentially_scam: to_lowercase(a.is_potentially_scam.as_str()),
            updated_at: a.updated_at.clone(),
        },
    )
}

} // verus!
