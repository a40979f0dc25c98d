//! Contract verification on Blockscout.
use vstd::prelude::*;
use vstd::string::*;

use crate::address::{address_text, Address};
use crate::chain::reply::Reply;
use crate::text::{trim_end_slashes, without_slashes};

verus! {

/// Blockscout's answer.
#[derive(Debug, Clone, Copy, PartialEq, Eq, Structural)]
pub struct BlockscoutContractResp {
    pub is_verified: Option<bool>,
}

/// Where Blockscout answers for a contract.
pub fn verification_url(api_base: &str, address: Address) -> (r: String)
    ensures
        r@ == without_slashes(api_base@) + "/smart-contracts/"@ + address_text(address),
{
    let mut url = trim_end_slashes(api_base);
    url.append("/smart-contracts/");
    url.append(address.text().as_str());
    url
}

/// Whether a contract's source is verified, by Blockscout's answer: not if it does
/// not know the contract; unknown if there is no readable answer.
pub fn is_contract_verified(reply: &Reply<BlockscoutContractResp>) -> (r: Option<bool>)
    ensures
        r == (match *reply {
            Reply::Refused { code, .. } => if code == 404 {
                Some(false)
            } else {
                None
            },
            Reply::Read { body } => match body.is_verified {
                Some(v) => Some(v),
                None => Some(false),
            },
            _ => None,
        }),
{
    match reply {
        Reply::Refused { code, .. } => if *code == 404 {
            Some(false)
        } else {
            None
        },
        Reply::Read { body } => match body.is_verified {
            Some(v) => Some(v),
            None => Some(false),
        },
        _ => None,
    }
}

} // verus!
