//! What the security services' answers come to.
use vstd::arithmetic::power2::{lemma_pow2_pos, pow2};
use vstd::prelude::*;

use crate::address::{address_text, Address};
use crate::bounds::lemma_small_units;
use crate::chain::dextools::{issues_of, DextoolsTokenAudit};
use crate::chain::geckoterminal::{gecko_security_of, RawTokenAttributes};
use crate::chain::goplus::{
    entry_from, percent_of, security_found, security_of, share_sum, GoPlusSecurity, RawHolder,
    RawResponse, RawTokenSecurity,
};
use crate::chain::metrics::{with_gecko, with_goplus};
use crate::chain::reply::Reply;
use crate::chain::trade_laws::lemma_near_add;
use crate::chain::value_laws::{lemma_near_hundred, usual};
use crate::closeness::{
    close, lemma_close, lemma_near_product, lemma_near_self, lemma_near_weaken, lemma_near_zero,
    near,
};
use crate::double::{one_units, product_of, sum_of, Double};
use crate::models::PoolMetrics;
use crate::numbers::HUNDRED;
use crate::text::lowercase;

verus! {

proof fn lemma_near_percent(v: Double)
    requires
        usual(v),
    ensures
        percent_of(Some(v)) is Some,
        near(percent_of(Some(v))->0, 100 * v.size(), one_units(), 2, 694),
{
    let u = one_units();
    let p = product_of(v, Double { bits: HUNDRED });
    lemma_near_self(v, 128);
    lemma_near_hundred();
    lemma_near_product(v, v.size(), u, 0, 128, Double { bits: HUNDRED }, 100, 1, 0, 7);
    assert(v.size() * 100 == 100 * v.size() && u * 1 == u);
    lemma_near_weaken(p, 100 * v.size(), u, 2, 135, 2, 694);
}

/// A fraction in percent is a hundred times the fraction; what is not a finite number is
/// unknown.
pub proof fn law_percent_is_a_hundredfold(v: Double)
    ensures
        usual(v) ==> percent_of(Some(v)) is Some && close(
            percent_of(Some(v))->0,
            100 * v.size(),
            one_units(),
        ),
        !v.finite() ==> percent_of(Some(v)) is None,
        percent_of(None) is None,
{
    if usual(v) {
        lemma_near_percent(v);
        lemma_close(percent_of(Some(v))->0, 100 * v.size(), one_units(), 2, 694);
    }
}

/// Whether a holder's share counts.
pub open spec fn counts(h: RawHolder, locked_only: bool) -> bool {
    locked_only ==> h.is_locked == Some(1i32)
}

/// The shares that count among the first `n` holders, added up exactly.
pub open spec fn exact_shares(holders: Seq<RawHolder>, n: nat, locked_only: bool) -> nat
    decreases n,
{
    if n == 0 {
        0
    } else {
        exact_shares(holders, (n - 1) as nat, locked_only) + if counts(holders[n - 1], locked_only) {
            holders[n - 1].percent->0.size()
        } else {
            0
        }
    }
}

/// Whether every share that counts is known.
pub open spec fn shares_known(holders: Seq<RawHolder>, n: nat, locked_only: bool) -> bool {
    forall|i: int|
        0 <= i < n && counts(#[trigger] holders[i], locked_only) ==> holders[i].percent is Some
            && usual(holders[i].percent->0)
}

proof fn lemma_near_shares(holders: Seq<RawHolder>, n: nat, locked_only: bool)
    requires
        n <= holders.len(),
        n <= 0x200,
        shares_known(holders, n, locked_only),
    ensures
        share_sum(holders, n, locked_only) is Some,
        near(
            share_sum(holders, n, locked_only)->0,
            100 * exact_shares(holders, n, locked_only),
            one_units(),
            2 + n,
            760,
        ),
        100 * exact_shares(holders, n, locked_only) <= n * (one_units() * pow2(694)),
    decreases n,
{
    let u = one_units();
    let b = u * pow2(694);
    lemma_pow2_pos(1074);
    lemma_pow2_pos(694);
    assert(b >= 0) by (nonlinear_arith)
        requires
            b == u * pow2(694),
    ;
    if n == 0 {
        lemma_small_units(0);
        lemma_near_zero(Double { bits: 0 }, 0, u, 2, 760);
        assert(0 * b == 0);
    } else {
        let m = (n - 1) as nat;
        let h = holders[m as int];
        lemma_near_shares(holders, m, locked_only);
        let x = share_sum(holders, m, locked_only)->0;
        let n1 = 100 * exact_shares(holders, m, locked_only);
        if counts(h, locked_only) {
            let v = h.percent->0;
            lemma_near_percent(v);
            let y = percent_of(Some(v))->0;
            assert(h.percent == Some(v));
            assert(share_sum(holders, n, locked_only) == Some(sum_of(x, y)));
            lemma_near_add(x, n1, 2 + m, y, 100 * v.size(), 2, u, m);
            assert(m + 1 == n);
        } else {
            assert(share_sum(holders, n, locked_only) == share_sum(holders, m, locked_only));
            lemma_near_weaken(x, n1, u, 2 + m, 760, 2 + n, 760);
            assert(m * b <= n * b) by (nonlinear_arith)
                requires
                    m <= n,
                    b >= 0,
            ;
        }
    }
}

proof fn lemma_unknown_share(holders: Seq<RawHolder>, n: nat, i: int, locked_only: bool)
    requires
        0 <= i < n <= holders.len(),
        counts(holders[i], locked_only),
        holders[i].percent is None,
    ensures
        share_sum(holders, n, locked_only) is None,
    decreases n,
{
    if i < n - 1 {
        lemma_unknown_share(holders, (n - 1) as nat, i, locked_only);
    }
}

/// The share of the largest holders is that of the first ten, or of all where there are
/// fewer, added up; it is unknown where one of theirs is.
pub proof fn law_top_holders_are_the_first_ten(raw: RawTokenSecurity)
    requires
        raw.holders is Some,
    ensures
        ({
            let holders = raw.holders->0@;
            let n: nat = if holders.len() > 10 {
                10
            } else {
                holders.len()
            };
            let r = security_of(raw).top10_holder_pct;
            &&& shares_known(holders, n, false) ==> r is Some && close(
                r->0,
                100 * exact_shares(holders, n, false),
                one_units(),
            )
            &&& (exists|i: int| 0 <= i < n && (#[trigger] holders[i]).percent is None) ==> r is None
        }),
{
    let holders = raw.holders->0@;
    let n: nat = if holders.len() > 10 {
        10
    } else {
        holders.len()
    };
    if shares_known(holders, n, false) {
        lemma_near_shares(holders, n, false);
        lemma_close(
            share_sum(holders, n, false)->0,
            100 * exact_shares(holders, n, false),
            one_units(),
            2 + n,
            760,
        );
    }
    if exists|i: int| 0 <= i < n && (#[trigger] holders[i]).percent is None {
        let i = choose|i: int| 0 <= i < n && (#[trigger] holders[i]).percent is None;
        lemma_unknown_share(holders, n, i, false);
    }
}

/// The locked liquidity is that of every holder that is marked as locked, added up, and
/// of no other; it is unknown where one of theirs is.
pub proof fn law_locked_liquidity_is_marked(raw: RawTokenSecurity)
    requires
        raw.lp_holders is Some,
        raw.lp_holders->0@.len() <= 0x200,
    ensures
        ({
            let holders = raw.lp_holders->0@;
            let n = holders.len();
            let r = security_of(raw).lp_locked_pct;
            &&& shares_known(holders, n, true) ==> r is Some && close(
                r->0,
                100 * exact_shares(holders, n, true),
                one_units(),
            )
            &&& (exists|i: int|
                0 <= i < n && (#[trigger] holders[i]).percent is None && holders[i].is_locked
                    == Some(1i32)) ==> r is None
        }),
{
    let holders = raw.lp_holders->0@;
    let n = holders.len();
    if shares_known(holders, n, true) {
        lemma_near_shares(holders, n, true);
        lemma_close(
            share_sum(holders, n, true)->0,
            100 * exact_shares(holders, n, true),
            one_units(),
            2 + n,
            760,
        );
    }
    if exists|i: int|
        0 <= i < n && (#[trigger] holders[i]).percent is None && holders[i].is_locked
            == Some(1i32) {
        let i = choose|i: int|
            0 <= i < n && (#[trigger] holders[i]).percent is None && holders[i].is_locked
                == Some(1i32);
        lemma_unknown_share(holders, n, i, true);
    }
}

/// Whether a flag reads as a text says: "1" is yes, "0" is no, all else is unknown.
pub open spec fn reads_as(flag: Option<bool>, text: Option<String>) -> bool {
    &&& flag == Some(true) <==> text is Some && text->0@ == "1"@
    &&& flag == Some(false) <==> text is Some && text->0@ == "0"@
}

/// Each flag reads as its own text says; the taxes are their own fractions in percent;
/// ownership is renounced exactly where the owner is named as nobody; the developer's
/// share is the creator's, or else the owner's.
pub proof fn law_goplus_entry_is_read_by_name(raw: RawTokenSecurity)
    ensures
        ({
            let s = security_of(raw);
            &&& reads_as(s.is_mintable, raw.is_mintable)
            &&& reads_as(s.is_honeypot, raw.is_honeypot)
            &&& reads_as(s.is_blacklistable, raw.is_blacklisted)
            &&& reads_as(s.transfer_pausable, raw.transfer_pausable)
            &&& reads_as(s.is_open_source, raw.is_open_source)
            &&& raw.owner_address is None <==> s.ownership_renounced is None
            &&& s.ownership_renounced == Some(true) <==> raw.owner_address is Some && (lowercase(
                raw.owner_address->0@,
            ).len() == 0 || lowercase(raw.owner_address->0@)
                == "0x0000000000000000000000000000000000000000"@)
            &&& raw.buy_tax is Some && usual(raw.buy_tax->0) ==> s.buy_tax_percent is Some && close(
                s.buy_tax_percent->0,
                100 * raw.buy_tax->0.size(),
                one_units(),
            )
            &&& raw.sell_tax is Some && usual(raw.sell_tax->0) ==> s.sell_tax_percent is Some && close(
                s.sell_tax_percent->0,
                100 * raw.sell_tax->0.size(),
                one_units(),
            )
            &&& raw.buy_tax is None ==> s.buy_tax_percent is None
            &&& raw.sell_tax is None ==> s.sell_tax_percent is None
            &&& raw.creator_percent is Some && usual(raw.creator_percent->0) ==> s.dev_holding_pct is Some
                && close(s.dev_holding_pct->0, 100 * raw.creator_percent->0.size(), one_units())
            &&& raw.creator_percent is None && raw.owner_percent is Some && usual(raw.owner_percent->0)
                ==> s.dev_holding_pct is Some && close(
                s.dev_holding_pct->0,
                100 * raw.owner_percent->0.size(),
                one_units(),
            )
            &&& raw.creator_percent is None && raw.owner_percent is None ==> s.dev_holding_pct
                is None
            &&& raw.holders is None ==> s.top10_holder_pct is None
            &&& raw.lp_holders is None ==> s.lp_locked_pct is None
        }),
{
    reveal_strlit("0");
    reveal_strlit("1");
    assert("0"@[0] != "1"@[0]);
    if raw.buy_tax is Some {
        law_percent_is_a_hundredfold(raw.buy_tax->0);
    }
    if raw.sell_tax is Some {
        law_percent_is_a_hundredfold(raw.sell_tax->0);
    }
    if raw.creator_percent is Some {
        law_percent_is_a_hundredfold(raw.creator_percent->0);
    }
    if raw.owner_percent is Some {
        law_percent_is_a_hundredfold(raw.owner_percent->0);
    }
}

proof fn lemma_entry(
    result: Seq<(String, RawTokenSecurity)>,
    key: Seq<char>,
    from: nat,
    i: int,
)
    requires
        from <= i <= result.len(),
        forall|j: int| from <= j < i ==> (#[trigger] result[j]).0@ != key,
    ensures
        i == result.len() ==> entry_from(result, key, from) is None,
        i < result.len() && result[i].0@ == key ==> entry_from(result, key, from) == Some(
            result[i].1,
        ),
    decreases i - from,
{
    if from < i {
        assert(result[from as int].0@ != key);
        lemma_entry(result, key, from + 1, i);
    }
}

/// Of an answer that is a success, the first entry under the token's address counts, and
/// without one nothing is known; an answer that is none tells nothing.
pub proof fn law_own_entry_is_read(token: Address, body: RawResponse, i: int)
    requires
        0 <= i <= body.result@.len(),
        forall|j: int| 0 <= j < i ==> (#[trigger] body.result@[j]).0@ != address_text(token),
    ensures
        body.code == 1 && i < body.result@.len() && body.result@[i].0@ == address_text(token)
            ==> security_found(token, Reply::Read { body }) == Some(
            security_of(body.result@[i].1),
        ),
        body.code == 1 && i == body.result@.len() ==> security_found(token, Reply::Read { body })
            is None,
        body.code != 1 ==> security_found(token, Reply::Read { body }) is None,
{
    lemma_entry(body.result@, address_text(token), 0, i);
}

/// Where GeckoTerminal was not heard, everything that GoPlus tells is taken over as it
/// is, and nothing else changes.
pub proof fn law_goplus_alone_is_taken_over(m: PoolMetrics, s: GoPlusSecurity)
    ensures
        ({
            let r = with_goplus(m, s, false);
            &&& r.holder_count == s.holder_count
            &&& r.top10_holder_pct == s.top10_holder_pct
            &&& r.dev_holding_pct == s.dev_holding_pct
            &&& r.buy_tax_percent == s.buy_tax_percent
            &&& r.sell_tax_percent == s.sell_tax_percent
            &&& r.is_mintable == s.is_mintable
            &&& r.ownership_renounced == s.ownership_renounced
            &&& r.is_honeypot_goplus == s.is_honeypot
            &&& r.is_blacklistable == s.is_blacklistable
            &&& r.transfer_pausable == s.transfer_pausable
            &&& r.lp_locked_pct == s.lp_locked_pct
            &&& r.tvl_usd == m.tvl_usd && r.volume_24h_usd == m.volume_24h_usd
            &&& r.apr_percent == m.apr_percent && r.market_cap_usd == m.market_cap_usd
            &&& r.gecko_is_honeypot == m.gecko_is_honeypot && r.gt_score == m.gt_score
        }),
{
}

/// What GeckoTerminal tells of a token is taken over under its own name: an authority is
/// held where an account other than nobody's is named for it, and ownership is renounced
/// where none is named as the developer.
pub proof fn law_gecko_is_taken_over(m: PoolMetrics, raw: RawTokenAttributes)
    ensures
        ({
            let r = with_gecko(m, gecko_security_of(raw));
            let named = |a: Option<String>|
                a is Some && a->0@.len() > 0 && a->0@
                    != "0x0000000000000000000000000000000000000000"@;
            &&& r.gt_score == raw.gt_score
            &&& r.gt_verified == raw.gt_verified
            &&& r.gecko_is_honeypot == raw.is_honeypot
            &&& r.is_honeypot_goplus == raw.is_honeypot
            &&& r.is_mintable == Some(named(raw.mint_authority))
            &&& r.is_blacklistable == Some(named(raw.freeze_authority))
            &&& r.ownership_renounced == Some(!named(raw.developer_address))
            &&& raw.holders matches Some(h) ==> r.holder_count == h.count && r.gecko_holder_count
                == h.count
            &&& raw.holders is None ==> r.holder_count is None && r.top10_holder_pct is None
            &&& raw.gt_score_details matches Some(d) ==> r.gt_score_pool == d.pool
                && r.gt_score_transaction == d.transaction && r.gt_score_creation == d.creation
                && r.gt_score_info == d.info && r.gt_score_holders == d.holders
            &&& r.tvl_usd == m.tvl_usd && r.volume_24h_usd == m.volume_24h_usd
            &&& r.apr_percent == m.apr_percent && r.market_cap_usd == m.market_cap_usd
        }),
{
}

/// Whether a flag of an audit counts against the token.
pub open spec fn says(flag: String, answer: Seq<char>) -> bool {
    lowercase(flag@) == answer
}

/// An audit is clean exactly where none of its flags counts against the token: it is no
/// honeypot, cannot be minted, is no proxy, its slippage cannot be changed, it cannot
/// blacklist, is no likely scam, its ownership is renounced and its source is open. There
/// are eight issues exactly where all of them do.
pub proof fn law_audit_counts_every_flag(a: DextoolsTokenAudit)
    ensures
        issues_of(a) == 0 <==> !says(a.is_honeypot, "yes"@) && !says(a.is_mintable, "yes"@)
            && !says(a.is_proxy, "yes"@) && !says(a.slippage_modifiable, "yes"@) && !says(
            a.is_blacklisted,
            "yes"@,
        ) && !says(a.is_potentially_scam, "yes"@) && !says(a.is_contract_renounced, "no"@) && !says(
            a.is_open_source,
            "no"@,
        ),
        issues_of(a) == 8 <==> says(a.is_honeypot, "yes"@) && says(a.is_mintable, "yes"@) && says(
            a.is_proxy,
            "yes"@,
        ) && says(a.slippage_modifiable, "yes"@) && says(a.is_blacklisted, "yes"@) && says(
            a.is_potentially_scam,
            "yes"@,
        ) && says(a.is_contract_renounced, "no"@) && says(a.is_open_source, "no"@),
        0 <= issues_of(a) <= 8,
{
}

} // verus!
