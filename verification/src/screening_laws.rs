//! What screening guarantees, whatever the pool and the thresholds.
use vstd::prelude::*;

use crate::chain::metrics::{metrics_of, PricedFacts, TokenFacts};
use crate::config::{AppConfig, ScreeningConfig};
use crate::double::{at_most, less, of_nat, Double};
use crate::models::{PoolInfo, PoolMetrics};
use crate::screener::{
    age_check, all_pass, apr_check, blacklist_check, blockable, buy_tax_check, checks, count_of,
    dev_check, gecko_checks, gecko_honeypot_check, goplus_checks, goplus_honeypot_check, gt_score_check,
    gt_verified_check, holder_check, honeypot_check, lp_locked_check, mintable_check,
    ownership_check, sell_tax_check, threshold_check, top10_check, traders_check, tvl_check,
    unknown, verified_check, volume_check, Verdict,
};

verus! {

proof fn lemma_all_pass_append(a: Seq<Verdict>, b: Seq<Verdict>)
    ensures
        all_pass(a + b) == (all_pass(a) && all_pass(b)),
{
    if all_pass(a + b) {
        assert forall|i: int| 0 <= i < a.len() implies (#[trigger] a[i]).pass by {
            assert((a + b)[i] == a[i]);
        }
        assert forall|i: int| 0 <= i < b.len() implies (#[trigger] b[i]).pass by {
            assert((a + b)[a.len() + i] == b[i]);
        }
    }
    if all_pass(a) && all_pass(b) {
        assert forall|i: int| 0 <= i < (a + b).len() implies (#[trigger] (a + b)[i]).pass by {
            if i < a.len() {
                assert((a + b)[i] == a[i]);
            } else {
                assert((a + b)[i] == b[i - a.len()]);
            }
        }
    }
}

proof fn lemma_single(v: Verdict)
    ensures
        all_pass(seq![v]) == v.pass,
{
    assert(seq![v][0] == v);
}

/// A pool passes exactly if every single check lets it pass.
pub proof fn law_passes_iff_every_check_passes(m: PoolMetrics, cfg: ScreeningConfig)
    ensures
        all_pass(checks(m, cfg)) == (all_pass(tvl_check(m, cfg)) && all_pass(volume_check(m, cfg))
            && all_pass(apr_check(m, cfg)) && all_pass(age_check(m, cfg)) && all_pass(
            verified_check(m, cfg),
        ) && all_pass(honeypot_check(m, cfg)) && all_pass(goplus_honeypot_check(m, cfg))
            && all_pass(gecko_checks(m, cfg)) && all_pass(goplus_checks(m, cfg))),
{
    let s1 = tvl_check(m, cfg);
    let s2 = s1 + volume_check(m, cfg);
    let s3 = s2 + apr_check(m, cfg);
    let s4 = s3 + age_check(m, cfg);
    let s5 = s4 + verified_check(m, cfg);
    let s6 = s5 + honeypot_check(m, cfg);
    let s7 = s6 + goplus_honeypot_check(m, cfg);
    let s8 = s7 + gecko_checks(m, cfg);
    lemma_all_pass_append(s1, volume_check(m, cfg));
    lemma_all_pass_append(s2, apr_check(m, cfg));
    lemma_all_pass_append(s3, age_check(m, cfg));
    lemma_all_pass_append(s4, verified_check(m, cfg));
    lemma_all_pass_append(s5, honeypot_check(m, cfg));
    lemma_all_pass_append(s6, goplus_honeypot_check(m, cfg));
    lemma_all_pass_append(s7, gecko_checks(m, cfg));
    lemma_all_pass_append(s8, goplus_checks(m, cfg));
}

/// A pool that passes is priced, meets the minimum TVL, volume and age, lies within
/// the APR range, and sold back in the simulation at no more than the allowed loss;
/// where verified tokens are required, both are.
pub proof fn law_passed_pool_meets_thresholds(m: PoolMetrics, cfg: ScreeningConfig)
    requires
        all_pass(checks(m, cfg)),
    ensures
        m.tvl_usd matches Some(tvl) && at_most(cfg.min_tvl_usd, tvl),
        m.volume_24h_usd matches Some(v) && at_most(cfg.min_volume_24h_usd, v),
        m.apr_percent matches Some(apr) && at_most(cfg.min_apr_percent, apr) && at_most(
            apr,
            cfg.max_apr_percent,
        ),
        at_most(cfg.min_pool_age_hours, m.age_hours),
        cfg.require_verified_tokens ==> m.token0_verified == Some(true) && m.token1_verified
            == Some(true),
        m.honeypot_sellable == Some(true),
        m.honeypot_round_trip_loss_percent matches Some(loss) && at_most(
            loss,
            cfg.max_honeypot_loss_percent,
        ),
{
    law_passes_iff_every_check_passes(m, cfg);
    assert(tvl_check(m, cfg)[0].pass);
    assert(volume_check(m, cfg)[0].pass);
    assert(apr_check(m, cfg)[0].pass);
    assert(age_check(m, cfg)[0].pass);
    assert(honeypot_check(m, cfg)[0].pass);
    if cfg.require_verified_tokens {
        assert(verified_check(m, cfg)[0].pass);
    }
}

/// A pool that cannot be priced never passes.
pub proof fn law_unpriceable_pool_fails(m: PoolMetrics, cfg: ScreeningConfig)
    requires
        m.tvl_usd is None || m.volume_24h_usd is None || m.apr_percent is None,
    ensures
        !all_pass(checks(m, cfg)),
{
    if all_pass(checks(m, cfg)) {
        law_passed_pool_meets_thresholds(m, cfg);
    }
}

/// A token that a security service flags as a honeypot fails its pool, whether or
/// not missing data is tolerated, unless that service is hidden.
pub proof fn law_flagged_honeypot_fails(m: PoolMetrics, cfg: ScreeningConfig)
    requires
        (!cfg.hide_goplus && m.is_honeypot_goplus == Some(true)) || (!cfg.hide_geckoterminal
            && m.gecko_is_honeypot == Some(true)),
    ensures
        !all_pass(checks(m, cfg)),
{
    law_passes_iff_every_check_passes(m, cfg);
    if !cfg.hide_goplus && m.is_honeypot_goplus == Some(true) {
        assert(!goplus_honeypot_check(m, cfg)[0].pass);
    } else {
        lemma_all_pass_append(
            gt_score_check(m, cfg) + gt_verified_check(m, cfg),
            gecko_honeypot_check(m),
        );
        assert(!gecko_honeypot_check(m)[0].pass);
    }
}

/// A contract that is known to blacklist addresses or to pause transfers fails its
/// pool where that is forbidden.
pub proof fn law_blockable_token_fails(m: PoolMetrics, cfg: ScreeningConfig)
    requires
        !cfg.hide_goplus,
        cfg.require_not_blacklistable,
        m.is_blacklistable == Some(true) || m.transfer_pausable == Some(true),
    ensures
        !all_pass(checks(m, cfg)),
{
    law_passes_iff_every_check_passes(m, cfg);
    lemma_goplus_parts(m, cfg);
    assert(blockable(m) == Some(true));
    assert(!blacklist_check(m, cfg)[0].pass);
}

proof fn lemma_goplus_parts(m: PoolMetrics, cfg: ScreeningConfig)
    requires
        !cfg.hide_goplus,
    ensures
        all_pass(goplus_checks(m, cfg)) == (all_pass(holder_check(m, cfg)) && all_pass(
            traders_check(m, cfg),
        ) && all_pass(top10_check(m, cfg)) && all_pass(dev_check(m, cfg)) && all_pass(
            buy_tax_check(m, cfg),
        ) && all_pass(sell_tax_check(m, cfg)) && all_pass(mintable_check(m, cfg)) && all_pass(
            ownership_check(m, cfg),
        ) && all_pass(blacklist_check(m, cfg)) && all_pass(lp_locked_check(m, cfg))),
{
    let s1 = holder_check(m, cfg);
    let s2 = s1 + traders_check(m, cfg);
    let s3 = s2 + top10_check(m, cfg);
    let s4 = s3 + dev_check(m, cfg);
    let s5 = s4 + buy_tax_check(m, cfg);
    let s6 = s5 + sell_tax_check(m, cfg);
    let s7 = s6 + mintable_check(m, cfg);
    let s8 = s7 + ownership_check(m, cfg);
    let s9 = s8 + blacklist_check(m, cfg);
    lemma_all_pass_append(s1, traders_check(m, cfg));
    lemma_all_pass_append(s2, top10_check(m, cfg));
    lemma_all_pass_append(s3, dev_check(m, cfg));
    lemma_all_pass_append(s4, buy_tax_check(m, cfg));
    lemma_all_pass_append(s5, sell_tax_check(m, cfg));
    lemma_all_pass_append(s6, mintable_check(m, cfg));
    lemma_all_pass_append(s7, ownership_check(m, cfg));
    lemma_all_pass_append(s8, blacklist_check(m, cfg));
    lemma_all_pass_append(s9, lp_locked_check(m, cfg));
}

proof fn lemma_unknown(label: Seq<char>, cfg: ScreeningConfig)
    ensures
        all_pass(unknown(label, cfg)) == !cfg.require_goplus_data,
{
    lemma_single(unknown(label, cfg)[0]);
    assert(unknown(label, cfg) =~= seq![unknown(label, cfg)[0]]);
}

proof fn lemma_threshold(
    value: Option<Double>,
    threshold: Double,
    floor: bool,
    label: Seq<char>,
    d: nat,
    unit: Seq<char>,
    tail: Seq<char>,
    cfg: ScreeningConfig,
)
    ensures
        all_pass(threshold_check(value, threshold, floor, label, d, unit, tail, cfg)) == (
        match value {
            Some(v) => if floor {
                at_most(threshold, v)
            } else {
                at_most(v, threshold)
            },
            None => !cfg.require_goplus_data,
        }),
{
    let c = threshold_check(value, threshold, floor, label, d, unit, tail, cfg);
    match value {
        Some(v) => {
            lemma_single(c[0]);
            assert(c =~= seq![c[0]]);
        },
        None => {
            lemma_unknown(label, cfg);
        },
    }
}

proof fn lemma_limits(m: PoolMetrics, cfg: ScreeningConfig)
    ensures
        all_pass(holder_check(m, cfg)) == (match m.holder_count {
            Some(n) => at_most(of_nat(cfg.min_holder_count as nat), of_nat(n as nat)),
            None => !cfg.require_goplus_data,
        }),
        all_pass(traders_check(m, cfg)) == (match m.unique_traders_24h {
            Some(n) => at_most(of_nat(cfg.min_unique_traders_24h as nat), of_nat(n as nat)),
            None => !cfg.require_goplus_data,
        }),
        all_pass(top10_check(m, cfg)) == (match m.top10_holder_pct {
            Some(v) => at_most(v, cfg.max_top10_holder_pct),
            None => !cfg.require_goplus_data,
        }),
        all_pass(dev_check(m, cfg)) == (match m.dev_holding_pct {
            Some(v) => at_most(v, cfg.max_dev_holding_pct),
            None => !cfg.require_goplus_data,
        }),
        all_pass(buy_tax_check(m, cfg)) == (match m.buy_tax_percent {
            Some(v) => at_most(v, cfg.max_buy_tax_percent),
            None => !cfg.require_goplus_data,
        }),
        all_pass(sell_tax_check(m, cfg)) == (match m.sell_tax_percent {
            Some(v) => at_most(v, cfg.max_sell_tax_percent),
            None => !cfg.require_goplus_data,
        }),
        all_pass(lp_locked_check(m, cfg)) == (!less(Double { bits: 0 }, cfg.min_lp_locked_pct) || (
        match m.lp_locked_pct {
            Some(v) => at_most(cfg.min_lp_locked_pct, v),
            None => !cfg.require_goplus_data,
        })),
{
    lemma_threshold(
        count_of(m.holder_count),
        of_nat(cfg.min_holder_count as nat),
        true,
        "Holder count"@,
        0,
        ""@,
        ""@,
        cfg,
    );
    lemma_threshold(
        count_of(m.unique_traders_24h),
        of_nat(cfg.min_unique_traders_24h as nat),
        true,
        "Unique traders (24h)"@,
        0,
        ""@,
        ""@,
        cfg,
    );
    lemma_threshold(
        m.top10_holder_pct,
        cfg.max_top10_holder_pct,
        false,
        "Top-10 holder concentration"@,
        1,
        "%"@,
        ""@,
        cfg,
    );
    lemma_threshold(
        m.dev_holding_pct,
        cfg.max_dev_holding_pct,
        false,
        "Dev/creator holdings"@,
        1,
        "%"@,
        ""@,
        cfg,
    );
    lemma_threshold(
        m.buy_tax_percent,
        cfg.max_buy_tax_percent,
        false,
        "Buy tax"@,
        1,
        "%"@,
        ""@,
        cfg,
    );
    lemma_threshold(
        m.sell_tax_percent,
        cfg.max_sell_tax_percent,
        false,
        "Sell tax"@,
        1,
        "%"@,
        ""@,
        cfg,
    );
    lemma_threshold(
        m.lp_locked_pct,
        cfg.min_lp_locked_pct,
        true,
        "LP locked"@,
        1,
        "%"@,
        " — GoPlus lock data is often unavailable for Uniswap v3 NFT positions, so this may reflect missing data rather than genuinely unlocked liquidity"@,
        cfg,
    );
}

proof fn lemma_privileges(m: PoolMetrics, cfg: ScreeningConfig)
    ensures
        all_pass(mintable_check(m, cfg)) == (!cfg.require_not_mintable || (match m.is_mintable {
            Some(b) => !b,
            None => !cfg.require_goplus_data,
        })),
        all_pass(ownership_check(m, cfg)) == (!cfg.require_ownership_renounced || (
        match m.ownership_renounced {
            Some(b) => b,
            None => !cfg.require_goplus_data,
        })),
        all_pass(blacklist_check(m, cfg)) == (!cfg.require_not_blacklistable || (match (
            m.is_blacklistable,
            m.transfer_pausable,
        ) {
            (Some(true), _) => false,
            (_, Some(true)) => false,
            (None, None) => !cfg.require_goplus_data,
            _ => true,
        })),
{
    lemma_unknown("Mintability"@, cfg);
    lemma_unknown("Ownership-renounced status"@, cfg);
    lemma_unknown("Blacklist/pause capability"@, cfg);
    let a = mintable_check(m, cfg);
    let b = ownership_check(m, cfg);
    let c = blacklist_check(m, cfg);
    if cfg.require_not_mintable && m.is_mintable is Some {
        lemma_single(a[0]);
        assert(a =~= seq![a[0]]);
    }
    if cfg.require_ownership_renounced && m.ownership_renounced is Some {
        lemma_single(b[0]);
        assert(b =~= seq![b[0]]);
    }
    if cfg.require_not_blacklistable && blockable(m) is Some {
        lemma_single(c[0]);
        assert(c =~= seq![c[0]]);
    }
}

proof fn lemma_gecko_parts(m: PoolMetrics, cfg: ScreeningConfig)
    requires
        !cfg.hide_geckoterminal,
    ensures
        all_pass(gecko_checks(m, cfg)) == ((!less(Double { bits: 0 }, cfg.min_gt_score) || (
        m.gt_score matches Some(score) ==> at_most(cfg.min_gt_score, score))) && (
        !cfg.require_gt_verified || m.gt_verified != Some(false)) && m.gecko_is_honeypot != Some(
            true,
        )),
{
    let a = gt_score_check(m, cfg);
    let b = gt_verified_check(m, cfg);
    let c = gecko_honeypot_check(m);
    lemma_all_pass_append(a, b);
    lemma_all_pass_append(a + b, c);
    if a.len() > 0 {
        lemma_single(a[0]);
        assert(a =~= seq![a[0]]);
    }
    if b.len() > 0 {
        lemma_single(b[0]);
        assert(b =~= seq![b[0]]);
    }
    if c.len() > 0 {
        lemma_single(c[0]);
        assert(c =~= seq![c[0]]);
    }
}

/// Where GoPlus is not hidden, a pool that passes meets every requirement on its
/// security data that is switched on and known: enough holders and traders, no more than
/// the allowed concentration, developer holdings and taxes, enough locked liquidity, no
/// mint function, renounced ownership, neither blacklist nor pause, and no honeypot flag.
pub proof fn law_passed_pool_meets_security(m: PoolMetrics, cfg: ScreeningConfig)
    requires
        !cfg.hide_goplus,
        all_pass(checks(m, cfg)),
    ensures
        m.is_honeypot_goplus != Some(true),
        m.holder_count matches Some(n) ==> at_most(
            of_nat(cfg.min_holder_count as nat),
            of_nat(n as nat),
        ),
        m.unique_traders_24h matches Some(n) ==> at_most(
            of_nat(cfg.min_unique_traders_24h as nat),
            of_nat(n as nat),
        ),
        m.top10_holder_pct matches Some(v) ==> at_most(v, cfg.max_top10_holder_pct),
        m.dev_holding_pct matches Some(v) ==> at_most(v, cfg.max_dev_holding_pct),
        m.buy_tax_percent matches Some(v) ==> at_most(v, cfg.max_buy_tax_percent),
        m.sell_tax_percent matches Some(v) ==> at_most(v, cfg.max_sell_tax_percent),
        less(Double { bits: 0 }, cfg.min_lp_locked_pct) ==> (m.lp_locked_pct matches Some(v)
            ==> at_most(cfg.min_lp_locked_pct, v)),
        cfg.require_not_mintable ==> m.is_mintable != Some(true),
        cfg.require_ownership_renounced ==> m.ownership_renounced != Some(false),
        cfg.require_not_blacklistable ==> m.is_blacklistable != Some(true) && m.transfer_pausable
            != Some(true),
{
    law_passes_iff_every_check_passes(m, cfg);
    lemma_goplus_parts(m, cfg);
    lemma_limits(m, cfg);
    lemma_privileges(m, cfg);
    if m.is_honeypot_goplus == Some(true) {
        assert(!goplus_honeypot_check(m, cfg)[0].pass);
    }
}

/// Where GoPlus is not hidden and its data is required, a pool that passes has all of it
/// that some check asks for.
pub proof fn law_passed_pool_has_required_data(m: PoolMetrics, cfg: ScreeningConfig)
    requires
        !cfg.hide_goplus,
        cfg.require_goplus_data,
        all_pass(checks(m, cfg)),
    ensures
        m.holder_count is Some && m.unique_traders_24h is Some && m.top10_holder_pct is Some
            && m.dev_holding_pct is Some && m.buy_tax_percent is Some && m.sell_tax_percent is Some,
        less(Double { bits: 0 }, cfg.min_lp_locked_pct) ==> m.lp_locked_pct is Some,
        cfg.require_not_mintable ==> m.is_mintable is Some,
        cfg.require_ownership_renounced ==> m.ownership_renounced is Some,
        cfg.require_not_blacklistable ==> m.is_blacklistable is Some || m.transfer_pausable is Some,
{
    law_passes_iff_every_check_passes(m, cfg);
    lemma_goplus_parts(m, cfg);
    lemma_limits(m, cfg);
    lemma_privileges(m, cfg);
}

/// Where GeckoTerminal is not hidden, a pool that passes reaches the minimum score, is
/// verified where that is required, as far as either is known, and is not flagged as a
/// honeypot.
pub proof fn law_passed_pool_meets_gecko(m: PoolMetrics, cfg: ScreeningConfig)
    requires
        !cfg.hide_geckoterminal,
        all_pass(checks(m, cfg)),
    ensures
        less(Double { bits: 0 }, cfg.min_gt_score) ==> (m.gt_score matches Some(score) ==> at_most(
            cfg.min_gt_score,
            score,
        )),
        cfg.require_gt_verified ==> m.gt_verified != Some(false),
        m.gecko_is_honeypot != Some(true),
{
    law_passes_iff_every_check_passes(m, cfg);
    lemma_gecko_parts(m, cfg);
}

/// A pool that meets every threshold, and whose security data is known, clean and within
/// its limits, passes, whatever the thresholds are.
pub proof fn law_pool_that_meets_everything_passes(m: PoolMetrics, cfg: ScreeningConfig)
    requires
        m.tvl_usd matches Some(tvl) && at_most(cfg.min_tvl_usd, tvl),
        m.volume_24h_usd matches Some(v) && at_most(cfg.min_volume_24h_usd, v),
        m.apr_percent matches Some(apr) && at_most(cfg.min_apr_percent, apr) && at_most(
            apr,
            cfg.max_apr_percent,
        ),
        at_most(cfg.min_pool_age_hours, m.age_hours),
        cfg.require_verified_tokens ==> m.token0_verified == Some(true) && m.token1_verified
            == Some(true),
        m.honeypot_sellable == Some(true),
        m.honeypot_round_trip_loss_percent matches Some(loss) && at_most(
            loss,
            cfg.max_honeypot_loss_percent,
        ),
        cfg.hide_geckoterminal || m.gecko_is_honeypot != Some(true),
        cfg.hide_geckoterminal || !less(Double { bits: 0 }, cfg.min_gt_score) || (
        m.gt_score matches Some(score) ==> at_most(cfg.min_gt_score, score)),
        cfg.hide_geckoterminal || !cfg.require_gt_verified || m.gt_verified != Some(false),
        cfg.hide_goplus || {
            &&& m.is_honeypot_goplus != Some(true)
            &&& m.holder_count matches Some(n) && at_most(
                of_nat(cfg.min_holder_count as nat),
                of_nat(n as nat),
            )
            &&& m.unique_traders_24h matches Some(n) && at_most(
                of_nat(cfg.min_unique_traders_24h as nat),
                of_nat(n as nat),
            )
            &&& m.top10_holder_pct matches Some(v) && at_most(v, cfg.max_top10_holder_pct)
            &&& m.dev_holding_pct matches Some(v) && at_most(v, cfg.max_dev_holding_pct)
            &&& m.buy_tax_percent matches Some(v) && at_most(v, cfg.max_buy_tax_percent)
            &&& m.sell_tax_percent matches Some(v) && at_most(v, cfg.max_sell_tax_percent)
            &&& m.lp_locked_pct matches Some(v) && at_most(cfg.min_lp_locked_pct, v)
            &&& m.is_mintable == Some(false)
            &&& m.ownership_renounced == Some(true)
            &&& m.is_blacklistable == Some(false)
            &&& m.transfer_pausable == Some(false)
        },
    ensures
        all_pass(checks(m, cfg)),
{
    law_passes_iff_every_check_passes(m, cfg);
    lemma_core(m, cfg);
    if !cfg.hide_geckoterminal {
        lemma_gecko_parts(m, cfg);
    }
    if !cfg.hide_goplus {
        lemma_goplus_parts(m, cfg);
        lemma_limits(m, cfg);
        lemma_privileges(m, cfg);
    }
}

proof fn lemma_core(m: PoolMetrics, cfg: ScreeningConfig)
    requires
        m.tvl_usd matches Some(tvl) && at_most(cfg.min_tvl_usd, tvl),
        m.volume_24h_usd matches Some(v) && at_most(cfg.min_volume_24h_usd, v),
        m.apr_percent matches Some(apr) && at_most(cfg.min_apr_percent, apr) && at_most(
            apr,
            cfg.max_apr_percent,
        ),
        at_most(cfg.min_pool_age_hours, m.age_hours),
        cfg.require_verified_tokens ==> m.token0_verified == Some(true) && m.token1_verified
            == Some(true),
        m.honeypot_sellable == Some(true),
        m.honeypot_round_trip_loss_percent matches Some(loss) && at_most(
            loss,
            cfg.max_honeypot_loss_percent,
        ),
        cfg.hide_goplus || m.is_honeypot_goplus != Some(true),
    ensures
        all_pass(tvl_check(m, cfg)),
        all_pass(volume_check(m, cfg)),
        all_pass(apr_check(m, cfg)),
        all_pass(age_check(m, cfg)),
        all_pass(verified_check(m, cfg)),
        all_pass(honeypot_check(m, cfg)),
        all_pass(goplus_honeypot_check(m, cfg)),
{
}

/// Where security data is not required, what is not known of a pool never decides against
/// it: a pool that fails without a piece of data also fails whatever that data is.
pub proof fn law_unknown_data_is_tolerated(m: PoolMetrics, n: PoolMetrics, cfg: ScreeningConfig)
    requires
        !cfg.require_goplus_data,
        same_but_for_goplus(m, n),
        n.is_honeypot_goplus is None || n.is_honeypot_goplus == m.is_honeypot_goplus,
        n.holder_count is None || n.holder_count == m.holder_count,
        n.unique_traders_24h is None || n.unique_traders_24h == m.unique_traders_24h,
        n.top10_holder_pct is None || n.top10_holder_pct == m.top10_holder_pct,
        n.dev_holding_pct is None || n.dev_holding_pct == m.dev_holding_pct,
        n.buy_tax_percent is None || n.buy_tax_percent == m.buy_tax_percent,
        n.sell_tax_percent is None || n.sell_tax_percent == m.sell_tax_percent,
        n.lp_locked_pct is None || n.lp_locked_pct == m.lp_locked_pct,
        n.is_mintable is None || n.is_mintable == m.is_mintable,
        n.ownership_renounced is None || n.ownership_renounced == m.ownership_renounced,
        n.is_blacklistable is None || n.is_blacklistable == m.is_blacklistable,
        n.transfer_pausable is None || n.transfer_pausable == m.transfer_pausable,
        all_pass(checks(m, cfg)),
    ensures
        all_pass(checks(n, cfg)),
{
    law_passes_iff_every_check_passes(m, cfg);
    law_passes_iff_every_check_passes(n, cfg);
    assert(tvl_check(m, cfg) == tvl_check(n, cfg));
    assert(volume_check(m, cfg) == volume_check(n, cfg));
    assert(apr_check(m, cfg) == apr_check(n, cfg));
    assert(age_check(m, cfg) == age_check(n, cfg));
    lemma_same_verified_check(m, n, cfg);
    assert(honeypot_check(m, cfg) == honeypot_check(n, cfg));
    lemma_same_gecko_checks(m, n, cfg);
    if !cfg.hide_goplus {
        if m.is_honeypot_goplus == Some(true) {
            assert(!goplus_honeypot_check(m, cfg)[0].pass);
        }
        lemma_goplus_parts(m, cfg);
        lemma_limits(m, cfg);
        lemma_privileges(m, cfg);
        lemma_goplus_parts(n, cfg);
        lemma_limits(n, cfg);
        lemma_privileges(n, cfg);
    }
}

/// Whether nothing is known of the holders, traders, taxes, privileges and locks.
pub open spec fn no_security_data(m: PoolMetrics) -> bool {
    &&& m.holder_count is None
    &&& m.unique_traders_24h is None
    &&& m.top10_holder_pct is None
    &&& m.dev_holding_pct is None
    &&& m.buy_tax_percent is None
    &&& m.sell_tax_percent is None
    &&& m.is_mintable is None
    &&& m.ownership_renounced is None
    &&& m.is_blacklistable is None
    &&& m.transfer_pausable is None
    &&& m.lp_locked_pct is None
}

/// Missing security data is skipped where it is not required, and fails the pool
/// where it is.
pub proof fn law_missing_security_data(m: PoolMetrics, cfg: ScreeningConfig)
    requires
        no_security_data(m),
        !cfg.hide_goplus,
    ensures
        !cfg.require_goplus_data ==> all_pass(goplus_checks(m, cfg)),
        cfg.require_goplus_data ==> !all_pass(checks(m, cfg)),
{
    law_passes_iff_every_check_passes(m, cfg);
    lemma_goplus_parts(m, cfg);
    lemma_single(holder_check(m, cfg)[0]);
    assert(holder_check(m, cfg) =~= seq![holder_check(m, cfg)[0]]);
    assert(holder_check(m, cfg)[0].pass == !cfg.require_goplus_data);
}

/// Whether two pools differ at most in what the GoPlus checks read.
pub open spec fn same_but_for_goplus(a: PoolMetrics, b: PoolMetrics) -> bool {
    &&& a.token0_symbol@ == b.token0_symbol@
    &&& a.token1_symbol@ == b.token1_symbol@
    &&& a.tvl_usd == b.tvl_usd
    &&& a.volume_24h_usd == b.volume_24h_usd
    &&& a.apr_percent == b.apr_percent
    &&& a.age_hours == b.age_hours
    &&& a.token0_verified == b.token0_verified
    &&& a.token1_verified == b.token1_verified
    &&& a.honeypot_sellable == b.honeypot_sellable
    &&& a.honeypot_round_trip_loss_percent == b.honeypot_round_trip_loss_percent
    &&& a.gt_score == b.gt_score
    &&& a.gt_score_pool == b.gt_score_pool
    &&& a.gt_score_transaction == b.gt_score_transaction
    &&& a.gt_score_creation == b.gt_score_creation
    &&& a.gt_score_info == b.gt_score_info
    &&& a.gt_score_holders == b.gt_score_holders
    &&& a.gt_verified == b.gt_verified
    &&& a.gecko_is_honeypot == b.gecko_is_honeypot
}

proof fn lemma_same_verified_check(a: PoolMetrics, b: PoolMetrics, cfg: ScreeningConfig)
    requires
        same_but_for_goplus(a, b),
    ensures
        verified_check(a, cfg) == verified_check(b, cfg),
{
}

proof fn lemma_same_gecko_checks(a: PoolMetrics, b: PoolMetrics, cfg: ScreeningConfig)
    requires
        same_but_for_goplus(a, b),
    ensures
        gecko_checks(a, cfg) == gecko_checks(b, cfg),
{
}

/// Where GoPlus is hidden, nothing that its checks read changes the outcome or the
/// reasons.
pub proof fn law_hidden_goplus_is_ignored(a: PoolMetrics, b: PoolMetrics, cfg: ScreeningConfig)
    requires
        cfg.hide_goplus,
        same_but_for_goplus(a, b),
    ensures
        checks(a, cfg) == checks(b, cfg),
{
    assert(tvl_check(a, cfg) == tvl_check(b, cfg));
    assert(volume_check(a, cfg) == volume_check(b, cfg));
    assert(apr_check(a, cfg) == apr_check(b, cfg));
    assert(age_check(a, cfg) == age_check(b, cfg));
    lemma_same_verified_check(a, b, cfg);
    assert(honeypot_check(a, cfg) == honeypot_check(b, cfg));
    lemma_same_gecko_checks(a, b, cfg);
}

/// Whether two pools differ at most in what GeckoTerminal's checks read.
pub open spec fn same_but_for_gecko(a: PoolMetrics, b: PoolMetrics) -> bool {
    &&& a.token0_symbol@ == b.token0_symbol@
    &&& a.token1_symbol@ == b.token1_symbol@
    &&& a.tvl_usd == b.tvl_usd
    &&& a.volume_24h_usd == b.volume_24h_usd
    &&& a.apr_percent == b.apr_percent
    &&& a.age_hours == b.age_hours
    &&& a.token0_verified == b.token0_verified
    &&& a.token1_verified == b.token1_verified
    &&& a.honeypot_sellable == b.honeypot_sellable
    &&& a.honeypot_round_trip_loss_percent == b.honeypot_round_trip_loss_percent
    &&& a.unique_traders_24h == b.unique_traders_24h
    &&& a.holder_count == b.holder_count
    &&& a.top10_holder_pct == b.top10_holder_pct
    &&& a.dev_holding_pct == b.dev_holding_pct
    &&& a.buy_tax_percent == b.buy_tax_percent
    &&& a.sell_tax_percent == b.sell_tax_percent
    &&& a.is_mintable == b.is_mintable
    &&& a.ownership_renounced == b.ownership_renounced
    &&& a.is_honeypot_goplus == b.is_honeypot_goplus
    &&& a.is_blacklistable == b.is_blacklistable
    &&& a.transfer_pausable == b.transfer_pausable
    &&& a.lp_locked_pct == b.lp_locked_pct
}

proof fn lemma_same_priced_checks(a: PoolMetrics, b: PoolMetrics, cfg: ScreeningConfig)
    requires
        same_but_for_gecko(a, b),
    ensures
        tvl_check(a, cfg) == tvl_check(b, cfg),
        volume_check(a, cfg) == volume_check(b, cfg),
        apr_check(a, cfg) == apr_check(b, cfg),
        age_check(a, cfg) == age_check(b, cfg),
        verified_check(a, cfg) == verified_check(b, cfg),
        honeypot_check(a, cfg) == honeypot_check(b, cfg),
        goplus_honeypot_check(a, cfg) == goplus_honeypot_check(b, cfg),
{
}

proof fn lemma_same_goplus_checks(a: PoolMetrics, b: PoolMetrics, cfg: ScreeningConfig)
    requires
        same_but_for_gecko(a, b),
    ensures
        goplus_checks(a, cfg) == goplus_checks(b, cfg),
{
    assert(holder_check(a, cfg) == holder_check(b, cfg));
    assert(traders_check(a, cfg) == traders_check(b, cfg));
    assert(top10_check(a, cfg) == top10_check(b, cfg));
    assert(dev_check(a, cfg) == dev_check(b, cfg));
    assert(buy_tax_check(a, cfg) == buy_tax_check(b, cfg));
    assert(sell_tax_check(a, cfg) == sell_tax_check(b, cfg));
    assert(mintable_check(a, cfg) == mintable_check(b, cfg));
    assert(ownership_check(a, cfg) == ownership_check(b, cfg));
    assert(blacklist_check(a, cfg) == blacklist_check(b, cfg));
    assert(lp_locked_check(a, cfg) == lp_locked_check(b, cfg));
}

/// Where GeckoTerminal is hidden, its scores and flags make no check, and change
/// neither the outcome nor the reasons.
pub proof fn law_hidden_gecko_is_ignored(a: PoolMetrics, b: PoolMetrics, cfg: ScreeningConfig)
    requires
        cfg.hide_geckoterminal,
        same_but_for_gecko(a, b),
    ensures
        gecko_checks(a, cfg) == Seq::<Verdict>::empty(),
        checks(a, cfg) == checks(b, cfg),
{
    lemma_same_priced_checks(a, b, cfg);
    lemma_same_goplus_checks(a, b, cfg);
}

/// A minimum of zero, or below, switches off the score check and the LP-lock check.
pub proof fn law_zero_disables(m: PoolMetrics, cfg: ScreeningConfig)
    ensures
        !less(Double { bits: 0 }, cfg.min_gt_score) ==> gt_score_check(m, cfg) == Seq::<
            Verdict,
        >::empty(),
        !less(Double { bits: 0 }, cfg.min_lp_locked_pct) ==> lp_locked_check(m, cfg) == Seq::<
            Verdict,
        >::empty(),
{
}

/// A pool whose tokens have no prices never passes, whatever else is known of it.
pub proof fn law_pool_without_prices_fails(
    cfg: AppConfig,
    pool: PoolInfo,
    now: u64,
    token0: TokenFacts,
    token1: TokenFacts,
)
    ensures
        !all_pass(checks(metrics_of(cfg, pool, now, token0, token1, None), cfg.screening)),
{
    law_unpriceable_pool_fails(metrics_of(cfg, pool, now, token0, token1, None), cfg.screening);
}

/// A pool whose round trip could not be sized or simulated never passes.
pub proof fn law_untested_pool_fails(
    cfg: AppConfig,
    pool: PoolInfo,
    now: u64,
    token0: TokenFacts,
    token1: TokenFacts,
    facts: PricedFacts,
)
    requires
        facts.honeypot_sellable is None,
    ensures
        !all_pass(checks(metrics_of(cfg, pool, now, token0, token1, Some(facts)), cfg.screening)),
{
    let m = metrics_of(cfg, pool, now, token0, token1, Some(facts));
    if all_pass(checks(m, cfg.screening)) {
        law_passed_pool_meets_thresholds(m, cfg.screening);
    }
}

} // verus!
