//! Applies the configured thresholds to a pool and explains the outcome.
use vstd::prelude::*;
use vstd::string::*;

use crate::config::ScreeningConfig;
use crate::double::{at_most, less, of_nat, Double};
use crate::fixed::{fixed, push_fixed};
use crate::models::{PoolCandidate, PoolMetrics, ScreenResult};
use crate::text::texts;

verus! {

/// The outcome of one check: whether it lets the pool pass, and the reason given.
pub struct Verdict {
    pub pass: bool,
    pub reason: Seq<char>,
}

/// Whether every check lets the pool pass.
pub open spec fn all_pass(verdicts: Seq<Verdict>) -> bool {
    forall|i: int| 0 <= i < verdicts.len() ==> (#[trigger] verdicts[i]).pass
}

/// The reasons given, in order.
pub open spec fn reasons_of(verdicts: Seq<Verdict>) -> Seq<Seq<char>> {
    verdicts.map_values(|v: Verdict| v.reason)
}

pub open spec fn pass(reason: Seq<char>) -> Seq<Verdict> {
    seq![Verdict { pass: true, reason }]
}

pub open spec fn fail(reason: Seq<char>) -> Seq<Verdict> {
    seq![Verdict { pass: false, reason }]
}

/// Two numbers between three pieces of text.
pub open spec fn two_numbers(
    a: Seq<char>,
    x: Double,
    b: Seq<char>,
    y: Double,
    c: Seq<char>,
    d: nat,
) -> Seq<char> {
    a + fixed(x, d) + b + fixed(y, d) + c
}

pub open spec fn tvl_check(m: PoolMetrics, cfg: ScreeningConfig) -> Seq<Verdict> {
    match m.tvl_usd {
        Some(tvl) => if at_most(cfg.min_tvl_usd, tvl) {
            pass(two_numbers("TVL $"@, tvl, " >= min $"@, cfg.min_tvl_usd, ""@, 0))
        } else {
            fail(two_numbers("TVL $"@, tvl, " below min $"@, cfg.min_tvl_usd, ""@, 0))
        },
        None => fail("TVL unpriceable (neither side is WETH/USDC)"@),
    }
}

pub open spec fn volume_check(m: PoolMetrics, cfg: ScreeningConfig) -> Seq<Verdict> {
    match m.volume_24h_usd {
        Some(v) => if at_most(cfg.min_volume_24h_usd, v) {
            pass(two_numbers("24h volume $"@, v, " >= min $"@, cfg.min_volume_24h_usd, ""@, 0))
        } else {
            fail(two_numbers("24h volume $"@, v, " below min $"@, cfg.min_volume_24h_usd, ""@, 0))
        },
        None => fail("Volume unpriceable"@),
    }
}

pub open spec fn apr_check(m: PoolMetrics, cfg: ScreeningConfig) -> Seq<Verdict> {
    match m.apr_percent {
        Some(apr) => if at_most(cfg.min_apr_percent, apr) && at_most(apr, cfg.max_apr_percent) {
            pass(
                two_numbers(
                    "Estimated APR "@,
                    apr,
                    "% within ["@,
                    cfg.min_apr_percent,
                    "%, "@,
                    1,
                ) + fixed(cfg.max_apr_percent, 1) + "%]"@,
            )
        } else if less(cfg.max_apr_percent, apr) {
            fail(
                two_numbers(
                    "Estimated APR "@,
                    apr,
                    "% looks unsustainably high (> "@,
                    cfg.max_apr_percent,
                    "%) — likely low liquidity / manipulated, treated as a red flag not a bonus"@,
                    1,
                ),
            )
        } else {
            fail(two_numbers("Estimated APR "@, apr, "% below min "@, cfg.min_apr_percent, "%"@, 1))
        },
        None => fail("APR unpriceable"@),
    }
}

pub open spec fn age_check(m: PoolMetrics, cfg: ScreeningConfig) -> Seq<Verdict> {
    if at_most(cfg.min_pool_age_hours, m.age_hours) {
        pass(two_numbers("Pool age "@, m.age_hours, "h >= min "@, cfg.min_pool_age_hours, "h"@, 1))
    } else {
        fail(
            two_numbers("Pool age "@, m.age_hours, "h below min "@, cfg.min_pool_age_hours, "h"@, 1),
        )
    }
}

/// The symbol of a token whose contract is not known to be verified.
pub open spec fn unverified_symbol(verified: Option<bool>, symbol: Seq<char>) -> Seq<char> {
    if verified == Some(true) {
        ""@
    } else {
        symbol
    }
}

pub open spec fn verified_check(m: PoolMetrics, cfg: ScreeningConfig) -> Seq<Verdict> {
    if !cfg.require_verified_tokens {
        Seq::empty()
    } else if m.token0_verified == Some(true) && m.token1_verified == Some(true) {
        pass("Both token contracts verified on Blockscout"@)
    } else {
        fail(
            "Unverified token contract(s): "@ + unverified_symbol(
                m.token0_verified,
                m.token0_symbol@,
            ) + " "@ + unverified_symbol(m.token1_verified, m.token1_symbol@),
        )
    }
}

pub open spec fn honeypot_check(m: PoolMetrics, cfg: ScreeningConfig) -> Seq<Verdict> {
    match (m.honeypot_sellable, m.honeypot_round_trip_loss_percent) {
        (Some(true), Some(loss)) => if at_most(loss, cfg.max_honeypot_loss_percent) {
            pass(
                two_numbers(
                    "Honeypot check passed: simulated buy-then-sell round trip lost "@,
                    loss,
                    "% (<= "@,
                    cfg.max_honeypot_loss_percent,
                    "% max)"@,
                    1,
                ),
            )
        } else {
            fail(
                two_numbers(
                    "Simulated round-trip loss "@,
                    loss,
                    "% exceeds max "@,
                    cfg.max_honeypot_loss_percent,
                    "% — likely a hidden sell tax"@,
                    1,
                ),
            )
        },
        (Some(true), None) => fail(
            "Honeypot check returned sellable but no loss figure — treating as inconclusive"@,
        ),
        (Some(false), _) => fail(
            "Honeypot check FAILED: simulated sell reverted — token likely can't be sold"@,
        ),
        (None, _) => fail(
            "Honeypot check inconclusive (pool unpriceable or quoter call failed)"@,
        ),
    }
}

pub open spec fn goplus_honeypot_check(m: PoolMetrics, cfg: ScreeningConfig) -> Seq<Verdict> {
    if !cfg.hide_goplus && m.is_honeypot_goplus == Some(true) {
        fail("GoPlus flags this token as a honeypot"@)
    } else {
        Seq::empty()
    }
}

/// A score component, zero where it is unknown.
pub open spec fn component(v: Option<Double>) -> Double {
    match v {
        Some(x) => x,
        None => Double { bits: 0 },
    }
}

pub open spec fn gt_score_check(m: PoolMetrics, cfg: ScreeningConfig) -> Seq<Verdict> {
    if !less(Double { bits: 0 }, cfg.min_gt_score) {
        Seq::empty()
    } else {
        match m.gt_score {
            Some(score) => if at_most(cfg.min_gt_score, score) {
                pass(
                    two_numbers(
                        "GeckoTerminal gt_score "@,
                        score,
                        " >= min "@,
                        cfg.min_gt_score,
                        " (components: pool="@,
                        1,
                    ) + fixed(component(m.gt_score_pool), 0) + " tx="@ + fixed(
                        component(m.gt_score_transaction),
                        0,
                    ) + " creation="@ + fixed(component(m.gt_score_creation), 0) + " info="@
                        + fixed(component(m.gt_score_info), 0) + " holders="@ + fixed(
                        component(m.gt_score_holders),
                        0,
                    ) + ")"@,
                )
            } else {
                fail(
                    two_numbers(
                        "GeckoTerminal gt_score "@,
                        score,
                        " below min "@,
                        cfg.min_gt_score,
                        " — weighted security score too low"@,
                        1,
                    ),
                )
            },
            None => if cfg.hide_goplus {
                pass("GeckoTerminal gt_score unavailable — skipping"@)
            } else {
                pass("GeckoTerminal gt_score unavailable — skipping (GoPlus fallback active)"@)
            },
        }
    }
}

pub open spec fn gt_verified_check(m: PoolMetrics, cfg: ScreeningConfig) -> Seq<Verdict> {
    if !cfg.require_gt_verified {
        Seq::empty()
    } else {
        match m.gt_verified {
            Some(true) => pass("GeckoTerminal verified ✓"@),
            Some(false) => fail(
                "GeckoTerminal NOT verified — project hasn't submitted verified info"@,
            ),
            None => pass("GeckoTerminal verification status unknown — skipped"@),
        }
    }
}

pub open spec fn gecko_honeypot_check(m: PoolMetrics) -> Seq<Verdict> {
    if m.gecko_is_honeypot == Some(true) {
        fail("GeckoTerminal flags this token as a honeypot"@)
    } else {
        Seq::empty()
    }
}

/// The checks on GeckoTerminal's data.
pub open spec fn gecko_checks(m: PoolMetrics, cfg: ScreeningConfig) -> Seq<Verdict> {
    if cfg.hide_geckoterminal {
        Seq::empty()
    } else {
        gt_score_check(m, cfg) + gt_verified_check(m, cfg) + gecko_honeypot_check(m)
    }
}

/// What is said of a value on which there is no data.
pub open spec fn unknown(label: Seq<char>, cfg: ScreeningConfig) -> Seq<Verdict> {
    if cfg.require_goplus_data {
        fail(
            label
                + " unknown (GoPlus has no data on this token yet) — failing since require_goplus_data=true"@,
        )
    } else {
        pass(
            label
                + " unknown (GoPlus has no data yet) — skipped, not counted against this pool"@,
        )
    }
}

/// A value against its threshold: at least that where it is a floor, at most that
/// where it is a ceiling.
pub open spec fn threshold_check(
    value: Option<Double>,
    threshold: Double,
    floor: bool,
    label: Seq<char>,
    d: nat,
    unit: Seq<char>,
    fail_tail: Seq<char>,
    cfg: ScreeningConfig,
) -> Seq<Verdict> {
    match value {
        Some(v) => if floor {
            if at_most(threshold, v) {
                pass(label + " "@ + fixed(v, d) + unit + " >= min "@ + fixed(threshold, d) + unit)
            } else {
                fail(
                    label + " "@ + fixed(v, d) + unit + " below min "@ + fixed(threshold, d) + unit
                        + fail_tail,
                )
            }
        } else {
            if at_most(v, threshold) {
                pass(
                    label + " "@ + fixed(v, d) + unit + " within max "@ + fixed(threshold, d) + unit,
                )
            } else {
                fail(
                    label + " "@ + fixed(v, d) + unit + " exceeds max "@ + fixed(threshold, d)
                        + unit + fail_tail,
                )
            }
        },
        None => unknown(label, cfg),
    }
}

/// A count as a number.
pub open spec fn count_of(v: Option<u64>) -> Option<Double> {
    match v {
        Some(n) => Some(of_nat(n as nat)),
        None => None,
    }
}

pub open spec fn mintable_check(m: PoolMetrics, cfg: ScreeningConfig) -> Seq<Verdict> {
    if !cfg.require_not_mintable {
        Seq::empty()
    } else {
        match m.is_mintable {
            Some(false) => pass("No privileged mint function (GoPlus)"@),
            Some(true) => fail(
                "Contract has a privileged mint function — supply could be inflated at will"@,
            ),
            None => unknown("Mintability"@, cfg),
        }
    }
}

pub open spec fn ownership_check(m: PoolMetrics, cfg: ScreeningConfig) -> Seq<Verdict> {
    if !cfg.require_ownership_renounced {
        Seq::empty()
    } else {
        match m.ownership_renounced {
            Some(true) => pass("Ownership renounced / no privileged owner (GoPlus)"@),
            Some(false) => fail(
                "Ownership NOT renounced — a privileged owner still exists (closest EVM equivalent to an unrevoked mint/freeze authority)"@,
            ),
            None => unknown("Ownership-renounced status"@, cfg),
        }
    }
}

/// Whether transfers can be blocked, by a blacklist or by a pause: yes if either is
/// known to be possible, no if neither is and one is known not to be.
pub open spec fn blockable(m: PoolMetrics) -> Option<bool> {
    if m.is_blacklistable == Some(true) || m.transfer_pausable == Some(true) {
        Some(true)
    } else if m.is_blacklistable is Some {
        m.is_blacklistable
    } else {
        m.transfer_pausable
    }
}

pub open spec fn blacklist_check(m: PoolMetrics, cfg: ScreeningConfig) -> Seq<Verdict> {
    if !cfg.require_not_blacklistable {
        Seq::empty()
    } else {
        match blockable(m) {
            Some(false) => pass("No blacklist/pause function found (GoPlus)"@),
            Some(true) => fail(
                "Contract can blacklist addresses or pause transfers — closest EVM equivalent to a freeze authority that hasn't been revoked"@,
            ),
            None => unknown("Blacklist/pause capability"@, cfg),
        }
    }
}

pub open spec fn lp_locked_check(m: PoolMetrics, cfg: ScreeningConfig) -> Seq<Verdict> {
    if !less(Double { bits: 0 }, cfg.min_lp_locked_pct) {
        Seq::empty()
    } else {
        threshold_check(
            m.lp_locked_pct,
            cfg.min_lp_locked_pct,
            true,
            "LP locked"@,
            1,
            "%"@,
            " — GoPlus lock data is often unavailable for Uniswap v3 NFT positions, so this may reflect missing data rather than genuinely unlocked liquidity"@,
            cfg,
        )
    }
}

pub open spec fn holder_check(m: PoolMetrics, cfg: ScreeningConfig) -> Seq<Verdict> {
    threshold_check(
        count_of(m.holder_count),
        of_nat(cfg.min_holder_count as nat),
        true,
        "Holder count"@,
        0,
        ""@,
        ""@,
        cfg,
    )
}

pub open spec fn traders_check(m: PoolMetrics, cfg: ScreeningConfig) -> Seq<Verdict> {
    threshold_check(
        count_of(m.unique_traders_24h),
        of_nat(cfg.min_unique_traders_24h as nat),
        true,
        "Unique traders (24h)"@,
        0,
        ""@,
        ""@,
        cfg,
    )
}

pub open spec fn top10_check(m: PoolMetrics, cfg: ScreeningConfig) -> Seq<Verdict> {
    threshold_check(
        m.top10_holder_pct,
        cfg.max_top10_holder_pct,
        false,
        "Top-10 holder concentration"@,
        1,
        "%"@,
        ""@,
        cfg,
    )
}

pub open spec fn dev_check(m: PoolMetrics, cfg: ScreeningConfig) -> Seq<Verdict> {
    threshold_check(
        m.dev_holding_pct,
        cfg.max_dev_holding_pct,
        false,
        "Dev/creator holdings"@,
        1,
        "%"@,
        ""@,
        cfg,
    )
}

pub open spec fn buy_tax_check(m: PoolMetrics, cfg: ScreeningConfig) -> Seq<Verdict> {
    threshold_check(
        m.buy_tax_percent,
        cfg.max_buy_tax_percent,
        false,
        "Buy tax"@,
        1,
        "%"@,
        ""@,
        cfg,
    )
}

pub open spec fn sell_tax_check(m: PoolMetrics, cfg: ScreeningConfig) -> Seq<Verdict> {
    threshold_check(
        m.sell_tax_percent,
        cfg.max_sell_tax_percent,
        false,
        "Sell tax"@,
        1,
        "%"@,
        ""@,
        cfg,
    )
}

/// The checks on holders, taxes and privileges.
pub open spec fn goplus_checks(m: PoolMetrics, cfg: ScreeningConfig) -> Seq<Verdict> {
    if cfg.hide_goplus {
        Seq::empty()
    } else {
        holder_check(m, cfg) + traders_check(m, cfg) + top10_check(m, cfg) + dev_check(m, cfg)
            + buy_tax_check(m, cfg) + sell_tax_check(m, cfg) + mintable_check(m, cfg)
            + ownership_check(m, cfg) + blacklist_check(m, cfg) + lp_locked_check(m, cfg)
    }
}

/// All checks, in the order in which their reasons are given.
pub open spec fn checks(m: PoolMetrics, cfg: ScreeningConfig) -> Seq<Verdict> {
    tvl_check(m, cfg) + volume_check(m, cfg) + apr_check(m, cfg) + age_check(m, cfg)
        + verified_check(m, cfg) + honeypot_check(m, cfg) + goplus_honeypot_check(m, cfg)
        + gecko_checks(m, cfg) + goplus_checks(m, cfg)
}

/// A screening in progress.
struct Report {
    passed: bool,
    reasons: Vec<String>,
    verdicts: Ghost<Seq<Verdict>>,
}

impl Report {
    spec fn wf(self) -> bool {
        &&& self.passed == all_pass(self.verdicts@)
        &&& texts(self.reasons@) == reasons_of(self.verdicts@)
    }

    fn note(&mut self, ok: bool, reason: String)
        requires
            old(self).wf(),
        ensures
            final(self).wf(),
            final(self).verdicts@ == old(self).verdicts@ + (if ok {
                pass(reason@)
            } else {
                fail(reason@)
            }),
    {
        let ghost before = self.verdicts@;
        let ghost old_reasons = self.reasons@;
        let ghost verdict = Verdict { pass: ok, reason: reason@ };
        self.passed = self.passed && ok;
        self.reasons.push(reason);
        self.verdicts = Ghost(before.push(verdict));
        proof {
            assert(before + seq![verdict] =~= before.push(verdict));
            assert(texts(self.reasons@) =~= texts(old_reasons).push(verdict.reason));
            assert(reasons_of(before.push(verdict)) =~= reasons_of(before).push(verdict.reason));
            assert(before.push(verdict).last() == verdict);
            assert forall|i: int| 0 <= i < before.len() implies before.push(verdict)[i]
                == #[trigger] before[i] by {}
            if all_pass(before.push(verdict)) {
                assert forall|i: int| 0 <= i < before.len() implies (#[trigger] before[i]).pass by {
                    assert(before.push(verdict)[i].pass);
                }
                assert(before.push(verdict)[before.len() as int].pass);
            }
        }
    }
}

fn between(a: &str, x: Double, b: &str, y: Double, c: &str, d: usize) -> (r: String)
    requires
        d <= 4,
    ensures
        r@ == two_numbers(a@, x, b@, y, c@, d as nat),
{
    let mut r: String = String::from_str(a);
    push_fixed(&mut r, x, d);
    r.append(b);
    push_fixed(&mut r, y, d);
    r.append(c);
    r
}

fn screen_tvl(m: &PoolMetrics, cfg: &ScreeningConfig, report: &mut Report)
    requires
        old(report).wf(),
    ensures
        final(report).wf(),
        final(report).verdicts@ == old(report).verdicts@ + tvl_check(*m, *cfg),
{
    match m.tvl_usd {
        Some(tvl) => if cfg.min_tvl_usd.no_more_than(tvl) {
            report.note(true, between("TVL $", tvl, " >= min $", cfg.min_tvl_usd, "", 0));
        } else {
            report.note(false, between("TVL $", tvl, " below min $", cfg.min_tvl_usd, "", 0));
        },
        None => {
            report.note(false, String::from_str("TVL unpriceable (neither side is WETH/USDC)"));
        },
    }
}

fn screen_volume(m: &PoolMetrics, cfg: &ScreeningConfig, report: &mut Report)
    requires
        old(report).wf(),
    ensures
        final(report).wf(),
        final(report).verdicts@ == old(report).verdicts@ + volume_check(*m, *cfg),
{
    match m.volume_24h_usd {
        Some(v) => if cfg.min_volume_24h_usd.no_more_than(v) {
            report.note(
                true,
                between("24h volume $", v, " >= min $", cfg.min_volume_24h_usd, "", 0),
            );
        } else {
            report.note(
                false,
                between("24h volume $", v, " below min $", cfg.min_volume_24h_usd, "", 0),
            );
        },
        None => {
            report.note(false, String::from_str("Volume unpriceable"));
        },
    }
}

fn screen_apr(m: &PoolMetrics, cfg: &ScreeningConfig, report: &mut Report)
    requires
        old(report).wf(),
    ensures
        final(report).wf(),
        final(report).verdicts@ == old(report).verdicts@ + apr_check(*m, *cfg),
{
    match m.apr_percent {
        Some(apr) => if cfg.min_apr_percent.no_more_than(apr) && apr.no_more_than(
            cfg.max_apr_percent,
        ) {
            let mut text: String = between(
                "Estimated APR ",
                apr,
                "% within [",
                cfg.min_apr_percent,
                "%, ",
                1,
            );
            push_fixed(&mut text, cfg.max_apr_percent, 1);
            text.append("%]");
            report.note(true, text);
        } else if cfg.max_apr_percent.less_than(apr) {
            report.note(
                false,
                between(
                    "Estimated APR ",
                    apr,
                    "% looks unsustainably high (> ",
                    cfg.max_apr_percent,
                    "%) — likely low liquidity / manipulated, treated as a red flag not a bonus",
                    1,
                ),
            );
        } else {
            report.note(
                false,
                between("Estimated APR ", apr, "% below min ", cfg.min_apr_percent, "%", 1),
            );
        },
        None => {
            report.note(false, String::from_str("APR unpriceable"));
        },
    }
}

fn screen_age(m: &PoolMetrics, cfg: &ScreeningConfig, report: &mut Report)
    requires
        old(report).wf(),
    ensures
        final(report).wf(),
        final(report).verdicts@ == old(report).verdicts@ + age_check(*m, *cfg),
{
    if cfg.min_pool_age_hours.no_more_than(m.age_hours) {
        report.note(
            true,
            between("Pool age ", m.age_hours, "h >= min ", cfg.min_pool_age_hours, "h", 1),
        );
    } else {
        report.note(
            false,
            between("Pool age ", m.age_hours, "h below min ", cfg.min_pool_age_hours, "h", 1),
        );
    }
}

/// Whether a flag is known to be set.
fn is_set(v: Option<bool>) -> (r: bool)
    ensures
        r == (v == Some(true)),
{
    match v {
        Some(b) => b,
        None => false,
    }
}

fn screen_verified(m: &PoolMetrics, cfg: &ScreeningConfig, report: &mut Report)
    requires
        old(report).wf(),
    ensures
        final(report).wf(),
        final(report).verdicts@ == old(report).verdicts@ + verified_check(*m, *cfg),
{
    if !cfg.require_verified_tokens {
        assert(report.verdicts@ + Seq::<Verdict>::empty() =~= report.verdicts@);
        return;
    }
    let v0: bool = is_set(m.token0_verified);
    let v1: bool = is_set(m.token1_verified);
    if v0 && v1 {
        report.note(true, String::from_str("Both token contracts verified on Blockscout"));
    } else {
        let mut text: String = String::from_str("Unverified token contract(s): ");
        text.append(
            if v0 {
                ""
            } else {
                m.token0_symbol.as_str()
            },
        );
        text.append(" ");
        text.append(
            if v1 {
                ""
            } else {
                m.token1_symbol.as_str()
            },
        );
        report.note(false, text);
    }
}

fn screen_honeypot(m: &PoolMetrics, cfg: &ScreeningConfig, report: &mut Report)
    requires
        old(report).wf(),
    ensures
        final(report).wf(),
        final(report).verdicts@ == old(report).verdicts@ + honeypot_check(*m, *cfg),
{
    match m.honeypot_sellable {
        Some(true) => match m.honeypot_round_trip_loss_percent {
            Some(loss) => if loss.no_more_than(cfg.max_honeypot_loss_percent) {
                report.note(
                    true,
                    between(
                        "Honeypot check passed: simulated buy-then-sell round trip lost ",
                        loss,
                        "% (<= ",
                        cfg.max_honeypot_loss_percent,
                        "% max)",
                        1,
                    ),
                );
            } else {
                report.note(
                    false,
                    between(
                        "Simulated round-trip loss ",
                        loss,
                        "% exceeds max ",
                        cfg.max_honeypot_loss_percent,
                        "% — likely a hidden sell tax",
                        1,
                    ),
                );
            },
            None => {
                report.note(
                    false,
                    String::from_str(
                        "Honeypot check returned sellable but no loss figure — treating as inconclusive",
                    ),
                );
            },
        },
        Some(false) => {
            report.note(
                false,
                String::from_str(
                    "Honeypot check FAILED: simulated sell reverted — token likely can't be sold",
                ),
            );
        },
        None => {
            report.note(
                false,
                String::from_str(
                    "Honeypot check inconclusive (pool unpriceable or quoter call failed)",
                ),
            );
        },
    }
}

fn screen_goplus_honeypot(m: &PoolMetrics, cfg: &ScreeningConfig, report: &mut Report)
    requires
        old(report).wf(),
    ensures
        final(report).wf(),
        final(report).verdicts@ == old(report).verdicts@ + goplus_honeypot_check(*m, *cfg),
{
    if !cfg.hide_goplus && is_set(m.is_honeypot_goplus) {
        report.note(false, String::from_str("GoPlus flags this token as a honeypot"));
    } else {
        assert(report.verdicts@ + Seq::<Verdict>::empty() =~= report.verdicts@);
    }
}

fn or_zero(v: Option<Double>) -> (r: Double)
    ensures
        r == component(v),
{
    match v {
        Some(x) => x,
        None => Double { bits: 0 },
    }
}

fn screen_gt_score(m: &PoolMetrics, cfg: &ScreeningConfig, report: &mut Report)
    requires
        old(report).wf(),
    ensures
        final(report).wf(),
        final(report).verdicts@ == old(report).verdicts@ + gt_score_check(*m, *cfg),
{
    if !(Double { bits: 0 }).less_than(cfg.min_gt_score) {
        assert(report.verdicts@ + Seq::<Verdict>::empty() =~= report.verdicts@);
        return;
    }
    match m.gt_score {
        Some(score) => if cfg.min_gt_score.no_more_than(score) {
            let mut text: String = between(
                "GeckoTerminal gt_score ",
                score,
                " >= min ",
                cfg.min_gt_score,
                " (components: pool=",
                1,
            );
            push_fixed(&mut text, or_zero(m.gt_score_pool), 0);
            text.append(" tx=");
            push_fixed(&mut text, or_zero(m.gt_score_transaction), 0);
            text.append(" creation=");
            push_fixed(&mut text, or_zero(m.gt_score_creation), 0);
            text.append(" info=");
            push_fixed(&mut text, or_zero(m.gt_score_info), 0);
            text.append(" holders=");
            push_fixed(&mut text, or_zero(m.gt_score_holders), 0);
            text.append(")");
            report.note(true, text);
        } else {
            report.note(
                false,
                between(
                    "GeckoTerminal gt_score ",
                    score,
                    " below min ",
                    cfg.min_gt_score,
                    " — weighted security score too low",
                    1,
                ),
            );
        },
        None => if cfg.hide_goplus {
            report.note(true, String::from_str("GeckoTerminal gt_score unavailable — skipping"));
        } else {
            report.note(
                true,
                String::from_str(
                    "GeckoTerminal gt_score unavailable — skipping (GoPlus fallback active)",
                ),
            );
        },
    }
}

fn screen_gecko(m: &PoolMetrics, cfg: &ScreeningConfig, report: &mut Report)
    requires
        old(report).wf(),
    ensures
        final(report).wf(),
        final(report).verdicts@ == old(report).verdicts@ + gecko_checks(*m, *cfg),
{
    let ghost start = report.verdicts@;
    assert(start + Seq::<Verdict>::empty() =~= start);
    if cfg.hide_geckoterminal {
        return;
    }
    screen_gt_score(m, cfg, report);
    let ghost after_score = report.verdicts@;
    assert(after_score + Seq::<Verdict>::empty() =~= after_score);
    if cfg.require_gt_verified {
        match m.gt_verified {
            Some(true) => {
                report.note(true, String::from_str("GeckoTerminal verified ✓"));
            },
            Some(false) => {
                report.note(
                    false,
                    String::from_str(
                        "GeckoTerminal NOT verified — project hasn't submitted verified info",
                    ),
                );
            },
            None => {
                report.note(
                    true,
                    String::from_str("GeckoTerminal verification status unknown — skipped"),
                );
            },
        }
    }
    let ghost after_verified = report.verdicts@;
    assert(after_verified == after_score + gt_verified_check(*m, *cfg));
    assert(after_verified + Seq::<Verdict>::empty() =~= after_verified);
    if is_set(m.gecko_is_honeypot) {
        report.note(false, String::from_str("GeckoTerminal flags this token as a honeypot"));
    }
    assert(report.verdicts@ == after_verified + gecko_honeypot_check(*m));
    assert(report.verdicts@ =~= start + gecko_checks(*m, *cfg));
}

fn fail_or_skip_bool(cfg: &ScreeningConfig, report: &mut Report, label: &str)
    requires
        old(report).wf(),
    ensures
        final(report).wf(),
        final(report).verdicts@ == old(report).verdicts@ + unknown(label@, *cfg),
{
    let mut text: String = String::from_str(label);
    if cfg.require_goplus_data {
        text.append(
            " unknown (GoPlus has no data on this token yet) — failing since require_goplus_data=true",
        );
        report.note(false, text);
    } else {
        text.append(
            " unknown (GoPlus has no data yet) — skipped, not counted against this pool",
        );
        report.note(true, text);
    }
}

/// A value against its threshold, or, where there is no value, what is said of that.
fn missing_or_check(
    value: Option<Double>,
    threshold: Double,
    floor: bool,
    cfg: &ScreeningConfig,
    report: &mut Report,
    label: &str,
    d: usize,
    unit: &str,
    fail_tail: &str,
)
    requires
        old(report).wf(),
        d <= 4,
    ensures
        final(report).wf(),
        final(report).verdicts@ == old(report).verdicts@ + threshold_check(
            value,
            threshold,
            floor,
            label@,
            d as nat,
            unit@,
            fail_tail@,
            *cfg,
        ),
{
    match value {
        Some(v) => {
            let ok: bool = if floor {
                threshold.no_more_than(v)
            } else {
                v.no_more_than(threshold)
            };
            let mut text: String = String::from_str(label);
            text.append(" ");
            push_fixed(&mut text, v, d);
            text.append(unit);
            text.append(
                if floor {
                    if ok {
                        " >= min "
                    } else {
                        " below min "
                    }
                } else if ok {
                    " within max "
                } else {
                    " exceeds max "
                },
            );
            push_fixed(&mut text, threshold, d);
            text.append(unit);
            if !ok {
                text.append(fail_tail);
            }
            report.note(ok, text);
        },
        None => {
            fail_or_skip_bool(cfg, report, label);
        },
    }
}

fn count(v: Option<u64>) -> (r: Option<Double>)
    ensures
        r == count_of(v),
{
    match v {
        Some(n) => Some(Double::from_u64(n)),
        None => None,
    }
}

fn screen_privileges(m: &PoolMetrics, cfg: &ScreeningConfig, report: &mut Report)
    requires
        old(report).wf(),
    ensures
        final(report).wf(),
        final(report).verdicts@ == old(report).verdicts@ + mintable_check(*m, *cfg)
            + ownership_check(*m, *cfg) + blacklist_check(*m, *cfg),
{
    assert(report.verdicts@ + Seq::<Verdict>::empty() =~= report.verdicts@);
    if cfg.require_not_mintable {
        match m.is_mintable {
            Some(false) => {
                report.note(true, String::from_str("No privileged mint function (GoPlus)"));
            },
            Some(true) => {
                report.note(
                    false,
                    String::from_str(
                        "Contract has a privileged mint function — supply could be inflated at will",
                    ),
                );
            },
            None => {
                fail_or_skip_bool(cfg, report, "Mintability");
            },
        }
    }
    assert(report.verdicts@ == old(report).verdicts@ + mintable_check(*m, *cfg));
    assert(report.verdicts@ + Seq::<Verdict>::empty() =~= report.verdicts@);
    if cfg.require_ownership_renounced {
        match m.ownership_renounced {
            Some(true) => {
                report.note(
                    true,
                    String::from_str("Ownership renounced / no privileged owner (GoPlus)"),
                );
            },
            Some(false) => {
                report.note(
                    false,
                    String::from_str(
                        "Ownership NOT renounced — a privileged owner still exists (closest EVM equivalent to an unrevoked mint/freeze authority)",
                    ),
                );
            },
            None => {
                fail_or_skip_bool(cfg, report, "Ownership-renounced status");
            },
        }
    }
    assert(report.verdicts@ == old(report).verdicts@ + mintable_check(*m, *cfg) + ownership_check(
        *m,
        *cfg,
    ));
    assert(report.verdicts@ + Seq::<Verdict>::empty() =~= report.verdicts@);
    if cfg.require_not_blacklistable {
        let blockable: Option<bool> = if is_set(m.is_blacklistable) || is_set(m.transfer_pausable) {
            Some(true)
        } else if m.is_blacklistable.is_some() {
            m.is_blacklistable
        } else {
            m.transfer_pausable
        };
        match blockable {
            Some(false) => {
                report.note(true, String::from_str("No blacklist/pause function found (GoPlus)"));
            },
            Some(true) => {
                report.note(
                    false,
                    String::from_str(
                        "Contract can blacklist addresses or pause transfers — closest EVM equivalent to a freeze authority that hasn't been revoked",
                    ),
                );
            },
            None => {
                fail_or_skip_bool(cfg, report, "Blacklist/pause capability");
            },
        }
    }
}

proof fn lemma_append(start: Seq<Verdict>, a: Seq<Verdict>, b: Seq<Verdict>)
    ensures
        start + a + b == start + (a + b),
{
    assert(start + a + b =~= start + (a + b));
}

fn screen_goplus(m: &PoolMetrics, cfg: &ScreeningConfig, report: &mut Report)
    requires
        old(report).wf(),
    ensures
        final(report).wf(),
        final(report).verdicts@ == old(report).verdicts@ + goplus_checks(*m, *cfg),
{
    let ghost start = report.verdicts@;
    let ghost m0 = *m;
    let ghost c0 = *cfg;
    if cfg.hide_goplus {
        assert(start + Seq::<Verdict>::empty() =~= start);
        return;
    }
    missing_or_check(
        count(m.holder_count),
        Double::from_u64(cfg.min_holder_count),
        true,
        cfg,
        report,
        "Holder count",
        0,
        "",
        "",
    );
    let ghost sofar = holder_check(m0, c0);
    assert(report.verdicts@ == start + sofar);
    missing_or_check(
        count(m.unique_traders_24h),
        Double::from_u64(cfg.min_unique_traders_24h),
        true,
        cfg,
        report,
        "Unique traders (24h)",
        0,
        "",
        "",
    );
    proof {
        lemma_append(start, sofar, traders_check(m0, c0));
    }
    let ghost sofar = sofar + traders_check(m0, c0);
    assert(report.verdicts@ == start + sofar);
    missing_or_check(
        m.top10_holder_pct,
        cfg.max_top10_holder_pct,
        false,
        cfg,
        report,
        "Top-10 holder concentration",
        1,
        "%",
        "",
    );
    proof {
        lemma_append(start, sofar, top10_check(m0, c0));
    }
    let ghost sofar = sofar + top10_check(m0, c0);
    assert(report.verdicts@ == start + sofar);
    missing_or_check(
        m.dev_holding_pct,
        cfg.max_dev_holding_pct,
        false,
        cfg,
        report,
        "Dev/creator holdings",
        1,
        "%",
        "",
    );
    proof {
        lemma_append(start, sofar, dev_check(m0, c0));
    }
    let ghost sofar = sofar + dev_check(m0, c0);
    assert(report.verdicts@ == start + sofar);
    missing_or_check(
        m.buy_tax_percent,
        cfg.max_buy_tax_percent,
        false,
        cfg,
        report,
        "Buy tax",
        1,
        "%",
        "",
    );
    proof {
        lemma_append(start, sofar, buy_tax_check(m0, c0));
    }
    let ghost sofar = sofar + buy_tax_check(m0, c0);
    assert(report.verdicts@ == start + sofar);
    missing_or_check(
        m.sell_tax_percent,
        cfg.max_sell_tax_percent,
        false,
        cfg,
        report,
        "Sell tax",
        1,
        "%",
        "",
    );
    proof {
        lemma_append(start, sofar, sell_tax_check(m0, c0));
    }
    let ghost sofar = sofar + sell_tax_check(m0, c0);
    assert(report.verdicts@ == start + sofar);
    screen_privileges(m, cfg, report);
    proof {
        lemma_append(start, sofar, mintable_check(m0, c0));
        lemma_append(start, sofar + mintable_check(m0, c0), ownership_check(m0, c0));
        lemma_append(
            start,
            sofar + mintable_check(m0, c0) + ownership_check(m0, c0),
            blacklist_check(m0, c0),
        );
    }
    let ghost sofar = sofar + mintable_check(m0, c0) + ownership_check(m0, c0) + blacklist_check(
        m0,
        c0,
    );
    let ghost before_lp = report.verdicts@;
    assert(before_lp + Seq::<Verdict>::empty() =~= before_lp);
    if (Double { bits: 0 }).less_than(cfg.min_lp_locked_pct) {
        missing_or_check(
            m.lp_locked_pct,
            cfg.min_lp_locked_pct,
            true,
            cfg,
            report,
            "LP locked",
            1,
            "%",
            " — GoPlus lock data is often unavailable for Uniswap v3 NFT positions, so this may reflect missing data rather than genuinely unlocked liquidity",
        );
    }
    assert(report.verdicts@ == before_lp + lp_locked_check(*m, *cfg));
    proof {
        lemma_append(start, sofar, lp_locked_check(m0, c0));
    }
}

/// Screens a pool: it passes if every check lets it pass, and each check that was
/// made gives its reason.
pub fn screen(candidate: PoolCandidate, cfg: &ScreeningConfig) -> (r: ScreenResult)
    ensures
        r.candidate == candidate,
        r.passed == all_pass(checks(candidate.metrics, *cfg)),
        texts(r.reasons@) == reasons_of(checks(candidate.metrics, *cfg)),
{
    let mut report: Report = Report {
        passed: true,
        reasons: Vec::new(),
        verdicts: Ghost(Seq::empty()),
    };
    assert(texts(report.reasons@) =~= reasons_of(report.verdicts@));
    let m: &PoolMetrics = &candidate.metrics;
    screen_tvl(m, cfg, &mut report);
    screen_volume(m, cfg, &mut report);
    screen_apr(m, cfg, &mut report);
    screen_age(m, cfg, &mut report);
    screen_verified(m, cfg, &mut report);
    screen_honeypot(m, cfg, &mut report);
    screen_goplus_honeypot(m, cfg, &mut report);
    screen_gecko(m, cfg, &mut report);
    screen_goplus(m, cfg, &mut report);
    assert(report.verdicts@ =~= checks(*m, *cfg));
    ScreenResult { candidate, passed: report.passed, reasons: report.reasons }
}

} // verus!
