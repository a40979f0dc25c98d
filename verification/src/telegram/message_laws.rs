//! What messages tell.
use vstd::prelude::*;
use vstd::string::*;

use crate::address::address_text;
use crate::chain::autoswap::{FailedLeg, SwapResult};
use crate::chain::dexscreener::DexScreenerPair;
use crate::config::AppConfig;
use crate::decimal::{decimal, thousands};
use crate::double::Double;
use crate::fixed::{fixed, fixed_signed};
use crate::models::{PoolMetrics, Position, PositionPnl, ScreenResult};
use crate::telegram::alerts::{
    alert_head, alert_lines, fee_percent, listed, position_lines, safety_lines, size_lines,
    tax_line,
};
use crate::telegram::check::{check_head, check_lines};
use crate::telegram::lookup::{row, table_lines};
use crate::telegram::message::{
    bulleted, count_line, flag_line, maybe, number_line, number_text,
};
use crate::telegram::status::settings_lines;
use crate::telegram::taps::{failures_text, swaps_text, with_failures, with_swaps};
use crate::telegram::units::{average, compact, share_of_day};
use crate::text::texts;

verus! {

proof fn lemma_push_keeps(lines: Seq<Seq<char>>, line: Seq<char>)
    ensures
        forall|x: Seq<char>| #[trigger]
            lines.push(line).contains(x) <==> lines.contains(x) || line == x,
{
    assert forall|x: Seq<char>| #[trigger]
        lines.push(line).contains(x) <==> lines.contains(x) || line == x by {
        if lines.contains(x) {
            let i = choose|i: int| 0 <= i < lines.len() && lines[i] == x;
            assert(lines.push(line)[i] == x);
        }
        if line == x {
            assert(lines.push(line)[lines.len() as int] == x);
        }
    }
}

proof fn lemma_maybe_keeps(lines: Seq<Seq<char>>, line: Option<Seq<char>>)
    ensures
        forall|x: Seq<char>| #[trigger]
            maybe(lines, line).contains(x) <==> lines.contains(x) || line == Some(x),
{
    if line is Some {
        lemma_push_keeps(lines, line->0);
    }
}

proof fn lemma_bulleted_keeps(lines: Seq<Seq<char>>, items: Seq<Seq<char>>)
    ensures
        forall|x: Seq<char>|
            lines.contains(x) ==> #[trigger] bulleted(lines, items).contains(x),
        forall|i: int|
            0 <= i < items.len() ==> bulleted(lines, items).contains("• "@ + #[trigger] items[i]),
    decreases items.len(),
{
    if items.len() > 0 {
        let rest = items.drop_last();
        lemma_bulleted_keeps(lines, rest);
        lemma_push_keeps(bulleted(lines, rest), "• "@ + items.last());
        assert forall|i: int| 0 <= i < items.len() implies bulleted(lines, items).contains(
            "• "@ + #[trigger] items[i],
        ) by {
            if i < rest.len() {
                assert(rest[i] == items[i]);
                assert(bulleted(lines, rest).contains("• "@ + rest[i]));
            }
        }
    }
}

/// Whether some of the lines is a label, a number with `d` decimals, and what ends it.
pub open spec fn tells(
    lines: Seq<Seq<char>>,
    label: Seq<char>,
    x: Option<Double>,
    d: nat,
    end: Seq<char>,
) -> bool {
    x matches Some(v) ==> lines.contains(label + fixed(v, d) + end)
}

/// Whether some of the lines is a label and a count.
pub open spec fn tells_count(lines: Seq<Seq<char>>, label: Seq<char>, n: Option<u64>) -> bool {
    n matches Some(v) ==> lines.contains(label + decimal(v as nat))
}

proof fn lemma_size_lines(lines: Seq<Seq<char>>, m: PoolMetrics)
    ensures
        ({
            let r = size_lines(lines, m);
            &&& forall|x: Seq<char>| lines.contains(x) ==> #[trigger] r.contains(x)
            &&& tells(r, "*TVL:* $"@, m.tvl_usd, 0, ""@)
            &&& tells(r, "*Market cap (FDV):* $"@, m.market_cap_usd, 0, ""@)
            &&& tells(r, "*24h volume:* $"@, m.volume_24h_usd, 0, ""@)
            &&& tells(r, "*Est. fee APR:* "@, m.apr_percent, 1, "%"@)
            &&& tells_count(r, "*Holders:* "@, m.holder_count)
            &&& tells_count(r, "*Unique traders (24h, approx.):* "@, m.unique_traders_24h)
        }),
{
    let n1 = number_line("*TVL:* $"@, m.tvl_usd, 0, ""@);
    let n2 = number_line("*Market cap (FDV):* $"@, m.market_cap_usd, 0, ""@);
    let n3 = number_line("*24h volume:* $"@, m.volume_24h_usd, 0, ""@);
    let n4 = number_line("*Est. fee APR:* "@, m.apr_percent, 1, "%"@);
    let n5 = count_line("*Holders:* "@, m.holder_count);
    let n6 = count_line("*Unique traders (24h, approx.):* "@, m.unique_traders_24h);
    let l1 = maybe(lines, n1);
    let l2 = maybe(l1, n2);
    let l3 = maybe(l2, n3);
    let l4 = maybe(l3, n4);
    let l5 = maybe(l4, n5);
    lemma_maybe_keeps(lines, n1);
    lemma_maybe_keeps(l1, n2);
    lemma_maybe_keeps(l2, n3);
    lemma_maybe_keeps(l3, n4);
    lemma_maybe_keeps(l4, n5);
    lemma_maybe_keeps(l5, n6);
}

proof fn lemma_safety_lines(lines: Seq<Seq<char>>, m: PoolMetrics)
    ensures
        ({
            let r = safety_lines(lines, m);
            &&& forall|x: Seq<char>| lines.contains(x) ==> #[trigger] r.contains(x)
            &&& tells(r, "*Top-10 holders:* "@, m.top10_holder_pct, 1, "% of supply"@)
            &&& tells(r, "*Dev/creator holdings:* "@, m.dev_holding_pct, 1, "%"@)
            &&& tells(r, "*LP locked (GoPlus):* "@, m.lp_locked_pct, 1, "%"@)
            &&& m.buy_tax_percent is Some && m.sell_tax_percent is Some ==> r.contains(
                "*Buy/sell tax:* "@ + fixed(m.buy_tax_percent->0, 1) + "% / "@ + fixed(
                    m.sell_tax_percent->0,
                    1,
                ) + "%"@,
            )
            &&& m.ownership_renounced == Some(true) ==> r.contains("*Ownership renounced:* "@ + "yes"@)
            &&& m.ownership_renounced == Some(false) ==> r.contains(
                "*Ownership renounced:* "@ + "⚠️ no"@,
            )
            &&& m.is_mintable == Some(true) ==> r.contains("*Mintable:* "@ + "⚠️ yes"@)
            &&& m.is_mintable == Some(false) ==> r.contains("*Mintable:* "@ + "no"@)
        }),
{
    let n1 = number_line("*Top-10 holders:* "@, m.top10_holder_pct, 1, "% of supply"@);
    let n2 = number_line("*Dev/creator holdings:* "@, m.dev_holding_pct, 1, "%"@);
    let n3 = tax_line(m);
    let n4 = flag_line("*Ownership renounced:* "@, m.ownership_renounced, "yes"@, "⚠️ no"@);
    let n5 = flag_line("*Mintable:* "@, m.is_mintable, "⚠️ yes"@, "no"@);
    let n6 = number_line("*LP locked (GoPlus):* "@, m.lp_locked_pct, 1, "%"@);
    let n7 = crate::telegram::alerts::honeypot_line(m);
    let l1 = maybe(lines, n1);
    let l2 = maybe(l1, n2);
    let l3 = maybe(l2, n3);
    let l4 = maybe(l3, n4);
    let l5 = maybe(l4, n5);
    let l6 = maybe(l5, n6);
    lemma_maybe_keeps(lines, n1);
    lemma_maybe_keeps(l1, n2);
    lemma_maybe_keeps(l2, n3);
    lemma_maybe_keeps(l3, n4);
    lemma_maybe_keeps(l4, n5);
    lemma_maybe_keeps(l5, n6);
    lemma_maybe_keeps(l6, n7);
}

/// The alert for a pool tells its address and, under their own names, everything that is
/// known of its size, its holders and its contract, its age, and every reason.
pub proof fn law_alert_tells_what_is_known(r: ScreenResult)
    ensures
        ({
            let m = r.candidate.metrics;
            let lines = alert_lines(r);
            &&& lines.contains("*Address:* `"@ + address_text(r.candidate.info.address) + "`"@)
            &&& lines.contains(
                "*Fee tier:* "@ + fixed(fee_percent(r.candidate.info.fee), 2) + "%"@,
            )
            &&& lines.contains("*Pair:* "@ + m.token0_symbol@ + "/"@ + m.token1_symbol@)
            &&& tells(lines, "*TVL:* $"@, m.tvl_usd, 0, ""@)
            &&& tells(lines, "*Market cap (FDV):* $"@, m.market_cap_usd, 0, ""@)
            &&& tells(lines, "*24h volume:* $"@, m.volume_24h_usd, 0, ""@)
            &&& tells(lines, "*Est. fee APR:* "@, m.apr_percent, 1, "%"@)
            &&& tells_count(lines, "*Holders:* "@, m.holder_count)
            &&& tells_count(lines, "*Unique traders (24h, approx.):* "@, m.unique_traders_24h)
            &&& tells(lines, "*Top-10 holders:* "@, m.top10_holder_pct, 1, "% of supply"@)
            &&& tells(lines, "*Dev/creator holdings:* "@, m.dev_holding_pct, 1, "%"@)
            &&& tells(lines, "*LP locked (GoPlus):* "@, m.lp_locked_pct, 1, "%"@)
            &&& m.buy_tax_percent is Some && m.sell_tax_percent is Some ==> lines.contains(
                "*Buy/sell tax:* "@ + fixed(m.buy_tax_percent->0, 1) + "% / "@ + fixed(
                    m.sell_tax_percent->0,
                    1,
                ) + "%"@,
            )
            &&& m.ownership_renounced == Some(false) ==> lines.contains(
                "*Ownership renounced:* "@ + "⚠️ no"@,
            )
            &&& m.is_mintable == Some(true) ==> lines.contains("*Mintable:* "@ + "⚠️ yes"@)
            &&& lines.contains("*Age:* "@ + fixed(m.age_hours, 1) + "h"@)
            &&& forall|i: int|
                0 <= i < r.reasons@.len() ==> lines.contains("• "@ + (#[trigger] r.reasons@[i])@)
        }),
{
    let m = r.candidate.metrics;
    let head = alert_head(r);
    let l0 = Seq::<Seq<char>>::empty().push("🟢 *Pool passed screening*"@);
    let pair = crate::telegram::alerts::pair_text(m.token0_symbol@, m.token1_symbol@);
    let l1 = l0.push(pair);
    let address = "*Address:* `"@ + address_text(r.candidate.info.address) + "`"@;
    let l2 = l1.push(address);
    let tier = number_text("*Fee tier:* "@, fee_percent(r.candidate.info.fee), 2, "%"@);
    lemma_push_keeps(l0, pair);
    lemma_push_keeps(l1, address);
    lemma_push_keeps(l2, tier);
    assert(head == l2.push(tier));
    let sizes = size_lines(head, m);
    lemma_size_lines(head, m);
    let facts = safety_lines(sizes, m);
    lemma_safety_lines(sizes, m);
    let age = number_text("*Age:* "@, m.age_hours, 1, "h"@);
    let aged = facts.push(age);
    lemma_push_keeps(facts, age);
    let gap = aged.push(""@);
    lemma_push_keeps(aged, ""@);
    let why = gap.push("*Why it passed:*"@);
    lemma_push_keeps(gap, "*Why it passed:*"@);
    let reasons = bulleted(why, texts(r.reasons@));
    lemma_bulleted_keeps(why, texts(r.reasons@));
    lemma_push_keeps(reasons, ""@);
    let warning =
        "⚠️ This is an automated screen, not financial advice. Verify the pool yourself before adding liquidity — tapping the button below will sign and send a real transaction."@;
    lemma_push_keeps(reasons.push(""@), warning);
    assert(alert_lines(r) == reasons.push(""@).push(warning));
    assert forall|i: int| 0 <= i < r.reasons@.len() implies alert_lines(r).contains(
        "• "@ + (#[trigger] r.reasons@[i])@,
    ) by {
        assert(texts(r.reasons@)[i] == r.reasons@[i]@);
        assert(reasons.contains("• "@ + texts(r.reasons@)[i]));
    }
}

/// The report on a pool tells its figures under their own names, which of its tokens is
/// verified, whether it passed, and every reason.
pub proof fn law_report_tells_the_verdict(pool_hex: Seq<char>, r: ScreenResult)
    ensures
        ({
            let m = r.candidate.metrics;
            let lines = check_lines(pool_hex, r);
            &&& lines.contains("*Pool:* `"@ + pool_hex + "`"@)
            &&& tells(lines, "*TVL:* $"@, m.tvl_usd, 0, ""@)
            &&& tells(lines, "*24h volume:* $"@, m.volume_24h_usd, 0, ""@)
            &&& tells(lines, "*Est. fee APR:* "@, m.apr_percent, 1, "%"@)
            &&& lines.contains("*Age:* "@ + fixed(m.age_hours, 1) + "h"@)
            &&& m.token0_verified == Some(true) ==> lines.contains("*Token0 verified:* "@ + "✅"@)
            &&& m.token0_verified != Some(true) ==> lines.contains("*Token0 verified:* "@ + "❌"@)
            &&& m.token1_verified == Some(true) ==> lines.contains("*Token1 verified:* "@ + "✅"@)
            &&& m.token1_verified != Some(true) ==> lines.contains("*Token1 verified:* "@ + "❌"@)
            &&& r.passed ==> lines.contains("🟢 *PASSED screening*"@)
            &&& !r.passed ==> lines.contains("🔴 *FAILED screening*"@)
            &&& forall|i: int|
                0 <= i < r.reasons@.len() ==> lines.contains("• "@ + (#[trigger] r.reasons@[i])@)
        }),
{
    let m = r.candidate.metrics;
    let fee = r.candidate.info.fee;
    let title = "*Pool:* `"@ + pool_hex + "`"@;
    let pair = number_text(
        "*Pair:* "@ + m.token0_symbol@ + "/"@ + m.token1_symbol@ + " (fee "@,
        fee_percent(fee),
        2,
        "%)"@,
    );
    let none = Seq::<Seq<char>>::empty();
    let l = none.push(title);
    let l0 = l.push(pair);
    let n1 = number_line("*TVL:* $"@, m.tvl_usd, 0, ""@);
    let n2 = number_line("*24h volume:* $"@, m.volume_24h_usd, 0, ""@);
    let n3 = number_line("*Est. fee APR:* "@, m.apr_percent, 1, "%"@);
    let age = number_text("*Age:* "@, m.age_hours, 1, "h"@);
    let v0 = flag_line(
        "*Token0 verified:* "@,
        Some(crate::telegram::check::known_true(m.token0_verified)),
        "✅"@,
        "❌"@,
    );
    let v1 = flag_line(
        "*Token1 verified:* "@,
        Some(crate::telegram::check::known_true(m.token1_verified)),
        "✅"@,
        "❌"@,
    );
    let l1 = maybe(l0, n1);
    let l2 = maybe(l1, n2);
    let l3 = maybe(l2, n3);
    let l4 = l3.push(age);
    let l5 = maybe(l4, v0);
    let head = maybe(l5, v1);
    lemma_push_keeps(none, title);
    lemma_push_keeps(l, pair);
    lemma_maybe_keeps(l0, n1);
    lemma_maybe_keeps(l1, n2);
    lemma_maybe_keeps(l2, n3);
    lemma_push_keeps(l3, age);
    lemma_maybe_keeps(l4, v0);
    lemma_maybe_keeps(l5, v1);
    assert(check_head(pool_hex, m, fee) == head);
    let verdict = if r.passed {
        "🟢 *PASSED screening*"@
    } else {
        "🔴 *FAILED screening*"@
    };
    let g = head.push(""@);
    let h = g.push(verdict);
    let all = h.push("*Reasons:*"@);
    lemma_push_keeps(head, ""@);
    lemma_push_keeps(g, verdict);
    lemma_push_keeps(h, "*Reasons:*"@);
    lemma_bulleted_keeps(all, texts(r.reasons@));
    assert(check_lines(pool_hex, r) == bulleted(all, texts(r.reasons@)));
    assert forall|i: int| 0 <= i < r.reasons@.len() implies check_lines(pool_hex, r).contains(
        "• "@ + (#[trigger] r.reasons@[i])@,
    ) by {
        assert(texts(r.reasons@)[i] == r.reasons@[i]@);
        assert(check_lines(pool_hex, r).contains("• "@ + texts(r.reasons@)[i]));
    }
}

/// The status tells each setting under its own name.
pub proof fn law_status_tells_the_settings(cfg: AppConfig)
    ensures
        ({
            let s = cfg.screening;
            let lines = settings_lines(cfg);
            &&& s.enabled ==> lines.contains("*Auto-screening:* "@ + "🟢 ON"@)
            &&& !s.enabled ==> lines.contains("*Auto-screening:* "@ + "🔴 OFF"@)
            &&& lines.contains(
                "*Poll interval:* "@ + decimal(s.poll_interval_secs as nat) + "s"@,
            )
            &&& tells(lines, "*Min TVL:* $"@, Some(s.min_tvl_usd), 0, ""@)
            &&& tells(lines, "*Min volume:* $"@, Some(s.min_volume_24h_usd), 0, ""@)
            &&& tells(lines, "*Min APR:* "@, Some(s.min_apr_percent), 0, "%"@)
            &&& tells(lines, "*Max APR:* "@, Some(s.max_apr_percent), 0, "%"@)
            &&& tells(lines, "*Min age:* "@, Some(s.min_pool_age_hours), 0, "h"@)
            &&& s.require_verified_tokens ==> lines.contains(
                "*Verified tokens required:* "@ + "yes"@,
            )
            &&& !s.require_verified_tokens ==> lines.contains(
                "*Verified tokens required:* "@ + "no"@,
            )
        }),
{
    let s = cfg.screening;
    let l0 = Seq::<Seq<char>>::empty().push("*Bot status:*"@).push(""@);
    let n1 = flag_line("*Auto-screening:* "@, Some(s.enabled), "🟢 ON"@, "🔴 OFF"@);
    let poll = "*Poll interval:* "@ + decimal(s.poll_interval_secs as nat) + "s"@;
    let n3 = number_line("*Min TVL:* $"@, Some(s.min_tvl_usd), 0, ""@);
    let n4 = number_line("*Min volume:* $"@, Some(s.min_volume_24h_usd), 0, ""@);
    let n5 = number_line("*Min APR:* "@, Some(s.min_apr_percent), 0, "%"@);
    let n6 = number_line("*Max APR:* "@, Some(s.max_apr_percent), 0, "%"@);
    let n7 = number_line("*Min age:* "@, Some(s.min_pool_age_hours), 0, "h"@);
    let n8 = flag_line(
        "*Verified tokens required:* "@,
        Some(s.require_verified_tokens),
        "yes"@,
        "no"@,
    );
    let l1 = maybe(l0, n1);
    let l2 = l1.push(poll);
    let l3 = maybe(l2, n3);
    let l4 = maybe(l3, n4);
    let l5 = maybe(l4, n5);
    let l6 = maybe(l5, n6);
    let l7 = maybe(l6, n7);
    lemma_maybe_keeps(l0, n1);
    lemma_push_keeps(l1, poll);
    lemma_maybe_keeps(l2, n3);
    lemma_maybe_keeps(l3, n4);
    lemma_maybe_keeps(l4, n5);
    lemma_maybe_keeps(l5, n6);
    lemma_maybe_keeps(l6, n7);
    lemma_maybe_keeps(l7, n8);
}

proof fn lemma_position_lines(open: Seq<Position>, pnls: Seq<Option<PositionPnl>>, n: nat)
    ensures
        position_lines(open, pnls, n).len() == 2 + 2 * n,
        forall|i: int|
            0 <= i < n ==> position_lines(open, pnls, n)[2 + 2 * i] == listed(
                #[trigger] open[i],
                pnls[i],
            ),
    decreases n,
{
    if n > 0 {
        let m = (n - 1) as nat;
        lemma_position_lines(open, pnls, m);
        let before = position_lines(open, pnls, m);
        let all = position_lines(open, pnls, n);
        assert forall|i: int| 0 <= i < n implies all[2 + 2 * i] == listed(
            #[trigger] open[i],
            pnls[i],
        ) by {
            if i < m {
                assert(before[2 + 2 * i] == listed(open[i], pnls[i]));
            }
        }
    }
}

/// The list of positions has a line for each, in order, with its own number, pair, cost
/// and, where that is known, its own profit and range.
pub proof fn law_every_position_is_listed(
    open: Seq<Position>,
    pnls: Seq<Option<PositionPnl>>,
    n: nat,
    i: int,
)
    requires
        0 <= i < n,
    ensures
        position_lines(open, pnls, n).len() == 2 + 2 * n,
        ({
            let p = open[i];
            let head = "*#"@ + decimal(p.token_id as nat) + "* "@ + p.token0_symbol@ + "/"@
                + p.token1_symbol@ + " — entry $"@ + fixed(p.entry_cost_usd, 2) + "\nPnL: "@;
            let line = position_lines(open, pnls, n)[2 + 2 * i];
            &&& pnls[i] matches Some(v) ==> line == head + (""@ + fixed_signed(v.pnl_percent, 1)
                + "% ("@ + fixed_signed(v.pnl_usd, 2) + " USD)"@) + " · "@ + (if v.in_range {
                "in range"@
            } else {
                "OUT OF RANGE"@
            })
            &&& pnls[i] is None ==> line == head + "unavailable"@ + " · "@ + "unknown"@
        }),
{
    lemma_position_lines(open, pnls, n);
    assert(position_lines(open, pnls, n)[2 + 2 * i] == listed(open[i], pnls[i]));
}

/// Whether a text holds another.
pub open spec fn mentions(text: Seq<char>, part: Seq<char>) -> bool {
    exists|a: Seq<char>, b: Seq<char>| text == #[trigger] (a + part + b)
}

proof fn lemma_mentions_more(text: Seq<char>, part: Seq<char>, more: Seq<char>)
    requires
        mentions(text, part),
    ensures
        mentions(text + more, part),
{
    let (a, b) = choose|a: Seq<char>, b: Seq<char>| text == #[trigger] (a + part + b);
    assert(text + more =~= a + part + (b + more));
}

/// What is said of a leg that failed.
pub open spec fn leg_line(leg: FailedLeg) -> Seq<char> {
    "\n  `"@ + address_text(leg.stuck_token) + "` — "@ + decimal(leg.stuck_amount.value())
        + " left in wallet as-is\n    reason: "@ + leg.reason@
}

/// What is said of a swap.
pub open spec fn swap_line(swap: SwapResult) -> Seq<char> {
    "\n  `"@ + address_text(swap.token_in) + "` → ~"@ + decimal(swap.amount_out.value()) + " out"@
}

proof fn lemma_failures(text: Seq<char>, legs: Seq<FailedLeg>, n: nat, i: int)
    requires
        0 <= i < n,
    ensures
        mentions(with_failures(text, legs, n), leg_line(legs[i])),
    decreases n,
{
    let m = (n - 1) as nat;
    let before = with_failures(text, legs, m);
    let line = leg_line(legs[m as int]);
    assert(with_failures(text, legs, n) =~= before + line);
    if i < m {
        lemma_failures(text, legs, m, i);
        lemma_mentions_more(before, leg_line(legs[i]), line);
    } else {
        assert(before + line =~= before + line + Seq::<char>::empty());
    }
}

proof fn lemma_swaps(text: Seq<char>, swaps: Seq<SwapResult>, n: nat, i: int)
    requires
        0 <= i < n,
    ensures
        mentions(with_swaps(text, swaps, n), swap_line(swaps[i])),
    decreases n,
{
    let m = (n - 1) as nat;
    let before = with_swaps(text, swaps, m);
    let line = swap_line(swaps[m as int]);
    assert(with_swaps(text, swaps, n) =~= before + line);
    if i < m {
        lemma_swaps(text, swaps, m, i);
        lemma_mentions_more(before, swap_line(swaps[i]), line);
    } else {
        assert(before + line =~= before + line + Seq::<char>::empty());
    }
}

/// After a close, every leg that failed is told with what is left of it and why.
pub proof fn law_every_failed_leg_is_told(text: Seq<char>, legs: Seq<FailedLeg>, i: int)
    requires
        0 <= i < legs.len(),
    ensures
        mentions(failures_text(text, legs), leg_line(legs[i])),
{
    let head = text
        + "\n\n⚠️ *Some proceeds couldn't be auto-swapped* (likely the token turned into a honeypot after screening — force-closed rather than blocking the whole close):"@;
    let end =
        "\nCheck /positions and your wallet balance — you may want to try swapping this manually or just hold it."@;
    lemma_failures(head, legs, legs.len(), i);
    lemma_mentions_more(with_failures(head, legs, legs.len()), leg_line(legs[i]), end);
}

/// After a close, every swap is told with what went in and what came out; where there was
/// none, that is told.
pub proof fn law_every_swap_is_told(text: Seq<char>, swaps: Seq<SwapResult>, i: int)
    ensures
        0 <= i < swaps.len() ==> mentions(swaps_text(text, swaps), swap_line(swaps[i])),
        swaps.len() == 0 ==> swaps_text(text, swaps) == text
            + "\nProceeds were already USDG — no swap needed."@,
{
    if 0 <= i < swaps.len() {
        lemma_swaps(
            text + "\n🔄 Auto-swapped proceeds to USDG ("@ + decimal(swaps.len()) + " swap(s)):"@,
            swaps,
            swaps.len(),
            i,
        );
    }
}

/// The table of a pair has a row for each window, with that window's own buys, sells,
/// volume and average trade, and with its share of the day where it is shorter.
pub proof fn law_windows_have_their_rows(lines: Seq<Seq<char>>, p: DexScreenerPair)
    ensures
        ({
            let t = table_lines(lines, p);
            let n = lines.len() as int;
            let v = p.volume;
            let x = p.txns;
            &&& t.len() == n + 7
            &&& t[n + 2] == row(
                "24h"@,
                thousands(x.h24.buys as nat),
                thousands(x.h24.sells as nat),
                compact(v.h24),
                average(v.h24, x.h24.buys, x.h24.sells),
                "—"@,
            )
            &&& t[n + 3] == row(
                "6h"@,
                thousands(x.h6.buys as nat),
                thousands(x.h6.sells as nat),
                compact(v.h6),
                average(v.h6, x.h6.buys, x.h6.sells),
                share_of_day(v.h6, v.h24),
            )
            &&& t[n + 4] == row(
                "1h"@,
                thousands(x.h1.buys as nat),
                thousands(x.h1.sells as nat),
                compact(v.h1),
                average(v.h1, x.h1.buys, x.h1.sells),
                share_of_day(v.h1, v.h24),
            )
            &&& t[n + 5] == row(
                "5m"@,
                thousands(x.m5.buys as nat),
                thousands(x.m5.sells as nat),
                compact(v.m5),
                average(v.m5, x.m5.buys, x.m5.sells),
                share_of_day(v.m5, v.h24),
            )
        }),
{
}

} // verus!
